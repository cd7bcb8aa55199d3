use recallai::controller::{ControllerStatus, Job, LocationType, Status};
use recallai::web::crc::{x25, CrcJsonResponse, CRC_BLOCK_LEN};
use recallai::web::err::{
    RequestError1, ResponseErrorItem, BAD_REQUEST, INTERNAL_SERVER_ERROR, UNPROCESSABLE_ENTITY,
};
use recallai::web::jobs::{
    job_cancel, job_list, job_list_all, job_status, mk_job_info, recompose, recompose_job,
    recompose_with_id,
};
use recallai::web::request::{problem_entry, RecomposeApi, RecomposeJson};
use recallai::web::response::{Response1, ResponseJobInfo};

const BASE: &str = "http://localhost:80";
const ID_A: u128 = 0x41414141414141414141414141414141;
const ID_A_TEXT: &str = "21850M2GA1850M2GA1850M2GA1";

fn req(video: Option<&str>, rules: Option<&str>, dest: Option<&str>) -> RecomposeJson {
    RecomposeJson {
        video_url: video.map(String::from),
        rules_url: rules.map(String::from),
        dest_url: dest.map(String::from),
    }
}

fn title_of(e: &ResponseErrorItem) -> &str {
    e.title.as_deref().unwrap()
}

fn only_validation_title(r: RequestError1) -> String {
    match r {
        RequestError1::Validation(v) => {
            assert_eq!(v.len(), 1);
            assert!(v[0].source.is_none() && v[0].status.is_none() && v[0].detail.is_none());
            String::from(title_of(&v[0]))
        }
        other => panic!("unexpected {other:?}"),
    }
}

#[test]
fn error_entries() {
    let e = ResponseErrorItem::title_str("t");
    assert_eq!(e.title.as_deref(), Some("t"));
    assert!(e.status.is_none() && e.detail.is_none() && e.source.is_none());
    assert_eq!(ResponseErrorItem::title(String::from("t")), e);
    assert_eq!(ResponseErrorItem::title_cow(String::from("t")), e);
    let s = ResponseErrorItem::title_source_str("t", "/s");
    assert_eq!(s.source.as_deref(), Some("/s"));
    assert_eq!(ResponseErrorItem::title_source(String::from("t"), String::from("/s")), s);
    assert_eq!(ResponseErrorItem::default(), ResponseErrorItem { status: None, detail: None, source: None, title: None });
}

#[test]
fn error_replies() {
    let (code, body) = RequestError1::Validation(vec![ResponseErrorItem::title_str("a")]).response_parts();
    assert_eq!(code, 422);
    assert_eq!(code, UNPROCESSABLE_ENTITY);
    assert_eq!(body.status, "Error");
    assert_eq!(body.errors.unwrap()[0].title.as_deref(), Some("a"));
    let (code, body) = RequestError1::MissingSourceResource(ResponseErrorItem::title_str("id")).response_parts();
    assert_eq!(code, 422);
    assert_eq!(body.errors.unwrap().len(), 1);
    let (code, _) = RequestError1::JobNotFound(ResponseErrorItem::title_str("x")).response_parts();
    assert_eq!(code, 400);
    assert_eq!(code, BAD_REQUEST);
    let (code, body) = RequestError1::sys_str("boom").response_parts();
    assert_eq!(code, 500);
    assert_eq!(code, INTERNAL_SERVER_ERROR);
    assert_eq!(body.errors.unwrap()[0].title.as_deref(), Some("boom"));
    assert!(body.data.is_none());
    assert!(matches!(RequestError1::sys(String::from("m")), RequestError1::SystemError(m) if m == "m"));
}

#[test]
fn plain_replies() {
    let ok = Response1::ok();
    assert_eq!(ok.status, "Ok");
    assert!(ok.errors.is_none() && ok.data.is_none());
    let err = Response1::err(ResponseErrorItem::title_str("e"));
    assert_eq!(err.status, "Error");
    assert_eq!(err.errors.unwrap().len(), 1);
    let errs = Response1::errs(vec![]);
    assert_eq!(errs.status, "Error");
    assert_eq!(errs.errors.unwrap().len(), 0);
    let e = ResponseJobInfo::err(ResponseErrorItem::title_str("e"));
    assert_eq!(e.status, "Error");
    assert!(e.data.is_none());
    let es = ResponseJobInfo::errs(vec![ResponseErrorItem::title_str("a"), ResponseErrorItem::title_str("b")]);
    assert_eq!(es.errors.unwrap().len(), 2);
}

#[test]
fn valid_request_converts() {
    let api = RecomposeApi::try_from(req(Some("http://a/v.rvid"), Some("https://b/r.json"), Some("file:///tmp/o")))
        .unwrap_or_else(|_| panic!("valid request refused"));
    assert_eq!(api.video_url.as_str(), "http://a/v.rvid");
    assert_eq!(api.rules_url.as_str(), "https://b/r.json");
    assert_eq!(api.dest_url.as_str(), "file:///tmp/o");
}

#[test]
fn request_fields_keep_their_own_serialized_urls() {
    let api = RecomposeApi::try_from(req(Some("HTTP://Video.example"), Some("https://r.example/a/../b.json"), Some("file:///tmp/o")))
        .unwrap_or_else(|_| panic!("valid request refused"));
    assert_eq!(api.video_url.as_str(), "http://video.example/");
    assert_eq!(api.rules_url.as_str(), "https://r.example/b.json");
    assert_eq!(api.dest_url.as_str(), "file:///tmp/o");
    assert_eq!(api.video_url.url().host_str(), Some("video.example"));
    assert_eq!(api.rules_url.url().path(), "/b.json");
}

#[test]
fn request_problems_are_listed_in_field_order() {
    let r = RecomposeApi::try_from(req(None, Some("not a url"), Some("http://ok/")));
    match r {
        Err(RequestError1::Validation(v)) => {
            assert_eq!(v.len(), 2);
            assert_eq!(title_of(&v[0]), "missing field video_url");
            assert_eq!(v[0].source.as_deref(), Some("/video_url"));
            assert_eq!(title_of(&v[1]), "field rules_url is not a valid URI");
            assert_eq!(v[1].source.as_deref(), Some("/rules_url"));
        }
        _ => panic!("expected validation failure"),
    }
    match RecomposeApi::try_from(req(None, None, None)) {
        Err(RequestError1::Validation(v)) => {
            let titles: Vec<&str> = v.iter().map(title_of).collect();
            assert_eq!(titles, vec!["missing field video_url", "missing field rules_url", "missing field dest_url"]);
        }
        _ => panic!("expected validation failure"),
    }
}

#[test]
fn recompose_locations() {
    let j = recompose_job(req(Some("http://v"), Some("rules.json"), Some("https://d"))).unwrap();
    assert_eq!(j.video_url, LocationType::HTTP_GET("http://v".into()));
    assert_eq!(j.rule_url, LocationType::File("rules.json".into()));
    assert_eq!(j.dest_url, LocationType::HTTP_POST("https://d".into()));
    assert_eq!(j.status, Status::QUEUED);
    let j = recompose_job(req(Some("v.rvid"), Some("http://r"), Some("o.rvid"))).unwrap();
    assert_eq!(j.video_url, LocationType::File("v.rvid".into()));
    assert_eq!(j.rule_url, LocationType::HTTP_GET("http://r".into()));
    assert_eq!(j.dest_url, LocationType::File("o.rvid".into()));
}

#[test]
fn recompose_missing_fields() {
    let e = recompose_job(req(None, None, None)).unwrap_err();
    assert_eq!(only_validation_title(e), "missing video_url");
    let e = recompose_job(req(Some("v"), None, None)).unwrap_err();
    assert_eq!(only_validation_title(e), "missing dest_url");
    let e = recompose_job(req(Some("v"), None, Some("d"))).unwrap_err();
    assert_eq!(only_validation_title(e), "missing rules_url");
}

#[test]
fn recompose_reply_describes_the_new_job() {
    let mut c = ControllerStatus::new(2);
    let (reply, sent) = recompose_with_id(&mut c, BASE, req(Some("v"), Some("r"), Some("d")), ID_A).unwrap();
    assert_eq!(reply.status, "Ok");
    assert!(reply.errors.is_none());
    let info = reply.data.unwrap();
    assert_eq!(info.id, ID_A_TEXT);
    assert_eq!(info.status, "QUEUED");
    assert_eq!(info.poll_url.as_deref(), Some("http://localhost:80/job/21850M2GA1850M2GA1850M2GA1"));
    assert_eq!(info.cancel_url.as_deref(), Some("http://localhost:80/job/21850M2GA1850M2GA1850M2GA1/cancel"));
    assert_eq!(info.cur_frame, None);
    assert_eq!(info.max_frames, None);
    assert_eq!(info.took_nanos, None);
    let sent = sent.unwrap();
    assert_eq!(sent.id, ID_A);
    assert_eq!(sent.status, Status::RUNNING);
}

#[test]
fn full_queue_is_reported_as_missing_rules() {
    let mut c = ControllerStatus::new(2);
    for id in 0..101u128 {
        recompose_with_id(&mut c, BASE, req(Some("v"), Some("r"), Some("d")), id).unwrap();
    }
    let e = recompose_with_id(&mut c, BASE, req(Some("v"), Some("r"), Some("d")), 1000).unwrap_err();
    assert_eq!(only_validation_title(e), "missing rules_url");
}

#[test]
fn recompose_with_new_identifier_can_be_polled() {
    let mut c = ControllerStatus::new(2);
    let (reply, _) = recompose(&mut c, BASE, req(Some("v"), Some("r"), Some("d"))).unwrap();
    let info = reply.data.unwrap();
    let polled = job_status(&c, BASE, &info.id).unwrap().data.unwrap();
    assert_eq!(polled.id, info.id);
    assert_eq!(polled.status, "RUNNING");
    assert_eq!(polled.poll_url, info.poll_url);
}

#[test]
fn job_status_replies() {
    let mut c = ControllerStatus::new(2);
    recompose_with_id(&mut c, BASE, req(Some("v"), Some("r"), Some("d")), ID_A).unwrap();
    let info = job_status(&c, BASE, &ID_A_TEXT.to_lowercase()).unwrap().data.unwrap();
    assert_eq!(info.id, ID_A_TEXT);
    assert_eq!(info.status, "RUNNING");
    assert_eq!(info.cur_frame, Some(0));
    match job_status(&c, BASE, "not-an-id") {
        Err(RequestError1::MissingSourceResource(e)) => assert_eq!(title_of(&e), "id"),
        _ => panic!("expected missing source"),
    }
    match job_status(&c, BASE, "00000000000000000000000000") {
        Err(RequestError1::JobNotFound(e)) => assert_eq!(title_of(&e), "Job ID Not Found"),
        _ => panic!("expected job not found"),
    }
}

#[test]
fn job_info_of_finished_job() {
    let mut j = Job::new(LocationType::File("a".into()), LocationType::File("b".into()), LocationType::File("c".into()));
    j.id = ID_A;
    j.status = Status::COMPLETED;
    j.cur_frame = 10;
    j.num_frames = Some(12);
    j.took_nanos = 2_500_000_000;
    let info = mk_job_info("http://h", &j);
    assert_eq!(info.status, "COMPLETED");
    assert_eq!(info.cur_frame, Some(10));
    assert_eq!(info.max_frames, Some(12));
    assert_eq!(info.took_nanos, Some(2_500_000_000));
    assert_eq!(info.poll_url.as_deref(), Some("http://h/job/21850M2GA1850M2GA1850M2GA1"));
    j.took_nanos = 999_999;
    assert_eq!(mk_job_info("http://h", &j).took_nanos, None);
    j.took_nanos = 1_000_000;
    assert_eq!(mk_job_info("http://h", &j).took_nanos, Some(1_000_000));
}

#[test]
fn cancel_replies() {
    let mut c = ControllerStatus::new(2);
    match job_cancel(&mut c, ID_A_TEXT) {
        Err(RequestError1::JobNotFound(e)) => assert_eq!(title_of(&e), "Job ID Not Found"),
        _ => panic!("expected job not found"),
    }
    recompose_with_id(&mut c, BASE, req(Some("v"), Some("r"), Some("d")), ID_A).unwrap();
    let (reply, stopped) = job_cancel(&mut c, "00000000000000000000000001").unwrap();
    assert_eq!(stopped, Some(ID_A));
    let info = reply.data.unwrap();
    assert_eq!(info.id, "00000000000000000000000001");
    assert_eq!(info.status, "DELETED");
    assert!(info.poll_url.is_none() && info.cancel_url.is_none());
    match job_cancel(&mut c, "!") {
        Err(RequestError1::MissingSourceResource(e)) => assert_eq!(title_of(&e), "id"),
        _ => panic!("expected missing source"),
    }
}

#[test]
fn job_list_replies() {
    let mut c = ControllerStatus::new(2);
    recompose_with_id(&mut c, BASE, req(Some("v"), Some("r"), Some("d")), 1).unwrap();
    recompose_with_id(&mut c, BASE, req(Some("v"), Some("r"), Some("d")), 2).unwrap();
    c.complete_job_async(1, 0, 0, 0);
    let l = job_list(&c, BASE).unwrap();
    assert_eq!(l.status, "Ok");
    assert!(l.errors.is_none());
    let ids: Vec<String> = l.data.unwrap().into_iter().map(|i| i.id).collect();
    assert_eq!(ids, vec![String::from("00000000000000000000000002")]);
    let all = job_list_all(&c, BASE).unwrap().data.unwrap();
    assert_eq!(all.len(), 2);
    assert_eq!(all[1].status, "COMPLETED");
}

fn x25_reference(bytes: &[u8]) -> u16 {
    crc::Crc::<u16>::new(&crc::CRC_16_IBM_SDLC).checksum(bytes)
}

#[test]
fn checksum_of_zero_block() {
    let r = CrcJsonResponse::of_zero_block();
    assert_eq!(CRC_BLOCK_LEN, 512);
    assert_eq!(r.crc, x25_reference(&[0u8; 512]));
    assert_ne!(r.crc, 0);
}

#[test]
fn checksum_agrees_with_the_catalogue() {
    assert_eq!(x25(b"123456789"), 0x906e);
    assert_eq!(x25(b""), 0x0000);
    let samples: [&[u8]; 5] = [b"", b"a", b"123456789", &[0xff; 37], b"recall: frames and rules"];
    for s in samples {
        assert_eq!(x25(s), x25_reference(s));
    }
    let ramp: Vec<u8> = (0..=255u8).collect();
    assert_eq!(x25(&ramp), x25_reference(&ramp));
}

#[test]
fn field_problem_entries() {
    let m = problem_entry("video_url", false, false).unwrap();
    assert_eq!(title_of(&m), "missing field video_url");
    assert_eq!(m.source.as_deref(), Some("/video_url"));
    let m = problem_entry("dest_url", false, true).unwrap();
    assert_eq!(title_of(&m), "missing field dest_url");
    let b = problem_entry("rules_url", true, false).unwrap();
    assert_eq!(title_of(&b), "field rules_url is not a valid URI");
    assert_eq!(b.source.as_deref(), Some("/rules_url"));
    assert!(problem_entry("rules_url", true, true).is_none());
}
