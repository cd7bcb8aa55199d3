use recallai::controller::{ControllerStatus, Job, LocationType};
use recallai::web::jobs::{job_status, mk_job_info};

fn job_with_id(id: u128) -> Job {
    let mut j = Job::new(LocationType::File("a".into()), LocationType::File("b".into()), LocationType::File("c".into()));
    j.id = id;
    j
}

fn text_of(id: u128) -> String {
    mk_job_info("", &job_with_id(id)).id
}

fn found(c: &ControllerStatus, text: &str) -> Option<String> {
    job_status(c, "", text).ok().map(|r| r.data.unwrap().id)
}

#[test]
fn identifier_text_is_crockford_base32() {
    assert_eq!(text_of(0), "00000000000000000000000000");
    assert_eq!(text_of(0x41414141414141414141414141414141), "21850M2GA1850M2GA1850M2GA1");
    assert_eq!(text_of(0x4d4e385051444a59454234335a413756), "2D9RW50MA499CMAGHM6DD42DTP");
    assert_eq!(text_of(u128::MAX), "7ZZZZZZZZZZZZZZZZZZZZZZZZZ");
}

#[test]
fn identifier_text_parses_in_either_case() {
    let mut c = ControllerStatus::new(1);
    c.create_job_with_id(job_with_id(0), 0x4d4e385051444a59454234335a413756).unwrap();
    assert_eq!(found(&c, "2D9RW50MA499CMAGHM6DD42DTP").as_deref(), Some("2D9RW50MA499CMAGHM6DD42DTP"));
    assert_eq!(found(&c, "2d9rw50ma499cmaghm6dd42dtp").as_deref(), Some("2D9RW50MA499CMAGHM6DD42DTP"));
}

#[test]
fn bad_identifier_text_is_refused() {
    let c = ControllerStatus::new(1);
    for bad in [
        "",
        "2D9RW50MA499CMAGHM6DD42DT",
        "2D9RW50MA499CMAGHM6DD42DTPP",
        "2D9RW50IA499CMAGHM6DD42DTP",
        "2D9RW50LA499CMAGHM6DD42DTP",
        "2D9RW50[A499CMAGHM6DD42DTP",
        "2D9RW50ÄA499CMAGHM6DD42DT",
    ] {
        match job_status(&c, "", bad) {
            Err(recallai::web::err::RequestError1::MissingSourceResource(_)) => {}
            _ => panic!("accepted {bad}"),
        }
    }
}

#[test]
fn text_of_identifier_reads_back() {
    for v in [0u128, 1, 31, 32, 0x41414141414141414141414141414141, u128::MAX, u128::MAX / 3] {
        let mut c = ControllerStatus::new(1);
        c.create_job_with_id(job_with_id(0), v).unwrap();
        let t = text_of(v);
        assert_eq!(found(&c, &t), Some(t.clone()));
    }
}

#[test]
fn first_digit_beyond_seven_wraps() {
    // the decoder keeps the low 128 bits of the 130 that 26 digits carry
    let mut c = ControllerStatus::new(1);
    c.create_job_with_id(job_with_id(0), 0).unwrap();
    assert_eq!(found(&c, "80000000000000000000000000").as_deref(), Some("00000000000000000000000000"));
}

#[test]
fn new_identifiers_differ() {
    let mut c = ControllerStatus::new(1);
    let (a, _) = c.create_job_async(job_with_id(0)).unwrap();
    let (b, _) = c.create_job_async(job_with_id(0)).unwrap();
    assert_ne!(a, b);
    assert_eq!(found(&c, &text_of(b)), Some(text_of(b)));
}
