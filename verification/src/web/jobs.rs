use vstd::prelude::*;

use crate::controller::{ControllerStatus, Job, LocationType, Status};
use crate::data::starts_with_http;
use crate::ids::{new_ulid, ulid_from_string, ulid_to_string};
use crate::web::err::{RequestError1, ResponseErrorItem};
use crate::web::request::RecomposeJson;
use crate::web::response::{JobInfo, ResponseJobInfo, ResponseJobList};

verus! {

/// Where a job reads from a location given as text: a download when the text starts with
/// "http", a file otherwise.
pub open spec fn source_location(url: String) -> LocationType {
    if crate::data::has_prefix(url@, crate::data::http_text()) {
        LocationType::HTTP_GET(url)
    } else {
        LocationType::File(url)
    }
}

/// Where a job writes to a location given as text: an upload by POST when the text starts
/// with "http", a file otherwise.
pub open spec fn dest_location(url: String) -> LocationType {
    if crate::data::has_prefix(url@, crate::data::http_text()) {
        LocationType::HTTP_POST(url)
    } else {
        LocationType::File(url)
    }
}

/// Whether `e` is the entry with only the title `title`.
pub open spec fn only_title(e: ResponseErrorItem, title: Seq<char>) -> bool {
    &&& e.status is None
    &&& e.detail is None
    &&& e.source is None
    &&& e.title matches Some(t) && t@ == title
}

/// Whether `r` is a validation failure with the one entry titled `title`.
pub open spec fn single_validation<T>(r: Result<T, RequestError1>, title: Seq<char>) -> bool {
    r matches Err(RequestError1::Validation(v)) && v@.len() == 1 && only_title(v@[0], title)
}

/// The path of a job's status page under the service's base address.
pub open spec fn poll_path(base: Seq<char>, id: u128) -> Seq<char> {
    base + "/job/"@ + crate::ids::ulid_text(id)
}

/// The path of a job's cancel page under the service's base address.
pub open spec fn cancel_path(base: Seq<char>, id: u128) -> Seq<char> {
    poll_path(base, id) + "/cancel"@
}

/// How long a job took, as reported: nothing when under a millisecond.
pub open spec fn reported_took(nanos: u128) -> Option<u128> {
    if nanos < 1_000_000 {
        None
    } else {
        Some(nanos)
    }
}

/// Whether `info` describes `job` for a service at `base`.
pub open spec fn describes(info: JobInfo, base: Seq<char>, job: Job) -> bool {
    &&& info.id@ == crate::ids::ulid_text(job.id)
    &&& info.status@ == crate::controller::status_text(job.status)
    &&& info.cur_frame == Some(job.cur_frame)
    &&& info.max_frames == job.num_frames
    &&& info.poll_url matches Some(p) && p@ == poll_path(base, job.id)
    &&& info.cancel_url matches Some(c) && c@ == cancel_path(base, job.id)
    &&& info.took_nanos == reported_took(job.took_nanos)
}

/// Whether `info` describes a job just queued under `id` for a service at `base`.
pub open spec fn describes_new(info: JobInfo, base: Seq<char>, id: u128) -> bool {
    &&& info.id@ == crate::ids::ulid_text(id)
    &&& info.status@ == crate::controller::status_text(Status::QUEUED)
    &&& info.cur_frame is None
    &&& info.max_frames is None
    &&& info.poll_url matches Some(p) && p@ == poll_path(base, id)
    &&& info.cancel_url matches Some(c) && c@ == cancel_path(base, id)
    &&& info.took_nanos is None
}

/// Whether `info` describes a job deleted under `id`.
pub open spec fn describes_deleted(info: JobInfo, id: u128) -> bool {
    &&& info.id@ == crate::ids::ulid_text(id)
    &&& info.status@ == crate::controller::status_text(Status::DELETED)
    &&& info.cur_frame is None
    &&& info.max_frames is None
    &&& info.poll_url is None
    &&& info.cancel_url is None
    &&& info.took_nanos is None
}

/// Whether `r` is a successful reply whose data `pred` accepts.
pub open spec fn ok_reply(r: ResponseJobInfo, pred: spec_fn(JobInfo) -> bool) -> bool {
    &&& r.status@ == crate::web::response::ok_text()
    &&& r.errors is None
    &&& r.data matches Some(info) && pred(info)
}

/// Whether the service went from `before` to `after` by queuing, under identifier `id`,
/// the job that `req` asks for, with `r` the successful reply and the job to hand to the
/// worker if one starts now.
pub open spec fn accepted(
    before: ControllerStatus,
    after: ControllerStatus,
    req: RecomposeJson,
    base: Seq<char>,
    r: Result<(ResponseJobInfo, Option<Job>), RequestError1>,
    id: u128,
) -> bool {
    let j = Job {
        id,
        video_url: source_location(req.video_url->0),
        dest_url: dest_location(req.dest_url->0),
        rule_url: source_location(req.rules_url->0),
        running: true,
        num_frames: None,
        cur_frame: 0,
        status: Status::QUEUED,
        took_nanos: 0,
    };
    let (q, run, s) = crate::controller::dispatched(before.queued().push(j), before.running());
    &&& r matches Ok((reply, sent))
    &&& sent == s
    &&& ok_reply(reply, |info: JobInfo| describes_new(info, base, id))
    &&& after.queued() == q
    &&& after.running() == run
}

/// The source location named by `url`.
fn source_location_of(url: String) -> (r: LocationType)
    ensures
        r == source_location(url),
{
    if starts_with_http(url.as_str()) {
        LocationType::HTTP_GET(url)
    } else {
        LocationType::File(url)
    }
}

/// The destination location named by `url`.
fn dest_location_of(url: String) -> (r: LocationType)
    ensures
        r == dest_location(url),
{
    if starts_with_http(url.as_str()) {
        LocationType::HTTP_POST(url)
    } else {
        LocationType::File(url)
    }
}

/// A validation failure with the one entry titled `title`.
fn missing(title: &str) -> (r: RequestError1)
    ensures
        single_validation::<()>(Err(r), title@),
{
    let mut v: Vec<ResponseErrorItem> = Vec::new();
    v.push(ResponseErrorItem::title_str(title));
    RequestError1::Validation(v)
}

/// The job a recompose request asks for: the video and the rules are read from, the
/// destination written to; each must be present, checked in the order video, destination,
/// rules.
pub fn recompose_job(req: RecomposeJson) -> (r: Result<Job, RequestError1>)
    ensures
        req.video_url is None ==> single_validation(r, "missing video_url"@),
        req.video_url is Some && req.dest_url is None ==> single_validation(r, "missing dest_url"@),
        req.video_url is Some && req.dest_url is Some && req.rules_url is None ==> single_validation(
            r,
            "missing rules_url"@,
        ),
        req.video_url is Some && req.dest_url is Some && req.rules_url is Some ==> r == Ok::<
            Job,
            RequestError1,
        >(
            Job {
                id: 0,
                video_url: source_location(req.video_url->0),
                dest_url: dest_location(req.dest_url->0),
                rule_url: source_location(req.rules_url->0),
                running: false,
                num_frames: None,
                cur_frame: 0,
                status: Status::QUEUED,
                took_nanos: 0,
            },
        ),
{
    let RecomposeJson { video_url, rules_url, dest_url } = req;
    let vid_url = match video_url {
        Some(u) => source_location_of(u),
        None => {
            let e = missing("missing video_url");
            return Err(e);
        },
    };
    let dest = match dest_url {
        Some(u) => dest_location_of(u),
        None => {
            let e = missing("missing dest_url");
            return Err(e);
        },
    };
    let rules = match rules_url {
        Some(u) => source_location_of(u),
        None => {
            let e = missing("missing rules_url");
            return Err(e);
        },
    };
    Ok(Job::new(vid_url, dest, rules))
}

/// The status page of job `id` under `base_url`.
fn poll_url_of(base_url: &str, id_text: &String, id: u128) -> (r: String)
    requires
        id_text@ == crate::ids::ulid_text(id),
    ensures
        r@ == poll_path(base_url@, id),
{
    proof {
        reveal_strlit("/job/");
    }
    String::from_str(base_url).concat("/job/").concat(id_text.as_str())
}

/// The cancel page of job `id` under `base_url`.
fn cancel_url_of(base_url: &str, id_text: &String, id: u128) -> (r: String)
    requires
        id_text@ == crate::ids::ulid_text(id),
    ensures
        r@ == cancel_path(base_url@, id),
{
    proof {
        reveal_strlit("/cancel");
    }
    poll_url_of(base_url, id_text, id).concat("/cancel")
}

/// What the service reports of a job just queued under `id`.
fn new_job_info(base_url: &str, id: u128) -> (r: JobInfo)
    ensures
        describes_new(r, base_url@, id),
{
    let id_text = ulid_to_string(id);
    let poll = poll_url_of(base_url, &id_text, id);
    let cancel = cancel_url_of(base_url, &id_text, id);
    JobInfo {
        id: id_text,
        status: Status::QUEUED.to_text(),
        cur_frame: None,
        max_frames: None,
        poll_url: Some(poll),
        cancel_url: Some(cancel),
        took_nanos: None,
    }
}

/// What the service reports of `job`.
pub fn mk_job_info(base_url: &str, job: &Job) -> (r: JobInfo)
    ensures
        describes(r, base_url@, *job),
{
    let id_text = ulid_to_string(job.id);
    let poll = poll_url_of(base_url, &id_text, job.id);
    let cancel = cancel_url_of(base_url, &id_text, job.id);
    let took = if job.took_nanos < 1_000_000 {
        None
    } else {
        Some(job.took_nanos)
    };
    JobInfo {
        id: id_text,
        status: job.status.to_text(),
        cur_frame: Some(job.cur_frame),
        max_frames: job.num_frames,
        poll_url: Some(poll),
        cancel_url: Some(cancel),
        took_nanos: took,
    }
}

/// Queues the job a recompose request asks for under identifier `id`. Succeeds when the
/// request names its three locations and the queue has room, with the reply describing the
/// new job and the job to hand to the worker if one starts now. A full queue is reported
/// as a missing rules location.
pub fn recompose_with_id(ctrl: &mut ControllerStatus, base_url: &str, req: RecomposeJson, id: u128) -> (r:
    Result<(ResponseJobInfo, Option<Job>), RequestError1>)
    requires
        old(ctrl).wf(),
    ensures
        final(ctrl).wf(),
        final(ctrl).max_queued() == old(ctrl).max_queued(),
        final(ctrl).strategy() == old(ctrl).strategy(),
        final(ctrl).completed() == old(ctrl).completed(),
        req.video_url is None ==> single_validation(r, "missing video_url"@),
        req.video_url is Some && req.dest_url is None ==> single_validation(r, "missing dest_url"@),
        req.video_url is Some && req.dest_url is Some && req.rules_url is None ==> single_validation(
            r,
            "missing rules_url"@,
        ),
        (req.video_url is None || req.dest_url is None || req.rules_url is None
            || old(ctrl).queued().len() >= old(ctrl).max_queued()) ==> final(ctrl).queued() == old(
            ctrl,
        ).queued() && final(ctrl).running() == old(ctrl).running(),
        req.video_url is Some && req.dest_url is Some && req.rules_url is Some && old(ctrl).queued().len()
            >= old(ctrl).max_queued() ==> single_validation(r, "missing rules_url"@),
        req.video_url is Some && req.dest_url is Some && req.rules_url is Some && old(ctrl).queued().len()
            < old(ctrl).max_queued() ==> accepted(*old(ctrl), *final(ctrl), req, base_url@, r, id),
{
    let job = match recompose_job(req) {
        Ok(j) => j,
        Err(e) => {
            return Err(e);
        },
    };
    match ctrl.create_job_with_id(job, id) {
        Ok(sent) => {
            let info = new_job_info(base_url, id);
            Ok((ResponseJobInfo::ok(info), sent))
        },
        Err(_) => {
            let e = missing("missing rules_url");
            Err(e)
        },
    }
}

/// Queues the job a recompose request asks for under a new identifier; see
/// `recompose_with_id`, which this is for some identifier.
pub fn recompose(ctrl: &mut ControllerStatus, base_url: &str, req: RecomposeJson) -> (r: Result<
    (ResponseJobInfo, Option<Job>),
    RequestError1,
>)
    requires
        old(ctrl).wf(),
    ensures
        final(ctrl).wf(),
        final(ctrl).max_queued() == old(ctrl).max_queued(),
        final(ctrl).strategy() == old(ctrl).strategy(),
        final(ctrl).completed() == old(ctrl).completed(),
        req.video_url is None ==> single_validation(r, "missing video_url"@),
        req.video_url is Some && req.dest_url is None ==> single_validation(r, "missing dest_url"@),
        req.video_url is Some && req.dest_url is Some && req.rules_url is None ==> single_validation(
            r,
            "missing rules_url"@,
        ),
        (req.video_url is None || req.dest_url is None || req.rules_url is None
            || old(ctrl).queued().len() >= old(ctrl).max_queued()) ==> final(ctrl).queued() == old(
            ctrl,
        ).queued() && final(ctrl).running() == old(ctrl).running(),
        req.video_url is Some && req.dest_url is Some && req.rules_url is Some && old(ctrl).queued().len()
            >= old(ctrl).max_queued() ==> single_validation(r, "missing rules_url"@),
        req.video_url is Some && req.dest_url is Some && req.rules_url is Some && old(ctrl).queued().len()
            < old(ctrl).max_queued() ==> exists|id: u128| #[trigger]
            accepted(*old(ctrl), *final(ctrl), req, base_url@, r, id),
{
    let id = new_ulid();
    let ghost before = *ctrl;
    let ghost rq = req;
    let r = recompose_with_id(ctrl, base_url, req, id);
    proof {
        if rq.video_url is Some && rq.dest_url is Some && rq.rules_url is Some && before.queued().len()
            < before.max_queued() {
            assert(accepted(before, *ctrl, rq, base_url@, r, id));
        }
    }
    r
}

/// Lists the jobs, each described for a service at `base_url`: the running one, then the
/// waiting ones in order, then, with `all`, the finished ones.
fn job_list_inner(all: bool, ctrl: &ControllerStatus, base_url: &str) -> (r: Result<
    ResponseJobList,
    RequestError1,
>)
    requires
        ctrl.wf(),
    ensures
        r matches Ok(l) && l.status@ == crate::web::response::ok_text() && l.errors is None && (
        l.data matches Some(infos) && exists|jobs: Seq<Job>|
            {
                &&& ctrl.is_listing(all, jobs)
                &&& infos@.len() == jobs.len()
                &&& forall|i: int| 0 <= i < jobs.len() ==> describes(#[trigger] infos@[i], base_url@, jobs[i])
            }),
{
    match ctrl.get_job_list(all) {
        Ok(jobs) => {
            let mut out: Vec<JobInfo> = Vec::new();
            let n = jobs.len();
            let mut i: usize = 0;
            while i < n
                invariant
                    n == jobs@.len(),
                    i <= n,
                    out@.len() == i,
                    forall|k: int| 0 <= k < i ==> describes(#[trigger] out@[k], base_url@, jobs@[k]),
                decreases n - i,
            {
                let info = mk_job_info(base_url, &jobs[i]);
                out.push(info);
                i = i + 1;
            }
            proof {
                assert(ctrl.is_listing(all, jobs@));
            }
            Ok(ResponseJobList { data: Some(out), errors: None, status: String::from_str("Ok") })
        },
        Err(_e) => Err(RequestError1::sys_str("Couldn't find job listing")),
    }
}

/// Lists every job, the finished ones included.
pub fn job_list_all(ctrl: &ControllerStatus, base_url: &str) -> (r: Result<ResponseJobList, RequestError1>)
    requires
        ctrl.wf(),
    ensures
        r matches Ok(l) && l.status@ == crate::web::response::ok_text() && l.errors is None && (
        l.data matches Some(infos) && exists|jobs: Seq<Job>|
            {
                &&& ctrl.is_listing(true, jobs)
                &&& infos@.len() == jobs.len()
                &&& forall|i: int| 0 <= i < jobs.len() ==> describes(#[trigger] infos@[i], base_url@, jobs[i])
            }),
{
    job_list_inner(true, ctrl, base_url)
}

/// Lists the running and the waiting jobs.
pub fn job_list(ctrl: &ControllerStatus, base_url: &str) -> (r: Result<ResponseJobList, RequestError1>)
    requires
        ctrl.wf(),
    ensures
        r matches Ok(l) && l.status@ == crate::web::response::ok_text() && l.errors is None && (
        l.data matches Some(infos) && exists|jobs: Seq<Job>|
            {
                &&& ctrl.is_listing(false, jobs)
                &&& infos@.len() == jobs.len()
                &&& forall|i: int| 0 <= i < jobs.len() ==> describes(#[trigger] infos@[i], base_url@, jobs[i])
            }),
{
    job_list_inner(false, ctrl, base_url)
}

/// Whether `r` is the failure for an identifier that is not identifier text.
pub open spec fn bad_id<T>(r: Result<T, RequestError1>) -> bool {
    r matches Err(RequestError1::MissingSourceResource(e)) && only_title(e, "id"@)
}

/// Whether `r` is the failure for an identifier that names no job.
pub open spec fn unknown_job<T>(r: Result<T, RequestError1>) -> bool {
    r matches Err(RequestError1::JobNotFound(e)) && only_title(e, "Job ID Not Found"@)
}

/// The status of the job that `id` names, described for a service at `base_url`.
pub fn job_status(ctrl: &ControllerStatus, base_url: &str, id: &str) -> (r: Result<ResponseJobInfo, RequestError1>)
    requires
        ctrl.wf(),
    ensures
        !crate::ids::is_ulid_text(id@) ==> bad_id(r),
        crate::ids::is_ulid_text(id@) ==> match ctrl.lookup(crate::ids::ulid_value(id@) as u128) {
            Some(job) => r matches Ok(reply) && ok_reply(reply, |info: JobInfo| describes(info, base_url@, job)),
            None => unknown_job(r),
        },
{
    let job_id = match ulid_from_string(id) {
        Some(v) => v,
        None => {
            return Err(RequestError1::MissingSourceResource(ResponseErrorItem::title(String::from_str("id"))));
        },
    };
    match ctrl.get_job_status(job_id) {
        Ok(job) => {
            let info = mk_job_info(base_url, &job);
            Ok(ResponseJobInfo::ok(info))
        },
        Err(e) => Err(RequestError1::JobNotFound(ResponseErrorItem::title(e.message()))),
    }
}

/// Cancels the job that `id` names. While a job runs, it is the one asked to stop, whatever
/// `id` names, and its identifier comes back beside the reply; otherwise the first waiting
/// job with that identifier is removed. The reply reports `id` as deleted.
pub fn job_cancel(ctrl: &mut ControllerStatus, id: &str) -> (r: Result<(ResponseJobInfo, Option<u128>), RequestError1>)
    requires
        old(ctrl).wf(),
    ensures
        final(ctrl).wf(),
        final(ctrl).max_queued() == old(ctrl).max_queued(),
        final(ctrl).strategy() == old(ctrl).strategy(),
        final(ctrl).completed() == old(ctrl).completed(),
        !crate::ids::is_ulid_text(id@) ==> bad_id(r) && final(ctrl).queued() == old(ctrl).queued()
            && final(ctrl).running() == old(ctrl).running(),
        crate::ids::is_ulid_text(id@) ==> {
            let v = crate::ids::ulid_value(id@) as u128;
            match old(ctrl).running() {
                Some(j) => {
                    &&& r matches Ok((reply, stopped))
                    &&& stopped == Some(j.id)
                    &&& ok_reply(reply, |info: JobInfo| describes_deleted(info, v))
                    &&& final(ctrl).running() == Some(Job { running: false, ..j })
                    &&& final(ctrl).queued() == old(ctrl).queued()
                },
                None => {
                    &&& final(ctrl).running() is None
                    &&& match crate::controller::find_job(old(ctrl).queued(), v) {
                        Some(i) => {
                            &&& r matches Ok((reply, stopped))
                            &&& stopped is None
                            &&& ok_reply(reply, |info: JobInfo| describes_deleted(info, v))
                            &&& final(ctrl).queued() == old(ctrl).queued().remove(i)
                        },
                        None => unknown_job(r) && final(ctrl).queued() == old(ctrl).queued(),
                    }
                },
            }
        },
{
    let job_id = match ulid_from_string(id) {
        Some(v) => v,
        None => {
            return Err(RequestError1::MissingSourceResource(ResponseErrorItem::title(String::from_str("id"))));
        },
    };
    match ctrl.cancel_job(job_id) {
        Ok(stopped) => {
            let info = JobInfo {
                id: ulid_to_string(job_id),
                status: Status::DELETED.to_text(),
                cur_frame: None,
                max_frames: None,
                poll_url: None,
                cancel_url: None,
                took_nanos: None,
            };
            Ok((ResponseJobInfo::ok(info), stopped))
        },
        Err(e) => Err(RequestError1::JobNotFound(ResponseErrorItem::title(e.message()))),
    }
}


/// A job reads from a web location, and uploads to one, exactly when the text given for it
/// begins with "http" (so "https" locations too); any other text names a file.
pub proof fn lemma_locations_by_scheme(url: String)
    ensures
        (url@.len() >= 4 && url@[0] == 'h' && url@[1] == 't' && url@[2] == 't' && url@[3] == 'p') ==> {
            &&& source_location(url) == LocationType::HTTP_GET(url)
            &&& dest_location(url) == LocationType::HTTP_POST(url)
        },
        !(url@.len() >= 4 && url@[0] == 'h' && url@[1] == 't' && url@[2] == 't' && url@[3] == 'p') ==> {
            &&& source_location(url) == LocationType::File(url)
            &&& dest_location(url) == LocationType::File(url)
        },
{
    let p = crate::data::http_text();
    if url@.len() >= 4 && url@[0] == 'h' && url@[1] == 't' && url@[2] == 't' && url@[3] == 'p' {
        assert(url@.subrange(0, 4) =~= p);
    } else if crate::data::has_prefix(url@, p) {
        assert(url@.subrange(0, 4)[0] == url@[0]);
        assert(url@.subrange(0, 4)[1] == url@[1]);
        assert(url@.subrange(0, 4)[2] == url@[2]);
        assert(url@.subrange(0, 4)[3] == url@[3]);
    }
}

} // verus!
