use vstd::prelude::*;

use crate::web::err::ResponseErrorItem;

verus! {

/// The text "Ok".
pub open spec fn ok_text() -> Seq<char> {
    "Ok"@
}

/// The text "Error".
pub open spec fn error_text() -> Seq<char> {
    "Error"@
}

/// What the service reports of a job.
#[derive(Debug, Clone, PartialEq, Eq)]
pub struct JobInfo {
    pub id: String,
    pub status: String,
    pub cur_frame: Option<u32>,
    pub max_frames: Option<u32>,
    pub poll_url: Option<String>,
    pub cancel_url: Option<String>,
    /// how long the job took, in nanoseconds
    pub took_nanos: Option<u128>,
}

/// A reply about one job.
#[derive(Debug)]
pub struct ResponseJobInfo {
    pub errors: Option<Vec<ResponseErrorItem>>,
    pub status: String,
    pub data: Option<JobInfo>,
}

/// A reply listing jobs.
#[derive(Debug)]
pub struct ResponseJobList {
    pub errors: Option<Vec<ResponseErrorItem>>,
    pub status: String,
    pub data: Option<Vec<JobInfo>>,
}

impl ResponseJobInfo {
    /// A successful reply about `job_info`.
    pub fn ok(job_info: JobInfo) -> (r: Self)
        ensures
            r.status@ == ok_text(),
            r.errors is None,
            r.data == Some(job_info),
    {
        ResponseJobInfo { status: String::from_str("Ok"), errors: None, data: Some(job_info) }
    }

    /// A failed reply with one error entry.
    pub fn err(reason: ResponseErrorItem) -> (r: Self)
        ensures
            r.status@ == error_text(),
            r.errors matches Some(v) && v@ == seq![reason],
            r.data is None,
    {
        let mut v: Vec<ResponseErrorItem> = Vec::new();
        v.push(reason);
        assert(v@ =~= seq![reason]);
        ResponseJobInfo { status: String::from_str("Error"), errors: Some(v), data: None }
    }

    /// A failed reply with the given error entries.
    pub fn errs(reason: Vec<ResponseErrorItem>) -> (r: Self)
        ensures
            r.status@ == error_text(),
            r.errors == Some(reason),
            r.data is None,
    {
        ResponseJobInfo { status: String::from_str("Error"), errors: Some(reason), data: None }
    }
}

/// A plain reply.
#[derive(Debug)]
pub struct Response1 {
    pub errors: Option<Vec<ResponseErrorItem>>,
    pub status: String,
    pub data: Option<Vec<String>>,
}

impl Response1 {
    /// A successful reply with no data.
    pub fn ok() -> (r: Self)
        ensures
            r.status@ == ok_text(),
            r.errors is None,
            r.data is None,
    {
        Response1 { status: String::from_str("Ok"), errors: None, data: None }
    }

    /// A failed reply with one error entry.
    pub fn err(reason: ResponseErrorItem) -> (r: Self)
        ensures
            r.status@ == error_text(),
            r.errors matches Some(v) && v@ == seq![reason],
            r.data is None,
    {
        let mut v: Vec<ResponseErrorItem> = Vec::new();
        v.push(reason);
        assert(v@ =~= seq![reason]);
        Response1 { status: String::from_str("Error"), errors: Some(v), data: None }
    }

    /// A failed reply with the given error entries.
    pub fn errs(reason: Vec<ResponseErrorItem>) -> (r: Self)
        ensures
            r.status@ == error_text(),
            r.errors == Some(reason),
            r.data is None,
    {
        Response1 { status: String::from_str("Error"), errors: Some(reason), data: None }
    }
}

} // verus!
