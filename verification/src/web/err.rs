use vstd::prelude::*;

use crate::web::response::Response1;

verus! {

/// One entry of the error list of a reply.
#[derive(Debug, Clone, PartialEq, Eq)]
pub struct ResponseErrorItem {
    pub status: Option<String>,
    pub detail: Option<String>,
    pub source: Option<String>,
    pub title: Option<String>,
}

impl Default for ResponseErrorItem {
    fn default() -> (r: Self)
        ensures
            r == (ResponseErrorItem { status: None, detail: None, source: None, title: None }),
    {
        ResponseErrorItem { status: None, detail: None, source: None, title: None }
    }
}

/// An error entry with only a title.
pub open spec fn titled(title: String) -> ResponseErrorItem {
    ResponseErrorItem { status: None, detail: None, source: None, title: Some(title) }
}

/// An error entry with a title and the location of the offending input.
pub open spec fn titled_source(title: String, source: String) -> ResponseErrorItem {
    ResponseErrorItem { status: None, detail: None, source: Some(source), title: Some(title) }
}

impl ResponseErrorItem {
    /// An entry with only a title.
    pub fn title_cow(title: String) -> (r: Self)
        ensures
            r == titled(title),
    {
        ResponseErrorItem { title: Some(title), ..Default::default() }
    }

    /// An entry with only a title, given as text.
    pub fn title_str(title: &str) -> (r: Self)
        ensures
            r.title matches Some(t) && t@ == title@,
            r.status is None && r.detail is None && r.source is None,
    {
        ResponseErrorItem { title: Some(String::from_str(title)), ..Default::default() }
    }

    /// An entry with only a title.
    pub fn title(title: String) -> (r: Self)
        ensures
            r == titled(title),
    {
        ResponseErrorItem { title: Some(title), ..Default::default() }
    }

    /// An entry with a title and the location of the offending input.
    pub fn title_source(title: String, source: String) -> (r: Self)
        ensures
            r == titled_source(title, source),
    {
        ResponseErrorItem { title: Some(title), source: Some(source), ..Default::default() }
    }

    /// An entry with a title and the location of the offending input, given as text.
    pub fn title_source_str(title: &str, source: &str) -> (r: Self)
        ensures
            r.title matches Some(t) && t@ == title@,
            r.source matches Some(s) && s@ == source@,
            r.status is None && r.detail is None,
    {
        ResponseErrorItem {
            title: Some(String::from_str(title)),
            source: Some(String::from_str(source)),
            ..Default::default()
        }
    }
}

/// The ways a request fails.
#[derive(Debug)]
pub enum RequestError1 {
    /// The request is malformed; one entry per problem.
    Validation(Vec<ResponseErrorItem>),
    /// A resource the request names is missing.
    MissingSourceResource(ResponseErrorItem),
    /// No job has the identifier the request names.
    JobNotFound(ResponseErrorItem),
    /// An unexpected failure of the service.
    SystemError(String),
}

/// HTTP status codes of error replies.
pub const UNPROCESSABLE_ENTITY: u16 = 422;
pub const BAD_REQUEST: u16 = 400;
pub const INTERNAL_SERVER_ERROR: u16 = 500;

impl RequestError1 {
    /// A service failure with a message given as text.
    pub fn sys_str(msg: &str) -> (r: Self)
        ensures
            r matches RequestError1::SystemError(m) && m@ == msg@,
    {
        RequestError1::SystemError(String::from_str(msg))
    }

    /// A service failure with a message.
    pub fn sys(msg: String) -> (r: Self)
        ensures
            r == RequestError1::SystemError(msg),
    {
        RequestError1::SystemError(msg)
    }

    /// The HTTP status and the body of the reply for this error: malformed requests and
    /// missing resources are 422, unknown jobs 400, service failures 500 with the message as
    /// the title of the one error entry.
    pub fn response_parts(self) -> (r: (u16, Response1))
        ensures
            r.1.status@ == crate::web::response::error_text(),
            r.1.data is None,
            match self {
                RequestError1::Validation(v) => r.0 == UNPROCESSABLE_ENTITY && r.1.errors == Some(v),
                RequestError1::MissingSourceResource(e) => r.0 == UNPROCESSABLE_ENTITY
                    && (r.1.errors matches Some(v) && v@ == seq![e]),
                RequestError1::SystemError(m) => r.0 == INTERNAL_SERVER_ERROR
                    && (r.1.errors matches Some(v) && v@ == seq![titled(m)]),
                RequestError1::JobNotFound(e) => r.0 == BAD_REQUEST
                    && (r.1.errors matches Some(v) && v@ == seq![e]),
            },
    {
        match self {
            RequestError1::Validation(v) => (UNPROCESSABLE_ENTITY, Response1::errs(v)),
            RequestError1::MissingSourceResource(v) => (UNPROCESSABLE_ENTITY, Response1::err(v)),
            RequestError1::SystemError(v) => {
                let e = ResponseErrorItem::title_cow(v);
                (INTERNAL_SERVER_ERROR, Response1::err(e))
            },
            RequestError1::JobNotFound(v) => (BAD_REQUEST, Response1::err(v)),
        }
    }
}

} // verus!
