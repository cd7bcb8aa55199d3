use vstd::prelude::*;

use crate::web::err::{RequestError1, ResponseErrorItem};

verus! {

/// The URL type of reqwest (`url::Url`), carried through as an opaque value.
#[verifier::external_type_specification]
#[verifier::external_body]
pub struct ExUrl(reqwest::Url);

/// Whether `text` parses as an absolute URL.
pub uninterp spec fn url_parses(text: Seq<char>) -> bool;

/// The serialization of the URL that `text` parses as.
pub uninterp spec fn url_text(text: Seq<char>) -> Seq<char>;

/// A parsed URL together with its serialization.
pub struct ParsedUrl {
    url: reqwest::Url,
    text: String,
}

impl View for ParsedUrl {
    type V = Seq<char>;

    /// The URL's serialization. The parsed value itself is opaque to the proofs; the only
    /// function that builds a `ParsedUrl` pairs it with its own serialization.
    closed spec fn view(&self) -> Seq<char> {
        self.text@
    }
}

impl ParsedUrl {
    /// The URL's serialization.
    pub fn as_str(&self) -> (r: &str)
        ensures
            r@ == self@,
    {
        self.text.as_str()
    }

    /// The parsed URL itself.
    pub fn url(&self) -> &reqwest::Url {
        &self.url
    }
}

/// Parses `text` as an absolute URL (`reqwest::Url::parse`, that is `url::Url::parse`) and
/// keeps the parsed value with its serialization (`Url::as_str`). The contract states when
/// parsing succeeds, over the name `url_parses`, and that the serialization kept is the one
/// of `text`, over the name `url_text`; the parse error, which no caller reads, is dropped.
#[verifier::external_body]
fn parse_url(text: &str) -> (r: Option<ParsedUrl>)
    ensures
        r is Some <==> url_parses(text@),
        r matches Some(u) ==> u@ == url_text(text@),
{
    match reqwest::Url::parse(text) {
        Ok(url) => {
            let text = String::from(url.as_str());
            Some(ParsedUrl { url, text })
        },
        Err(_) => None,
    }
}

/// The body of a recompose request, as it arrives.
#[derive(Debug, Clone)]
pub struct RecomposeJson {
    pub video_url: Option<String>,
    pub rules_url: Option<String>,
    pub dest_url: Option<String>,
}

/// A recompose request whose three locations are valid URLs.
pub struct RecomposeApi {
    pub video_url: ParsedUrl,
    pub rules_url: ParsedUrl,
    pub dest_url: ParsedUrl,
}

/// Whether `e` is the entry with only the title `title` and the source `source`.
pub open spec fn entry_is(e: ResponseErrorItem, title: Seq<char>, source: Seq<char>) -> bool {
    &&& e.status is None
    &&& e.detail is None
    &&& e.title matches Some(t) && t@ == title
    &&& e.source matches Some(s) && s@ == source
}

/// The problem with one field, as (title, source), given whether it is present and whether
/// its text parses as a URL: missing, or not a URL, or none.
pub open spec fn problem_of(name: Seq<char>, present: bool, parses: bool) -> Seq<(Seq<char>, Seq<char>)> {
    if !present {
        seq![("missing field "@ + name, "/"@ + name)]
    } else if parses {
        Seq::empty()
    } else {
        seq![("field "@ + name + " is not a valid URI"@, "/"@ + name)]
    }
}

/// The problem with one field of a request, as (title, source): missing, or not a URL.
pub open spec fn field_problem(name: Seq<char>, value: Option<String>) -> Seq<(Seq<char>, Seq<char>)> {
    problem_of(name, value is Some, value is Some && url_parses(value->0@))
}

/// The problems of a request, field by field in the order video, rules, destination.
pub open spec fn request_problems(json: RecomposeJson) -> Seq<(Seq<char>, Seq<char>)> {
    field_problem("video_url"@, json.video_url) + field_problem("rules_url"@, json.rules_url)
        + field_problem("dest_url"@, json.dest_url)
}

/// Whether `v` lists exactly the problems `p`, in order.
pub open spec fn lists_problems(v: Seq<ResponseErrorItem>, p: Seq<(Seq<char>, Seq<char>)>) -> bool {
    v.len() == p.len() && forall|i: int| 0 <= i < v.len() ==> entry_is(#[trigger] v[i], p[i].0, p[i].1)
}

/// The error entry for one field, given whether it is present and whether its text parses
/// as a URL: a missing field, a field that is not a URL, or none.
pub fn problem_entry(field_name: &str, present: bool, parses: bool) -> (r: Option<ResponseErrorItem>)
    ensures
        r is None <==> problem_of(field_name@, present, parses).len() == 0,
        r matches Some(e) ==> problem_of(field_name@, present, parses).len() == 1 && entry_is(
            e,
            problem_of(field_name@, present, parses)[0].0,
            problem_of(field_name@, present, parses)[0].1,
        ),
{
    proof {
        reveal_strlit("field ");
        reveal_strlit(" is not a valid URI");
        reveal_strlit("/");
        reveal_strlit("missing field ");
    }
    if !present {
        let title = String::from_str("missing field ").concat(field_name);
        let source = String::from_str("/").concat(field_name);
        Some(ResponseErrorItem::title_source(title, source))
    } else if parses {
        None
    } else {
        let title = String::from_str("field ").concat(field_name).concat(" is not a valid URI");
        let source = String::from_str("/").concat(field_name);
        Some(ResponseErrorItem::title_source(title, source))
    }
}

/// Parses one field, recording its problem in `errors` if it has one.
fn extract_uri(field_name: &str, op_str: &Option<String>, errors: &mut Vec<ResponseErrorItem>) -> (r:
    Option<ParsedUrl>)
    ensures
        r is Some <==> field_problem(field_name@, *op_str).len() == 0,
        r matches Some(u) ==> op_str matches Some(t) && u@ == url_text(t@),
        lists_problems(
            final(errors)@.subrange(old(errors)@.len() as int, final(errors)@.len() as int),
            field_problem(field_name@, *op_str),
        ),
        final(errors)@.subrange(0, old(errors)@.len() as int) == old(errors)@,
        final(errors)@.len() >= old(errors)@.len(),
{
    let ghost before = errors@;
    let parsed = match op_str {
        Some(v) => parse_url(v.as_str()),
        None => None,
    };
    match problem_entry(field_name, op_str.is_some(), parsed.is_some()) {
        Some(e) => {
            errors.push(e);
            assert(errors@.subrange(0, before.len() as int) =~= before);
        },
        None => {
            assert(errors@.subrange(errors@.len() as int, errors@.len() as int) =~= Seq::<
                ResponseErrorItem,
            >::empty());
        },
    }
    parsed
}

impl RecomposeApi {
    /// Checks the three locations of a request: succeeds when each is present and a valid
    /// URL, each field then holding the URL parsed from the same field of the request, and
    /// otherwise fails with one entry per problem, in field order.
    pub fn try_from(json: RecomposeJson) -> (r: Result<RecomposeApi, RequestError1>)
        ensures
            r is Ok <==> request_problems(json).len() == 0,
            r matches Ok(api) ==> {
                &&& json.video_url matches Some(t) && api.video_url@ == url_text(t@)
                &&& json.rules_url matches Some(t) && api.rules_url@ == url_text(t@)
                &&& json.dest_url matches Some(t) && api.dest_url@ == url_text(t@)
            },
            r is Err ==> (r matches Err(RequestError1::Validation(v)) && lists_problems(
                v@,
                request_problems(json),
            )),
    {
        let mut err_reasons: Vec<ResponseErrorItem> = Vec::new();
        let ghost j = json;
        let video_url = extract_uri("video_url", &json.video_url, &mut err_reasons);
        let ghost e1 = err_reasons@;
        let rules_url = extract_uri("rules_url", &json.rules_url, &mut err_reasons);
        let ghost e2 = err_reasons@;
        let dest_url = extract_uri("dest_url", &json.dest_url, &mut err_reasons);
        proof {
            let p1 = field_problem("video_url"@, j.video_url);
            let p2 = field_problem("rules_url"@, j.rules_url);
            let p3 = field_problem("dest_url"@, j.dest_url);
            let e3 = err_reasons@;
            assert(e1 =~= e1.subrange(0, e1.len() as int));
            assert(e3.subrange(0, e1.len() as int) =~= e2.subrange(0, e1.len() as int));
            assert(lists_problems(e3, p1 + p2 + p3)) by {
                assert forall|i: int| 0 <= i < e3.len() implies entry_is(
                    #[trigger] e3[i],
                    (p1 + p2 + p3)[i].0,
                    (p1 + p2 + p3)[i].1,
                ) by {
                    if i < e1.len() {
                        assert(e3[i] == e2[i]);
                        assert(e1.subrange(0, e1.len() as int)[i] == e1[i]);
                    } else if i < e2.len() {
                        assert(e3[i] == e2[i]);
                        assert(e2.subrange(e1.len() as int, e2.len() as int)[i - e1.len()] == e2[i]);
                    } else {
                        assert(e3.subrange(e2.len() as int, e3.len() as int)[i - e2.len()] == e3[i]);
                    }
                }
            }
        }
        if err_reasons.len() == 0 {
            match (video_url, rules_url, dest_url) {
                (Some(video_url), Some(rules_url), Some(dest_url)) => Ok(
                    RecomposeApi { video_url, rules_url, dest_url },
                ),
                _ => Err(RequestError1::sys_str("internal assertion error")),
            }
        } else {
            Err(RequestError1::Validation(err_reasons))
        }
    }
}

} // verus!
