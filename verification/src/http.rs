//! Requests to the sign-in and catalog services, and what comes back.

use vstd::prelude::*;
use crate::json::{json_parse_bytes, opt_view, Json, JsonView};

verus! {

/// The body of a request.
#[derive(Debug)]
pub enum Payload {
    Empty,
    /// Sent as a form.
    Form(Vec<(String, String)>),
    /// Sent as JSON.
    Json(Json),
}

/// What a `Payload` holds.
#[verifier::ext_equal]
pub enum PayloadView {
    Empty,
    Form(Seq<(Seq<char>, Seq<char>)>),
    Json(JsonView),
}

impl View for Payload {
    type V = PayloadView;

    open spec fn view(&self) -> PayloadView {
        match self {
            Payload::Empty => PayloadView::Empty,
            Payload::Form(fields) => PayloadView::Form(fields.deep_view()),
            Payload::Json(value) => PayloadView::Json(value.view()),
        }
    }
}

/// A request to a pinned host: a `GET` where the payload is empty, a `POST` otherwise. It is
/// sent by a client that follows no redirect.
#[derive(Debug)]
pub struct PinnedRequest {
    pub url: String,
    pub headers: Vec<(String, String)>,
    pub payload: Payload,
    pub timeout_secs: u64,
}

/// What a `PinnedRequest` holds.
#[verifier::ext_equal]
pub struct RequestView {
    pub url: Seq<char>,
    pub headers: Seq<(Seq<char>, Seq<char>)>,
    pub payload: PayloadView,
    pub timeout_secs: u64,
}

impl View for PinnedRequest {
    type V = RequestView;

    open spec fn view(&self) -> RequestView {
        RequestView {
            url: self.url@,
            headers: self.headers.deep_view(),
            payload: self.payload@,
            timeout_secs: self.timeout_secs,
        }
    }
}

/// What came back for a request.
#[derive(Debug)]
pub enum HttpReply {
    /// Nothing: the request could not be sent, or no answer arrived.
    Unreachable,
    /// An answer; its body, where it could be read.
    Answered { status: u16, body: Option<Vec<u8>> },
}

/// What an `HttpReply` holds, its body read as JSON.
#[verifier::ext_equal]
pub enum ReplyView {
    Unreachable,
    Answered { status: u16, body: Option<JsonView> },
}

impl View for HttpReply {
    type V = ReplyView;

    open spec fn view(&self) -> ReplyView {
        match self {
            HttpReply::Unreachable => ReplyView::Unreachable,
            HttpReply::Answered { status, body } => ReplyView::Answered {
                status: *status,
                body: match body {
                    Some(bytes) => json_parse_bytes(bytes@),
                    None => None,
                },
            },
        }
    }
}

/// What came back for a request, its body read as JSON.
#[derive(Debug)]
pub enum JsonReply {
    Unreachable,
    Answered { status: u16, body: Option<Json> },
}

impl View for JsonReply {
    type V = ReplyView;

    open spec fn view(&self) -> ReplyView {
        match self {
            JsonReply::Unreachable => ReplyView::Unreachable,
            JsonReply::Answered { status, body } => ReplyView::Answered {
                status: *status,
                body: opt_view(*body),
            },
        }
    }
}

impl HttpReply {
    /// Reads the body as JSON.
    pub fn read(&self) -> (r: JsonReply)
        ensures
            r@ == self@,
    {
        match self {
            HttpReply::Unreachable => JsonReply::Unreachable,
            HttpReply::Answered { status, body } => JsonReply::Answered {
                status: *status,
                body: match body {
                    Some(bytes) => Json::parse_bytes(bytes),
                    None => None,
                },
            },
        }
    }
}

/// Whether a status tells of success.
pub open spec fn is_success(status: u16) -> bool {
    200 <= status <= 299
}

/// Whether a status tells of a redirect.
pub open spec fn is_redirect(status: u16) -> bool {
    300 <= status <= 399
}

/// Whether a status blames the request.
pub open spec fn is_client_error(status: u16) -> bool {
    400 <= status <= 499
}

/// Whether a status tells of success.
pub fn success(status: u16) -> (r: bool)
    ensures
        r == is_success(status),
{
    200 <= status && status <= 299
}

/// Whether a status tells of a redirect.
pub fn redirect(status: u16) -> (r: bool)
    ensures
        r == is_redirect(status),
{
    300 <= status && status <= 399
}

/// Whether a status blames the request.
pub fn client_error(status: u16) -> (r: bool)
    ensures
        r == is_client_error(status),
{
    400 <= status && status <= 499
}

/// A name and a value: a header, or a field of a form.
pub fn pair(name: &str, value: &str) -> (r: (String, String))
    ensures
        r.deep_view() == (name@, value@),
{
    (name.to_owned(), value.to_owned())
}

/// Adds a header or a field.
pub fn push_pair(pairs: &mut Vec<(String, String)>, name: &str, value: &str)
    ensures
        final(pairs).deep_view() == old(pairs).deep_view().push((name@, value@)),
{
    let ghost before = pairs.deep_view();
    pairs.push(pair(name, value));
    proof {
        assert(pairs.deep_view() =~= before.push((name@, value@)));
    }
}

/// No headers, or no fields.
pub fn no_pairs() -> (r: Vec<(String, String)>)
    ensures
        r.deep_view() == Seq::<(Seq<char>, Seq<char>)>::empty(),
{
    let pairs: Vec<(String, String)> = Vec::new();
    proof {
        assert(pairs.deep_view() =~= Seq::<(Seq<char>, Seq<char>)>::empty());
    }
    pairs
}

} // verus!
