//! The response model: the closed set of response-body variants and their
//! serialization into complete HTTP/1.1 replies.
//!
//! A matched route always yields a `200 OK` reply carrying a
//! `Content-Type` header chosen by the body's variant; the not-found reply
//! uses the `404 NOT FOUND` status line and deliberately carries no
//! `Content-Type` header.  `Content-Length` is always the exact byte length
//! (not character length) of the body that follows the blank line.

use crate::decimal::dec_rep;
use vstd::prelude::*;
use vstd::utf8::encode_utf8;

verus! {

/// The mathematical model of a response body: its text and its variant.
pub enum BodyView {
    Plain(Seq<char>),
    Html(Seq<char>),
}

/// A response body a handler can produce: plain text or an HTML document.
/// The variant decides the `Content-Type` header of the serialized reply.
pub enum ResponseBody {
    PlainText(String),
    Html(String),
}

impl View for ResponseBody {
    type V = BodyView;

    open spec fn view(&self) -> BodyView {
        match self {
            ResponseBody::PlainText(s) => BodyView::Plain(s@),
            ResponseBody::Html(s) => BodyView::Html(s@),
        }
    }
}

/// The text a body carries, independent of its variant.
pub open spec fn body_text(b: BodyView) -> Seq<char> {
    match b {
        BodyView::Plain(t) => t,
        BodyView::Html(t) => t,
    }
}

/// The `Content-Type` value a variant serializes with.
pub open spec fn body_content_type(b: BodyView) -> Seq<char> {
    match b {
        BodyView::Plain(_) => "text/plain; charset=utf-8"@,
        BodyView::Html(_) => "text/html; charset=utf-8"@,
    }
}

/// The byte length of `text` in its UTF-8 encoding, the value of the
/// `Content-Length` header.
pub open spec fn byte_len(text: Seq<char>) -> nat {
    encode_utf8(text).len()
}

/// The complete `200 OK` reply for the body `b`, byte for byte.
pub open spec fn ok_chars(b: BodyView) -> Seq<char> {
    "HTTP/1.1 200 OK\r\nContent-Length: "@ + dec_rep(byte_len(body_text(b)))
        + "\r\nContent-Type: "@ + body_content_type(b) + "\r\n\r\n"@ + body_text(b)
}

/// The complete `404 NOT FOUND` reply carrying `body`, byte for byte.
/// It has no `Content-Type` header: only the status line, the
/// `Content-Length` header, a blank line and the body.
pub open spec fn not_found_chars(body: Seq<char>) -> Seq<char> {
    "HTTP/1.1 404 NOT FOUND\r\nContent-Length: "@ + dec_rep(byte_len(body)) + "\r\n\r\n"@ + body
}

impl ResponseBody {
    /// Serializes the body into the complete `200 OK` reply.
    pub fn serialize(&self) -> (r: String)
        ensures
            r@ == ok_chars(self@),
    {
        let text: &String = match self {
            ResponseBody::PlainText(s) => s,
            ResponseBody::Html(s) => s,
        };
        let mut r = String::from_str("HTTP/1.1 200 OK\r\nContent-Length: ");
        let len_str = crate::decimal::usize_to_string(text.as_str().as_bytes().len());
        r.append(len_str.as_str());
        r.append("\r\nContent-Type: ");
        match self {
            ResponseBody::PlainText(_) => r.append("text/plain; charset=utf-8"),
            ResponseBody::Html(_) => r.append("text/html; charset=utf-8"),
        }
        r.append("\r\n\r\n");
        r.append(text.as_str());
        proof {
            assert(r@ =~= ok_chars(self@));
        }
        r
    }
}

/// Serializes the not-found reply around the given body text.
pub fn not_found_response(body: &str) -> (r: String)
    ensures
        r@ == not_found_chars(body@),
{
    let mut r = String::from_str("HTTP/1.1 404 NOT FOUND\r\nContent-Length: ");
    let len_str = crate::decimal::usize_to_string(body.as_bytes().len());
    r.append(len_str.as_str());
    r.append("\r\n\r\n");
    r.append(body);
    proof {
        assert(r@ =~= not_found_chars(body@));
    }
    r
}

/// An HTML document, serialized with content type `text/html; charset=utf-8`.
pub struct HTMLResponse(String);

impl HTMLResponse {
    /// Wraps `s` as an HTML response body.
    pub fn new(s: String) -> (r: HTMLResponse)
        ensures
            r.spec_body() == BodyView::Html(s@),
    {
        HTMLResponse(s)
    }
}

/// The capability of being a response body: anything a handler returns.
///
/// The set of implementors is closed over plain text (`String` and `&str`)
/// and HTML documents (`HTMLResponse`); a new content type means a new
/// implementor together with its serialization rule.
pub trait IntoResponse: Sized {
    /// The model of the body this value stands for.
    spec fn spec_body(&self) -> BodyView;

    /// Turns the value into the body variant it stands for.
    fn into_body(self) -> (b: ResponseBody)
        ensures
            b@ == self.spec_body(),
    ;

    /// Serializes the value into its complete `200 OK` reply.
    fn into_response(self) -> (r: String)
        ensures
            r@ == ok_chars(self.spec_body()),
    ;
}

impl IntoResponse for String {
    open spec fn spec_body(&self) -> BodyView {
        BodyView::Plain(self@)
    }

    fn into_body(self) -> (b: ResponseBody) {
        ResponseBody::PlainText(self)
    }

    fn into_response(self) -> (r: String) {
        ResponseBody::PlainText(self).serialize()
    }
}

impl IntoResponse for HTMLResponse {
    closed spec fn spec_body(&self) -> BodyView {
        BodyView::Html(self.0@)
    }

    fn into_body(self) -> (b: ResponseBody) {
        ResponseBody::Html(self.0)
    }

    fn into_response(self) -> (r: String) {
        ResponseBody::Html(self.0).serialize()
    }
}

impl<'a> IntoResponse for &'a str {
    open spec fn spec_body(&self) -> BodyView {
        BodyView::Plain(self@)
    }

    fn into_body(self) -> (b: ResponseBody) {
        ResponseBody::PlainText(self.to_owned())
    }

    fn into_response(self) -> (r: String) {
        ResponseBody::PlainText(self.to_owned()).serialize()
    }
}

} // verus!
