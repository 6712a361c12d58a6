//! Replies: a status, headers, and a body.

use crate::listing::{info_views, FileInfo, FileInfoView};
use vstd::prelude::*;

verus! {

pub const OK: u16 = 200;

pub const PARTIAL_CONTENT: u16 = 206;

pub const BAD_REQUEST: u16 = 400;

pub const FORBIDDEN: u16 = 403;

pub const NOT_FOUND: u16 = 404;

pub const INTERNAL_SERVER_ERROR: u16 = 500;

pub struct Header {
    pub name: String,
    pub value: String,
}

impl View for Header {
    type V = (Seq<char>, Seq<char>);

    open spec fn view(&self) -> (Seq<char>, Seq<char>) {
        (self.name@, self.value@)
    }
}

pub open spec fn header_views(v: Seq<Header>) -> Seq<(Seq<char>, Seq<char>)> {
    Seq::new(v.len(), |i: int| v[i]@)
}

/// What a reply carries.
pub enum Body {
    /// Plain text.
    Text(String),
    /// A message, sent as a JSON string.
    Json(String),
    /// A listing, sent as a JSON array.
    Listing(Vec<FileInfo>),
    /// The number of files that an upload stored, sent as the JSON object
    /// `{"uploaded": N}`.
    Uploaded(u64),
    /// Bytes, sent as they are.
    Bytes(Vec<u8>),
}

pub enum BodyView {
    Text(Seq<char>),
    Json(Seq<char>),
    Listing(Seq<FileInfoView>),
    Uploaded(u64),
    Bytes(Seq<u8>),
}

impl View for Body {
    type V = BodyView;

    open spec fn view(&self) -> BodyView {
        match self {
            Body::Text(text) => BodyView::Text(text@),
            Body::Json(text) => BodyView::Json(text@),
            Body::Listing(files) => BodyView::Listing(info_views(files@)),
            Body::Uploaded(n) => BodyView::Uploaded(*n),
            Body::Bytes(bytes) => BodyView::Bytes(bytes@),
        }
    }
}

pub struct Reply {
    pub status: u16,
    pub headers: Vec<Header>,
    pub body: Body,
}

pub struct ReplyView {
    pub status: u16,
    pub headers: Seq<(Seq<char>, Seq<char>)>,
    pub body: BodyView,
}

impl View for Reply {
    type V = ReplyView;

    open spec fn view(&self) -> ReplyView {
        ReplyView { status: self.status, headers: header_views(self.headers@), body: self.body@ }
    }
}

/// A reply of plain text without headers of its own.
pub open spec fn text_reply(status: u16, message: Seq<char>) -> ReplyView {
    ReplyView { status, headers: Seq::empty(), body: BodyView::Text(message) }
}

/// A reply of one JSON string without headers of its own.
pub open spec fn json_reply(status: u16, message: Seq<char>) -> ReplyView {
    ReplyView { status, headers: Seq::empty(), body: BodyView::Json(message) }
}

impl Reply {
    pub fn text(status: u16, message: &str) -> (r: Reply)
        ensures
            r@ == text_reply(status, message@),
    {
        let r = Reply { status, headers: Vec::new(), body: Body::Text(message.to_owned()) };
        assert(header_views(r.headers@) == Seq::<(Seq<char>, Seq<char>)>::empty());
        r
    }

    pub fn json(status: u16, message: &str) -> (r: Reply)
        ensures
            r@ == json_reply(status, message@),
    {
        let r = Reply { status, headers: Vec::new(), body: Body::Json(message.to_owned()) };
        assert(header_views(r.headers@) == Seq::<(Seq<char>, Seq<char>)>::empty());
        r
    }

    /// Adds a header behind those that the reply has.
    pub fn with_header(self, name: &str, value: String) -> (r: Reply)
        ensures
            r@ == (ReplyView { headers: self@.headers.push((name@, value@)), ..self@ }),
    {
        let mut headers = self.headers;
        let ghost before = headers@;
        headers.push(Header { name: name.to_owned(), value });
        assert(header_views(headers@) == header_views(before).push((name@, value@)));
        Reply { status: self.status, headers, body: self.body }
    }
}

} // verus!
