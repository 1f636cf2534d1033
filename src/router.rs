//! Dispatch of one request to the store or the page, and the reply.

use vstd::prelude::*;
use crate::encoding::{Encoding, QualityItem, negotiated};
use crate::message::{ChatMessage, Timestamp};
use crate::page::{HtmlResponseHandler, compacted, encode_step, served};
use crate::template::{base64_of, favicon_url, template, templated, views};
use crate::store::{MessageStore, since_id};
use vstd::utf8::encode_utf8;

verus! {

/// The request methods the relay tells apart.
#[derive(Clone, Copy, Debug, PartialEq, Eq, Structural)]
pub enum Method {
    /// Submits a message.
    Post,
    /// Fetches the page.
    Get,
    /// Polls for the messages after a cursor.
    Trace,
    /// Anything else.
    Other,
}

/// The statuses the relay answers with.
#[derive(Clone, Copy, Debug, PartialEq, Eq, Structural)]
pub enum Status {
    Success,
    Accepted,
    UnsupportedMediaType,
    UnprocessableEntity,
    ImATeapot,
    InsufficientStorage,
}

impl Status {
    pub open spec fn spec_code(self) -> u16 {
        match self {
            Status::Success => 200,
            Status::Accepted => 202,
            Status::UnsupportedMediaType => 415,
            Status::ImATeapot => 418,
            Status::UnprocessableEntity => 422,
            Status::InsufficientStorage => 507,
        }
    }

    /// The HTTP status code.
    pub fn code(&self) -> (r: u16)
        ensures
            r == self.spec_code(),
    {
        match self {
            Status::Success => 200,
            Status::Accepted => 202,
            Status::UnsupportedMediaType => 415,
            Status::ImATeapot => 418,
            Status::UnprocessableEntity => 422,
            Status::InsufficientStorage => 507,
        }
    }
}

/// Where a request goes, once its method and body are known.
#[derive(Clone, Copy, Debug, PartialEq, Eq, Structural)]
pub enum Route {
    Submit,
    Page,
    Poll,
    Reject(Status),
}

/// The method decides: an unknown one is refused as a teapot and the page
/// is served whatever the body. A body that is not UTF-8 makes a submission
/// an unsupported media type and a poll an unreadable cursor.
pub open spec fn spec_route(method: Method, body_is_text: bool) -> Route {
    match method {
        Method::Other => Route::Reject(Status::ImATeapot),
        Method::Get => Route::Page,
        Method::Post => if body_is_text {
            Route::Submit
        } else {
            Route::Reject(Status::UnsupportedMediaType)
        },
        Method::Trace => if body_is_text {
            Route::Poll
        } else {
            Route::Reject(Status::UnprocessableEntity)
        },
    }
}

pub fn route(method: Method, body_is_text: bool) -> (r: Route)
    ensures
        r == spec_route(method, body_is_text),
{
    match method {
        Method::Other => Route::Reject(Status::ImATeapot),
        Method::Get => Route::Page,
        Method::Post => if body_is_text {
            Route::Submit
        } else {
            Route::Reject(Status::UnsupportedMediaType)
        },
        Method::Trace => if body_is_text {
            Route::Poll
        } else {
            Route::Reject(Status::UnprocessableEntity)
        },
    }
}

/// Takes a submitted message into the store: `decoded` is the body read as
/// a message, `None` where it did not decode; `remote_addr` is where the
/// request came from, which replaces any address the client gave.
pub fn submit(store: &mut MessageStore, decoded: Option<ChatMessage>, remote_addr: String, now: Timestamp) -> (r: Status)
    requires
        old(store).wf(),
    ensures
        final(store).wf(),
        decoded is None ==> r == Status::UnprocessableEntity && *final(store) == *old(store),
        decoded matches Some(m) ==> {
            if old(store).spec_next_id() < u64::MAX {
                &&& r == Status::Success
                &&& final(store)@ == old(store)@.push(m.stamped(old(store).spec_next_id(), remote_addr, now))
            } else {
                r == Status::InsufficientStorage && *final(store) == *old(store)
            }
        },
{
    match decoded {
        None => Status::UnprocessableEntity,
        Some(m) => match store.append(m, remote_addr, now) {
            Some(_) => Status::Success,
            None => Status::InsufficientStorage,
        },
    }
}

/// Answers a poll: `cursor` is the body read as a message id, `None` where
/// it did not decode. Gives the messages after that id.
pub fn poll(store: &MessageStore, cursor: Option<u64>) -> (r: (Status, Option<Vec<ChatMessage>>))
    ensures
        cursor is None ==> r.0 == Status::UnprocessableEntity && r.1 is None,
        cursor is Some ==> r.0 == Status::Success && r.1 is Some && r.1->0@ == since_id(store@, cursor->0),
{
    match cursor {
        None => (Status::UnprocessableEntity, None),
        Some(id) => (Status::Success, Some(store.suffix_since_id(id))),
    }
}

/// The reply to a poll once its messages have been written out:
/// `serialized` is that text, `None` where writing failed, in which case
/// the reply is "accepted" with an empty array.
pub fn poll_reply(serialized: Option<String>) -> (r: (Status, String))
    ensures
        serialized matches Some(s) ==> r.0 == Status::Success && r.1@ == s@,
        serialized is None ==> r.0 == Status::Accepted && r.1@ == "[]"@,
{
    match serialized {
        Some(s) => (Status::Success, s),
        None => (Status::Accepted, "[]".to_owned()),
    }
}

/// What a request carries once read: its method, whether its body was
/// UTF-8, the body decoded as a message or as a cursor where it did,
/// the codings the client accepts, and its address.
pub struct Request {
    pub method: Method,
    pub body_is_text: bool,
    pub message: Option<ChatMessage>,
    pub cursor: Option<u64>,
    pub accept_encoding: Vec<QualityItem>,
    pub remote_addr: String,
}

/// The body of a reply.
pub enum Body {
    Empty,
    /// The page, in the encoding named.
    Page(Encoding, Vec<u8>),
    /// Messages, to be written out as a JSON array.
    Messages(Vec<ChatMessage>),
}

pub struct Reply {
    pub status: Status,
    pub body: Body,
}

/// The logo that stands for `{logo_s}` on the page.
pub const LOGO: &'static str = "Ð§<small>@</small>O<sub>2</sub>";

/// The relay: the message log and the page, shared by every request.
pub struct ClientHandler {
    pub store: MessageStore,
    pub page: HtmlResponseHandler,
}

impl ClientHandler {
    pub open spec fn wf(&self) -> bool {
        self.store.wf() && self.page.wf()
    }

    /// A relay with an empty log that serves `page` with its placeholders
    /// filled (the icon, the style sheet, the script that sets the
    /// server's address, and the logo) and then compacted.
    pub fn new(page: &str, favicon: &[u8], common_css: &str, set_own_url: &str) -> (r: ClientHandler)
        ensures
            r.wf(),
            r.store@ == Seq::<ChatMessage>::empty(),
            r.store.spec_next_id() == 1,
            r.page.page() == compacted(templated(page@, seq![
                ("common_css"@, common_css@),
                ("favicon"@, "data:image/x-icon;base64,"@ + base64_of(favicon@)),
                ("logo_s"@, LOGO@),
                ("set_own_url"@, set_own_url@),
            ])),
    {
        let mut subs: Vec<(String, String)> = Vec::new();
        subs.push(("common_css".to_owned(), common_css.to_owned()));
        subs.push(("favicon".to_owned(), favicon_url(favicon)));
        subs.push(("logo_s".to_owned(), LOGO.to_owned()));
        subs.push(("set_own_url".to_owned(), set_own_url.to_owned()));
        let filled = template(page, &subs);
        assert(views(subs@) =~= seq![
            ("common_css"@, common_css@),
            ("favicon"@, "data:image/x-icon;base64,"@ + base64_of(favicon@)),
            ("logo_s"@, LOGO@),
            ("set_own_url"@, set_own_url@),
        ]);
        ClientHandler { store: MessageStore::new(), page: HtmlResponseHandler::new(filled.as_str()) }
    }

    /// Answers one request that arrived at `now`.
    pub fn handle(&mut self, req: Request, now: Timestamp) -> (r: Reply)
        requires
            old(self).wf(),
        ensures
            final(self).wf(),
            final(self).page.page() == old(self).page.page(),
            spec_route(req.method, req.body_is_text) matches Route::Reject(s) ==>
                r.status == s && r.body is Empty && *final(self) == *old(self),
            spec_route(req.method, req.body_is_text) == Route::Submit ==> {
                &&& r.body is Empty
                &&& final(self).page == old(self).page
                &&& req.message is None ==> r.status == Status::UnprocessableEntity && final(self).store == old(self).store
                &&& req.message is Some && old(self).store.spec_next_id() < u64::MAX ==>
                    r.status == Status::Success
                    && final(self).store@ == old(self).store@.push(req.message->0.stamped(old(self).store.spec_next_id(), req.remote_addr, now))
                &&& req.message is Some && old(self).store.spec_next_id() == u64::MAX ==>
                    r.status == Status::InsufficientStorage && final(self).store == old(self).store
            },
            spec_route(req.method, req.body_is_text) == Route::Poll ==> {
                &&& *final(self) == *old(self)
                &&& req.cursor is None ==> r.status == Status::UnprocessableEntity && r.body is Empty
                &&& req.cursor is Some ==> r.status == Status::Success
                    && r.body is Messages && r.body->Messages_0@ == since_id(old(self).store@, req.cursor->0)
            },
            spec_route(req.method, req.body_is_text) == Route::Page ==> {
                &&& r.status == Status::Success
                &&& final(self).store == old(self).store
                &&& r.body is Page
                &&& encode_step(old(self).page, final(self).page, negotiated(req.accept_encoding@))
                &&& r.body->Page_0 == served(negotiated(req.accept_encoding@), encode_utf8(old(self).page.page())).0
                &&& r.body->Page_1@ == served(negotiated(req.accept_encoding@), encode_utf8(old(self).page.page())).1
            },
    {
        match route(req.method, req.body_is_text) {
            Route::Reject(s) => Reply { status: s, body: Body::Empty },
            Route::Submit => {
                let s = submit(&mut self.store, req.message, req.remote_addr, now);
                Reply { status: s, body: Body::Empty }
            },
            Route::Poll => {
                let (s, msgs) = poll(&self.store, req.cursor);
                match msgs {
                    Some(v) => Reply { status: s, body: Body::Messages(v) },
                    None => Reply { status: s, body: Body::Empty },
                }
            },
            Route::Page => {
                let (e, b) = self.page.respond(&req.accept_encoding);
                Reply { status: Status::Success, body: Body::Page(e, b) }
            },
        }
    }
}

} // verus!
