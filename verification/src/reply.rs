use vstd::prelude::*;

use crate::cookie::{clear_session_cookie, session_clear_cookie, session_set_cookie, set_session_cookie};
use crate::feed::HTML;
use crate::text::{decimal, decimal_string};

verus! {

/// Content type of every JSON answer.
pub const JSON: &'static str = "application/json";

/// `200 OK`.
pub const OK: u16 = 200;

/// `401 Unauthorized`.
pub const UNAUTHORIZED: u16 = 401;

/// `500 Internal Server Error`.
pub const INTERNAL_SERVER_ERROR: u16 = 500;

/// An HTTP answer, as plain values: status, content type, an optional
/// `Set-Cookie` value and the body.
pub struct Reply {
    pub status: u16,
    pub content_type: String,
    pub set_cookie: Option<String>,
    pub body: String,
}

/// What an answer holds, as plain values.
pub struct ReplyView {
    pub status: u16,
    pub content_type: Seq<char>,
    pub set_cookie: Option<Seq<char>>,
    pub body: Seq<char>,
}

impl View for Reply {
    type V = ReplyView;

    open spec fn view(&self) -> ReplyView {
        ReplyView {
            status: self.status,
            content_type: self.content_type@,
            set_cookie: match self.set_cookie {
                Some(c) => Some(c@),
                None => None,
            },
            body: self.body@,
        }
    }
}

/// An HTML page with the given status.
pub fn html_reply(status: u16, body: String) -> (r: Reply)
    ensures
        r@ == (ReplyView { status, content_type: HTML@, set_cookie: None, body: body@ }),
{
    Reply { status, content_type: String::from_str(HTML), set_cookie: None, body }
}

/// A JSON body with the given status.
pub fn json_reply(status: u16, body: &str) -> (r: Reply)
    ensures
        r@ == (ReplyView { status, content_type: JSON@, set_cookie: None, body: body@ }),
{
    Reply { status, content_type: String::from_str(JSON), set_cookie: None, body: String::from_str(body) }
}

/// The one answer to every refused sign-in, whatever was wrong.
pub fn refused_reply() -> (r: Reply)
    ensures
        r@ == (ReplyView {
            status: UNAUTHORIZED,
            content_type: JSON@,
            set_cookie: None,
            body: "{\"error\":\"invalid credentials\"}"@,
        }),
{
    json_reply(UNAUTHORIZED, "{\"error\":\"invalid credentials\"}")
}

/// The answer when a granted session could not be stored.
pub fn session_store_failed_reply() -> (r: Reply)
    ensures
        r@ == (ReplyView {
            status: INTERNAL_SERVER_ERROR,
            content_type: JSON@,
            set_cookie: None,
            body: "{\"error\":\"session store failed\"}"@,
        }),
{
    json_reply(INTERNAL_SERVER_ERROR, "{\"error\":\"session store failed\"}")
}

/// The answer to a granted sign-in: the session cookie for `token`.
pub fn signed_in_reply(token: &str) -> (r: Reply)
    ensures
        r@ == (ReplyView {
            status: OK,
            content_type: JSON@,
            set_cookie: Some(session_set_cookie(token@)),
            body: "{\"status\":\"ok\"}"@,
        }),
{
    Reply {
        status: OK,
        content_type: String::from_str(JSON),
        set_cookie: Some(set_session_cookie(token)),
        body: String::from_str("{\"status\":\"ok\"}"),
    }
}

/// The answer to a sign-out, whether or not a session was found: the cookie
/// is cleared either way.
pub fn signed_out_reply() -> (r: Reply)
    ensures
        r@ == (ReplyView {
            status: OK,
            content_type: JSON@,
            set_cookie: Some(session_clear_cookie()),
            body: "{\"status\":\"ok\"}"@,
        }),
{
    Reply {
        status: OK,
        content_type: String::from_str(JSON),
        set_cookie: Some(clear_session_cookie()),
        body: String::from_str("{\"status\":\"ok\"}"),
    }
}

/// The answer to a rebuild: how many posts were rendered, or that it failed.
pub open spec fn rebuild_reply_view(rendered: Option<u64>) -> ReplyView {
    match rendered {
        Some(n) => ReplyView {
            status: OK,
            content_type: JSON@,
            set_cookie: None,
            body: "{\"rendered\":"@ + decimal(n as nat) + "}"@,
        },
        None => ReplyView {
            status: INTERNAL_SERVER_ERROR,
            content_type: JSON@,
            set_cookie: None,
            body: "{\"error\":\"rebuild failed\"}"@,
        },
    }
}

/// The answer to a rebuild request.
pub fn rebuild_reply(rendered: Option<u64>) -> (r: Reply)
    ensures
        r@ == rebuild_reply_view(rendered),
{
    match rendered {
        Some(n) => {
            let mut body = String::from_str("{\"rendered\":");
            let digits = decimal_string(n);
            body.append(digits.as_str());
            body.append("}");
            Reply { status: OK, content_type: String::from_str(JSON), set_cookie: None, body }
        },
        None => json_reply(INTERNAL_SERVER_ERROR, "{\"error\":\"rebuild failed\"}"),
    }
}

} // verus!
