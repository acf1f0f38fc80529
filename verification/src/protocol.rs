//! The messages of the line protocol between the daemon and its clients:
//! requests, replies and pushed notifications.

use vstd::prelude::*;
use vstd::string::*;
use crate::json::{Json, JsonV};

verus! {

/// A client's request: a command name and its arguments (`null` when the
/// request carries none).
pub struct Request {
    pub cmd: String,
    pub args: Json,
}

/// The daemon's reply to a request.
pub struct Response {
    pub ok: bool,
    pub data: Option<Json>,
    pub error: Option<String>,
}

/// A message that the daemon pushes without a request.
pub struct Notification {
    pub notify: String,
    pub data: Json,
}

/// The mathematical value of a reply.
pub struct ResponseV {
    pub ok: bool,
    pub data: Option<JsonV>,
    pub error: Option<Seq<char>>,
}

/// The mathematical value of a notification.
pub struct NotificationV {
    pub notify: Seq<char>,
    pub data: JsonV,
}

impl Request {
    /// The command name and the arguments' value.
    pub open spec fn view(&self) -> (Seq<char>, JsonV) {
        (self.cmd@, self.args@)
    }
}

impl Response {
    /// The mathematical value of `self`.
    pub open spec fn view(&self) -> ResponseV {
        ResponseV {
            ok: self.ok,
            data: match self.data {
                Some(d) => Some(d@),
                None => None,
            },
            error: match self.error {
                Some(e) => Some(e@),
                None => None,
            },
        }
    }

    /// A successful reply carrying `data`.
    pub fn success(data: Json) -> (r: Response)
        ensures
            r@ == ok_data(data@),
    {
        Response { ok: true, data: Some(data), error: None }
    }

    /// A successful reply carrying the text `msg`.
    pub fn success_msg(msg: &str) -> (r: Response)
        ensures
            r@ == ok_msg(msg@),
    {
        Response { ok: true, data: Some(Json::string(msg)), error: None }
    }

    /// A failed reply carrying the text `msg`.
    pub fn error(msg: &str) -> (r: Response)
        ensures
            r@ == err_msg(msg@),
    {
        Response { ok: false, data: None, error: Some(String::from_str(msg)) }
    }
}

impl Notification {
    /// The mathematical value of `self`.
    pub open spec fn view(&self) -> NotificationV {
        NotificationV { notify: self.notify@, data: self.data@ }
    }
}

/// A successful reply with `data`.
pub open spec fn ok_data(data: JsonV) -> ResponseV {
    ResponseV { ok: true, data: Some(data), error: None }
}

/// A successful reply with the text `msg`.
pub open spec fn ok_msg(msg: Seq<char>) -> ResponseV {
    ok_data(JsonV::Str(msg))
}

/// A failed reply with the text `msg`.
pub open spec fn err_msg(msg: Seq<char>) -> ResponseV {
    ResponseV { ok: false, data: None, error: Some(msg) }
}

} // verus!
