//! The client library for live received data: the requests it sends and
//! the records it takes from the daemon's `rx_data` notifications.

use vstd::prelude::*;
use vstd::string::*;
use crate::json::{fields_view, object_of, push_field, Json, JsonV};
use crate::protocol::Request;
use crate::daemon::{command_named, rx_payload_json, Command};
use crate::serial::RxEntry;
use crate::codec::utf8_lossy;
use crate::text::hex_lower;

verus! {

/// One chunk of received data as the daemon pushes it.
pub struct RxData {
    pub port: String,
    pub timestamp: String,
    pub ascii: String,
    pub hex: String,
}

/// The texts of an [`RxData`], in field order.
pub open spec fn rx_data_view(d: RxData) -> (Seq<char>, Seq<char>, Seq<char>, Seq<char>) {
    (d.port@, d.timestamp@, d.ascii@, d.hex@)
}

/// The four texts that a value holds as an `RxData` record: an object with
/// text members `port`, `timestamp`, `ascii` and `hex` (others ignored), or
/// a list of exactly four texts in that order.
pub open spec fn rx_fields(v: JsonV) -> Option<(Seq<char>, Seq<char>, Seq<char>, Seq<char>)> {
    match v {
        JsonV::Object(_) => if v.str_at("port"@) is Some && v.str_at("timestamp"@) is Some && v.str_at(
            "ascii"@,
        ) is Some && v.str_at("hex"@) is Some {
            Some(
                (
                    v.str_at("port"@)->0,
                    v.str_at("timestamp"@)->0,
                    v.str_at("ascii"@)->0,
                    v.str_at("hex"@)->0,
                ),
            )
        } else {
            None
        },
        JsonV::Array(items) => if items.len() == 4 && items[0] is Str && items[1] is Str && items[2] is Str
            && items[3] is Str {
            Some((items[0]->Str_0, items[1]->Str_0, items[2]->Str_0, items[3]->Str_0))
        } else {
            None
        },
        _ => None,
    }
}

/// The notification kind and data that a value holds as a notification: an
/// object with a text member `notify` and a member `data`, or a list of
/// exactly those two.
pub open spec fn notification_fields(v: JsonV) -> Option<(Seq<char>, JsonV)> {
    match v {
        JsonV::Object(_) => if v.str_at("notify"@) is Some && v.get("data"@) is Some {
            Some((v.str_at("notify"@)->0, v.get("data"@)->0))
        } else {
            None
        },
        JsonV::Array(items) => if items.len() == 2 && items[0] is Str {
            Some((items[0]->Str_0, items[1]))
        } else {
            None
        },
        _ => None,
    }
}

/// The record that a line from the daemon carries, if it is an `rx_data`
/// notification with well-formed data.
pub open spec fn rx_record(v: JsonV) -> Option<(Seq<char>, Seq<char>, Seq<char>, Seq<char>)> {
    match notification_fields(v) {
        Some((kind, data)) => if kind == "rx_data"@ {
            rx_fields(data)
        } else {
            None
        },
        None => None,
    }
}

/// The text of list element `i`, if it is a text.
fn item_text(items: &Vec<Json>, i: usize) -> (r: Option<String>)
    requires
        i < items@.len(),
    ensures
        match r {
            Some(s) => items@[i as int]@ == JsonV::Str(s@),
            None => !(items@[i as int]@ is Str),
        },
{
    match &items[i] {
        Json::Str(s) => Some(s.clone()),
        _ => None,
    }
}

/// The `RxData` record that a value holds.
pub fn rx_data_of(v: &Json) -> (r: Option<RxData>)
    ensures
        match r {
            Some(d) => rx_fields(v@) == Some(rx_data_view(d)),
            None => rx_fields(v@) is None,
        },
{
    match v {
        Json::Object(_) => {
            match (v.str_at("port"), v.str_at("timestamp"), v.str_at("ascii"), v.str_at("hex")) {
                (Some(port), Some(timestamp), Some(ascii), Some(hex)) => Some(
                    RxData { port, timestamp, ascii, hex },
                ),
                _ => None,
            }
        },
        Json::Array(items) => {
            if items.len() != 4 {
                return None;
            }
            assert(v@->Array_0[0] == items@[0]@);
            assert(v@->Array_0[1] == items@[1]@);
            assert(v@->Array_0[2] == items@[2]@);
            assert(v@->Array_0[3] == items@[3]@);
            match (item_text(items, 0), item_text(items, 1), item_text(items, 2), item_text(items, 3)) {
                (Some(port), Some(timestamp), Some(ascii), Some(hex)) => Some(
                    RxData { port, timestamp, ascii, hex },
                ),
                _ => None,
            }
        },
        _ => None,
    }
}

/// The record that a line from the daemon carries, if it is an `rx_data`
/// notification: what the client hands to its listeners.
pub fn rx_data_from(v: &Json) -> (r: Option<RxData>)
    ensures
        match r {
            Some(d) => rx_record(v@) == Some(rx_data_view(d)),
            None => rx_record(v@) is None,
        },
{
    let (kind, data): (String, &Json) = match v {
        Json::Object(_) => {
            match (v.str_at("notify"), v.get("data")) {
                (Some(k), Some(d)) => (k, d),
                _ => return None,
            }
        },
        Json::Array(items) => {
            if items.len() != 2 {
                return None;
            }
            assert(v@->Array_0[0] == items@[0]@);
            assert(v@->Array_0[1] == items@[1]@);
            match item_text(items, 0) {
                Some(k) => (k, &items[1]),
                None => return None,
            }
        },
        _ => return None,
    };
    if !crate::text::same_text(kind.as_str(), "rx_data") {
        return None;
    }
    rx_data_of(data)
}

/// The request that starts (`subscribe`) or stops the pushing of a port's data.
pub open spec fn rx_request(cmd: Seq<char>, port: Seq<char>) -> (Seq<char>, JsonV) {
    (cmd, JsonV::Object(seq![("port"@, JsonV::Str(port))]))
}

/// A request for `port` under command `cmd`.
fn port_request(cmd: &str, port: &str) -> (r: Request)
    ensures
        r@ == rx_request(cmd@, port@),
{
    let mut f: Vec<(String, Json)> = Vec::new();
    push_field(&mut f, "port", Json::string(port));
    assert(fields_view(f@) =~= seq![("port"@, JsonV::Str(port@))]);
    Request { cmd: String::from_str(cmd), args: object_of(f) }
}

/// The request that starts the pushing of `port`'s data.
pub fn subscribe_request(port: &str) -> (r: Request)
    ensures
        r@ == rx_request("subscribe_rx"@, port@),
{
    port_request("subscribe_rx", port)
}

/// The request that stops the pushing of `port`'s data.
pub fn unsubscribe_request(port: &str) -> (r: Request)
    ensures
        r@ == rx_request("unsubscribe_rx"@, port@),
{
    port_request("unsubscribe_rx", port)
}


/// Law: what the daemon pushes for a received chunk, the client library
/// reads back as that chunk's port, time, text and hexadecimal digits.
pub proof fn law_pushed_data_is_read_back(port: Seq<char>, e: RxEntry)
    ensures
        rx_record(
            JsonV::Object(seq![("notify"@, JsonV::Str("rx_data"@)), ("data"@, rx_payload_json(port, e))]),
        ) == Some((port, e.timestamp@, utf8_lossy(e.data@), hex_lower(e.data@))),
{
    reveal_strlit("notify");
    reveal_strlit("data");
    reveal_strlit("port");
    reveal_strlit("timestamp");
    reveal_strlit("ascii");
    reveal_strlit("hex");
    assert("notify"@.len() != "data"@.len());
    assert("port"@[0] != "timestamp"@[0]);
    assert("port"@.len() != "ascii"@.len());
    assert("port"@.len() != "hex"@.len());
    assert("timestamp"@.len() != "ascii"@.len());
    assert("timestamp"@.len() != "hex"@.len());
    assert("ascii"@.len() != "hex"@.len());
    let n = seq![("notify"@, JsonV::Str("rx_data"@)), ("data"@, rx_payload_json(port, e))];
    crate::json::lemma_field_index(n, "notify"@);
    crate::json::lemma_field_index(n, "data"@);
    let f = rx_payload_json(port, e)->Object_0;
    crate::json::lemma_field_index(f, "port"@);
    crate::json::lemma_field_index(f, "timestamp"@);
    crate::json::lemma_field_index(f, "ascii"@);
    crate::json::lemma_field_index(f, "hex"@);
    assert(n[0].0 == "notify"@);
    assert(n[1].0 == "data"@);
    assert(f[0].0 == "port"@);
    assert(f[1].0 == "timestamp"@);
    assert(f[2].0 == "ascii"@);
    assert(f[3].0 == "hex"@);
    let v = JsonV::Object(n);
    assert(v.str_at("notify"@) == Some("rx_data"@));
    assert(v.get("data"@) == Some(rx_payload_json(port, e)));
    let d = rx_payload_json(port, e);
    assert(d.str_at("port"@) == Some(port));
    assert(d.str_at("timestamp"@) == Some(e.timestamp@));
    assert(d.str_at("ascii"@) == Some(utf8_lossy(e.data@)));
    assert(d.str_at("hex"@) == Some(hex_lower(e.data@)));
    assert(notification_fields(v) == Some(("rx_data"@, d)));
}

/// Law: the daemon reads the client library's subscription requests as the
/// commands they name, for the port they name.
pub proof fn law_rx_requests_are_understood(port: Seq<char>)
    ensures
        command_named(rx_request("subscribe_rx"@, port).0) == Command::SubscribeRx,
        command_named(rx_request("unsubscribe_rx"@, port).0) == Command::UnsubscribeRx,
        rx_request("subscribe_rx"@, port).1.str_at("port"@) == Some(port),
        rx_request("unsubscribe_rx"@, port).1.str_at("port"@) == Some(port),
{
    reveal_strlit("subscribe_rx");
    reveal_strlit("unsubscribe_rx");
    reveal_strlit("list_ports");
    reveal_strlit("open_port");
    reveal_strlit("close_port");
    assert("subscribe_rx"@.len() != "list_ports"@.len());
    assert("subscribe_rx"@.len() != "open_port"@.len());
    assert("subscribe_rx"@.len() != "close_port"@.len());
    assert("unsubscribe_rx"@.len() != "list_ports"@.len());
    assert("unsubscribe_rx"@.len() != "open_port"@.len());
    assert("unsubscribe_rx"@.len() != "close_port"@.len());
    assert("unsubscribe_rx"@.len() != "subscribe_rx"@.len());
    crate::json::lemma_field_index(seq![("port"@, JsonV::Str(port))], "port"@);
}

} // verus!
