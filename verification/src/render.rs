//! How the interactive client shows the daemon's replies and notifications.

use vstd::prelude::*;
use vstd::string::*;
use crate::json::{lemma_get_at, lemma_get_missing, Json, JsonV};
use crate::serial::{status_entry, LogInfo, PortSettings};
use crate::text::{decimal, decimal_text};

verus! {

/// One line that the client prints.
pub enum OutLine {
    /// A text line; on the error stream when `err`.
    Text { err: bool, text: String },
    /// `prefix` followed by a JSON value, indented when `pretty`, compact
    /// otherwise; on the error stream when `err`.
    Value { err: bool, prefix: String, value: Json, pretty: bool },
}

/// The mathematical value of an [`OutLine`].
pub enum OutLineV {
    Text { err: bool, text: Seq<char> },
    Value { err: bool, prefix: Seq<char>, value: JsonV, pretty: bool },
}

impl OutLine {
    pub open spec fn view(&self) -> OutLineV {
        match self {
            OutLine::Text { err, text } => OutLineV::Text { err: *err, text: text@ },
            OutLine::Value { err, prefix, value, pretty } => OutLineV::Value {
                err: *err,
                prefix: prefix@,
                value: value@,
                pretty: *pretty,
            },
        }
    }
}

/// The views of printed lines.
pub open spec fn lines_view(v: Seq<OutLine>) -> Seq<OutLineV> {
    Seq::new(v.len(), |i: int| v[i]@)
}

/// A line for standard output.
pub open spec fn out(t: Seq<char>) -> OutLineV {
    OutLineV::Text { err: false, text: t }
}

/// A line for the error stream.
pub open spec fn err(t: Seq<char>) -> OutLineV {
    OutLineV::Text { err: true, text: t }
}

/// The text of member `key`, or the empty text.
pub open spec fn str_or_empty(v: JsonV, key: Seq<char>) -> Seq<char> {
    match v.str_at(key) {
        Some(s) => s,
        None => Seq::empty(),
    }
}

/// How one element of a list is shown: a port of `list_ports` (by `path`),
/// a received entry (by `timestamp` and `data`), a port of `port_status`
/// (by `port`), or else the element as indented JSON.
pub open spec fn item_lines(item: JsonV) -> Seq<OutLineV> {
    if item is Object && item.str_at("path"@) is Some {
        let desc = item.str_at("path"@)->0 + (match item.str_at("manufacturer"@) {
            Some(m) => " ("@ + m + ")"@,
            None => Seq::empty(),
        }) + (match item.str_at("product"@) {
            Some(p) => " - "@ + p,
            None => Seq::empty(),
        });
        seq![out("  "@ + desc)]
    } else if item is Object && item.str_at("timestamp"@) is Some && item.str_at("data"@) is Some {
        seq![out("["@ + item.str_at("timestamp"@)->0 + "] "@ + item.str_at("data"@)->0)]
    } else if item is Object && item.str_at("port"@) is Some {
        let baud: nat = match item.u64_at("baudRate"@) {
            Some(b) => b,
            None => 0,
        };
        let base = "  "@ + item.str_at("port"@)->0 + " "@ + decimal(baud) + "bps "@ + str_or_empty(
            item,
            "config"@,
        );
        let log_part = match item.get("log"@) {
            Some(l) => if l !is Null && l.str_at("file"@) is Some {
                " [로그: "@ + l.str_at("file"@)->0 + "]"@
            } else {
                Seq::empty()
            },
            None => Seq::empty(),
        };
        seq![out(base + log_part)]
    } else {
        seq![OutLineV::Value { err: false, prefix: "  "@, value: item, pretty: true }]
    }
}

/// How the elements of a non-empty list are shown, in order.
pub open spec fn items_lines(items: Seq<JsonV>) -> Seq<OutLineV>
    decreases items.len(),
{
    if items.len() == 0 {
        Seq::empty()
    } else {
        items_lines(items.drop_last()) + item_lines(items.last())
    }
}

/// How a list is shown.
pub open spec fn array_lines(items: Seq<JsonV>) -> Seq<OutLineV> {
    if items.len() == 0 {
        seq![out("(비어 있음)"@)]
    } else {
        items_lines(items)
    }
}

/// How the data of a successful reply is shown: a text as it is; a list
/// element by element; the `port_status` object as its ports and the
/// monitor's address; the `stop_log` object as the stopped log; any other
/// object as indented JSON; any other value as compact JSON.
pub open spec fn data_lines(data: JsonV) -> Seq<OutLineV> {
    match data {
        JsonV::Str(s) => seq![out(s)],
        JsonV::Array(items) => array_lines(items),
        JsonV::Object(_) => if data.get("ports"@) is Some {
            let ports = data.get("ports"@)->0;
            let port_part: Seq<OutLineV> = match ports {
                JsonV::Array(items) => if items.len() == 0 {
                    seq![out("열린 포트 없음"@)]
                } else {
                    items_lines(items)
                },
                _ => Seq::empty(),
            };
            let monitor_part: Seq<OutLineV> = match data.get("monitor"@) {
                Some(mon) => if mon.get("active"@) == Some(JsonV::Bool(true)) {
                    seq![out("  모니터: "@ + str_or_empty(mon, "url"@))]
                } else {
                    Seq::empty()
                },
                None => Seq::empty(),
            };
            port_part + monitor_part
        } else if data.str_at("file"@) is Some {
            seq![out(str_or_empty(data, "port"@) + " 로그 중지: "@ + data.str_at("file"@)->0)]
        } else {
            seq![OutLineV::Value { err: false, prefix: Seq::empty(), value: data, pretty: true }]
        },
        _ => seq![OutLineV::Value { err: false, prefix: Seq::empty(), value: data, pretty: false }],
    }
}

/// How a reply is shown: the data of a successful one, the error of a
/// failed one.
pub open spec fn response_lines(v: JsonV) -> Seq<OutLineV> {
    if v.get("ok"@) == Some(JsonV::Bool(true)) {
        match v.get("data"@) {
            Some(d) => data_lines(d),
            None => Seq::empty(),
        }
    } else if v.str_at("error"@) is Some {
        seq![err("오류: "@ + v.str_at("error"@)->0)]
    } else {
        Seq::empty()
    }
}

/// How a notification is shown, on the error stream.
pub open spec fn notification_lines(v: JsonV) -> Seq<OutLineV> {
    let kind = str_or_empty(v, "notify"@);
    let data = match v.get("data"@) {
        Some(d) => d,
        None => JsonV::Null,
    };
    let port = str_or_empty(data, "port"@);
    if kind == "log_stopped"@ {
        let reason = str_or_empty(data, "reason"@);
        let file = str_or_empty(data, "file"@);
        if reason == "keyword"@ {
            seq![err("\n[알림] "@ + port + " 로그 중지 (키워드 '"@ + str_or_empty(data, "keyword"@) + "' 감지): "@ + file)]
        } else if reason == "duration"@ {
            seq![err("\n[알림] "@ + port + " 로그 중지 (시간 만료): "@ + file)]
        } else {
            seq![err("\n[알림] "@ + port + " 로그 중지: "@ + file)]
        }
    } else if kind == "port_error"@ {
        seq![err("\n[알림] "@ + port + " 오류: "@ + str_or_empty(data, "error"@))]
    } else {
        seq![OutLineV::Value { err: true, prefix: "\n[알림] "@, value: v, pretty: false }]
    }
}

/// The suffix that shows a port's running log writing to `file`.
pub open spec fn log_suffix(file: Seq<char>) -> Seq<char> {
    " [로그: "@ + file + "]"@
}

/// Whether `t` ends with `suffix`.
pub open spec fn ends_with(t: Seq<char>, suffix: Seq<char>) -> bool {
    t.len() >= suffix.len() && t.subrange(t.len() - suffix.len(), t.len() as int) == suffix
}

/// Law: a port of a status list whose `log` is an object with a text `file`
/// is shown on one line of standard output that ends with ` [로그: <file>]`,
/// whatever else the log object holds.
pub proof fn law_status_line_shows_log(item: JsonV, l: JsonV, file: Seq<char>)
    requires
        item is Object,
        item.str_at("path"@) is None,
        item.str_at("timestamp"@) is None,
        item.str_at("port"@) is Some,
        item.get("log"@) == Some(l),
        l is Object,
        l.str_at("file"@) == Some(file),
    ensures
        item_lines(item).len() == 1,
        item_lines(item)[0] matches OutLineV::Text { err, text } && !err && ends_with(text, log_suffix(file)),
{
    let t = item_lines(item)[0]->text;
    let suffix = log_suffix(file);
    assert(t.subrange(t.len() - suffix.len(), t.len() as int) =~= suffix);
}

/// Law: the client shows the running log of every port in a `port_status`
/// reply: the port's line ends with ` [로그: <file>]` for the log's file,
/// whatever its stop keyword.
pub proof fn law_status_reply_shows_running_log(name: Seq<char>, s: PortSettings, subscribers: nat, info: LogInfo)
    ensures
        ({
            let lines = item_lines(status_entry(name, s, subscribers, Some(info)));
            &&& lines.len() == 1
            &&& lines[0] matches OutLineV::Text { err, text } && !err && ends_with(text, log_suffix(info.file))
        }),
{
    reveal_strlit("port");
    reveal_strlit("baudRate");
    reveal_strlit("config");
    reveal_strlit("subscribers");
    reveal_strlit("log");
    reveal_strlit("path");
    reveal_strlit("timestamp");
    reveal_strlit("file");
    reveal_strlit("stopKeyword");
    let item = status_entry(name, s, subscribers, Some(info));
    let f = item->Object_0;
    assert("port"@[1] != "path"@[1]);
    assert(forall|j: int| 0 <= j < f.len() ==> #[trigger] f[j].0 != "path"@) by {
        assert("baudRate"@.len() != "path"@.len());
        assert("config"@.len() != "path"@.len());
        assert("subscribers"@.len() != "path"@.len());
        assert("log"@.len() != "path"@.len());
    }
    assert(forall|j: int| 0 <= j < f.len() ==> #[trigger] f[j].0 != "timestamp"@) by {
        assert("port"@.len() != "timestamp"@.len());
        assert("baudRate"@.len() != "timestamp"@.len());
        assert("config"@.len() != "timestamp"@.len());
        assert("subscribers"@.len() != "timestamp"@.len());
        assert("log"@.len() != "timestamp"@.len());
    }
    lemma_get_missing(f, "path"@);
    lemma_get_missing(f, "timestamp"@);
    lemma_get_at(f, 0);
    assert(forall|j: int| 0 <= j < 4 ==> #[trigger] f[j].0 != f[4].0) by {
        assert("port"@.len() != "log"@.len());
        assert("baudRate"@.len() != "log"@.len());
        assert("config"@.len() != "log"@.len());
        assert("subscribers"@.len() != "log"@.len());
    }
    lemma_get_at(f, 4);
    let l = crate::serial::log_json(Some(info));
    lemma_get_at(l->Object_0, 0);
    law_status_line_shows_log(item, l, info.file);
}

/// A line for standard output.
fn out_line(t: String) -> (r: OutLine)
    ensures
        r@ == out(t@),
{
    OutLine::Text { err: false, text: t }
}

/// The text of member `key`, or the empty text.
fn str_or_empty_of(v: &Json, key: &str) -> (r: String)
    ensures
        r@ == str_or_empty(v@, key@),
{
    match v.str_at(key) {
        Some(s) => s,
        None => String::new(),
    }
}

/// How one element of a list is shown.
pub fn item_out(item: &Json) -> (r: OutLine)
    ensures
        seq![r@] == item_lines(item@),
{
    let is_object = match item {
        Json::Object(_) => true,
        _ => false,
    };
    if is_object {
        match item.str_at("path") {
            Some(path) => {
                let mut desc = path;
                let ghost mpart: Seq<char> = match item@.str_at("manufacturer"@) {
                    Some(m) => " ("@ + m + ")"@,
                    None => Seq::empty(),
                };
                let ghost ppart: Seq<char> = match item@.str_at("product"@) {
                    Some(p) => " - "@ + p,
                    None => Seq::empty(),
                };
                match item.str_at("manufacturer") {
                    Some(m) => {
                        desc.append(" (");
                        desc.append(m.as_str());
                        desc.append(")");
                    },
                    None => {},
                }
                assert(desc@ =~= item@.str_at("path"@)->0 + mpart);
                match item.str_at("product") {
                    Some(p) => {
                        desc.append(" - ");
                        desc.append(p.as_str());
                    },
                    None => {},
                }
                assert(desc@ =~= item@.str_at("path"@)->0 + mpart + ppart);
                let mut line = String::from_str("  ");
                line.append(desc.as_str());
                let r = out_line(line);
                assert(item_lines(item@) =~= seq![r@]);
                return r;
            },
            None => {},
        }
        match (item.str_at("timestamp"), item.str_at("data")) {
            (Some(ts), Some(d)) => {
                let mut line = String::from_str("[");
                line.append(ts.as_str());
                line.append("] ");
                line.append(d.as_str());
                return out_line(line);
            },
            _ => {},
        }
        match item.str_at("port") {
            Some(port) => {
                let baud: u64 = match item.u64_at("baudRate") {
                    Some(b) => b,
                    None => 0,
                };
                let config = str_or_empty_of(item, "config");
                let mut line = String::from_str("  ");
                line.append(port.as_str());
                line.append(" ");
                let b = decimal_text(baud);
                line.append(b.as_str());
                line.append("bps ");
                line.append(config.as_str());
                let ghost base = line@;
                match item.get("log") {
                    Some(l) => {
                        let is_null = match l {
                            Json::Null => true,
                            _ => false,
                        };
                        if !is_null {
                            match l.str_at("file") {
                                Some(f) => {
                                    line.append(" [로그: ");
                                    line.append(f.as_str());
                                    line.append("]");
                                },
                                None => {},
                            }
                        }
                    },
                    None => {},
                }
                let ghost log_part: Seq<char> = match item@.get("log"@) {
                    Some(l) => if l !is Null && l.str_at("file"@) is Some {
                        " [로그: "@ + l.str_at("file"@)->0 + "]"@
                    } else {
                        Seq::empty()
                    },
                    None => Seq::empty(),
                };
                assert(line@ =~= base + log_part);
                let r = out_line(line);
                assert(item_lines(item@) =~= seq![r@]);
                return r;
            },
            None => {},
        }
    }
    OutLine::Value { err: false, prefix: String::from_str("  "), value: item.duplicate(), pretty: true }
}

/// How the elements of a list are shown, appended to `lines`.
fn push_items(items: &Vec<Json>, lines: &mut Vec<OutLine>)
    ensures
        lines_view(final(lines)@) == lines_view(old(lines)@) + items_lines(
            Seq::new(items@.len(), |i: int| items@[i]@),
        ),
{
    let ghost iv = Seq::new(items@.len(), |i: int| items@[i]@);
    let mut i: usize = 0;
    while i < items.len()
        invariant
            i <= items@.len(),
            iv == Seq::new(items@.len(), |i: int| items@[i]@),
            lines_view(lines@) == lines_view(old(lines)@) + items_lines(iv.take(i as int)),
        decreases items@.len() - i,
    {
        let ghost before = lines@;
        let l = item_out(&items[i]);
        lines.push(l);
        proof {
            let t = iv.take(i + 1);
            assert(t.drop_last() =~= iv.take(i as int));
            assert(t.last() == items@[i as int]@);
            assert(lines_view(lines@) =~= lines_view(before).push(l@));
            assert(item_lines(items@[i as int]@) == seq![l@]);
        }
        i = i + 1;
    }
    assert(iv.take(items@.len() as int) =~= iv);
}

/// How the data of a successful reply is shown (`format_data`).
pub fn format_data(data: &Json) -> (r: Vec<OutLine>)
    ensures
        lines_view(r@) == data_lines(data@),
{
    let mut lines: Vec<OutLine> = Vec::new();
    match data {
        Json::Str(s) => {
            lines.push(out_line(s.clone()));
        },
        Json::Array(items) => {
            if items.len() == 0 {
                lines.push(out_line(String::from_str("(비어 있음)")));
            } else {
                push_items(items, &mut lines);
                assert(data@->Array_0 =~= Seq::new(items@.len(), |i: int| items@[i]@));
            }
        },
        Json::Object(_) => {
            match data.get("ports") {
                Some(ports) => {
                    match ports {
                        Json::Array(items) => {
                            if items.len() == 0 {
                                lines.push(out_line(String::from_str("열린 포트 없음")));
                            } else {
                                push_items(items, &mut lines);
                                assert(ports@->Array_0 =~= Seq::new(items@.len(), |i: int| items@[i]@));
                            }
                        },
                        _ => {},
                    }
                    let ghost port_part = lines_view(lines@);
                    match data.get("monitor") {
                        Some(mon) => {
                            let active = match mon.get("active") {
                                Some(Json::Bool(b)) => *b,
                                _ => false,
                            };
                            if active {
                                let url = str_or_empty_of(mon, "url");
                                let mut line = String::from_str("  모니터: ");
                                line.append(url.as_str());
                                lines.push(out_line(line));
                            }
                        },
                        None => {},
                    }
                },
                None => {
                    match data.str_at("file") {
                        Some(f) => {
                            let mut line = str_or_empty_of(data, "port");
                            line.append(" 로그 중지: ");
                            line.append(f.as_str());
                            lines.push(out_line(line));
                        },
                        None => {
                            lines.push(
                                OutLine::Value {
                                    err: false,
                                    prefix: String::new(),
                                    value: data.duplicate(),
                                    pretty: true,
                                },
                            );
                        },
                    }
                },
            }
        },
        _ => {
            lines.push(
                OutLine::Value { err: false, prefix: String::new(), value: data.duplicate(), pretty: false },
            );
        },
    }
    assert(lines_view(lines@) =~= data_lines(data@));
    lines
}


/// How a reply is shown (`print_response`): the data of a successful one,
/// the error of a failed one.
pub fn print_response(v: &Json) -> (r: Vec<OutLine>)
    ensures
        lines_view(r@) == response_lines(v@),
{
    let ok = match v.get("ok") {
        Some(Json::Bool(b)) => *b,
        _ => false,
    };
    if ok {
        match v.get("data") {
            Some(d) => format_data(d),
            None => {
                let r: Vec<OutLine> = Vec::new();
                assert(lines_view(r@) =~= Seq::<OutLineV>::empty());
                r
            },
        }
    } else {
        let mut r: Vec<OutLine> = Vec::new();
        match v.str_at("error") {
            Some(e) => {
                let mut line = String::from_str("오류: ");
                line.append(e.as_str());
                r.push(OutLine::Text { err: true, text: line });
            },
            None => {},
        }
        assert(lines_view(r@) =~= response_lines(v@));
        r
    }
}

/// How a notification is shown (`print_notification`).
pub fn print_notification(v: &Json) -> (r: Vec<OutLine>)
    ensures
        lines_view(r@) == notification_lines(v@),
{
    let kind = str_or_empty_of(v, "notify");
    let data = match v.get("data") {
        Some(d) => d.duplicate(),
        None => Json::Null,
    };
    let port = str_or_empty_of(&data, "port");
    let mut r: Vec<OutLine> = Vec::new();
    if crate::text::same_text(kind.as_str(), "log_stopped") {
        let reason = str_or_empty_of(&data, "reason");
        let file = str_or_empty_of(&data, "file");
        let mut line = String::from_str("\n[알림] ");
        line.append(port.as_str());
        if crate::text::same_text(reason.as_str(), "keyword") {
            let kw = str_or_empty_of(&data, "keyword");
            line.append(" 로그 중지 (키워드 '");
            line.append(kw.as_str());
            line.append("' 감지): ");
        } else if crate::text::same_text(reason.as_str(), "duration") {
            line.append(" 로그 중지 (시간 만료): ");
        } else {
            line.append(" 로그 중지: ");
        }
        line.append(file.as_str());
        r.push(OutLine::Text { err: true, text: line });
    } else if crate::text::same_text(kind.as_str(), "port_error") {
        let e = str_or_empty_of(&data, "error");
        let mut line = String::from_str("\n[알림] ");
        line.append(port.as_str());
        line.append(" 오류: ");
        line.append(e.as_str());
        r.push(OutLine::Text { err: true, text: line });
    } else {
        r.push(
            OutLine::Value {
                err: true,
                prefix: String::from_str("\n[알림] "),
                value: v.duplicate(),
                pretty: false,
            },
        );
    }
    assert(lines_view(r@) =~= notification_lines(v@));
    r
}

/// Whether a line that the daemon sent is a notification rather than a reply.
pub fn is_notification(v: &Json) -> (r: bool)
    ensures
        r == v@.get("notify"@) is Some,
{
    v.has("notify")
}

} // verus!
