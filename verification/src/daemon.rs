//! The daemon's command dispatch: which command a request names, and the
//! replies that involve the client's session or the web monitor.

use vstd::prelude::*;
use vstd::string::*;
use crate::codec::{hex_text, lossy_text, utf8_lossy};
use crate::json::{fields_view, object_of, push_field, Json, JsonV};
use crate::protocol::{err_msg, ok_data, ok_msg, Notification, NotificationV, Response, ResponseV};
use crate::serial::{cat, cat3, not_open_msg, port_arg, port_required_msg, RxEntry};
use crate::session::ClientSession;
use crate::text::{decimal, decimal_text, has_infix, hex_lower, same_text};

verus! {

/// The commands of the protocol.
#[derive(Clone, Copy, PartialEq, Eq, Structural)]
pub enum Command {
    ListPorts,
    OpenPort,
    ClosePort,
    SubscribeRx,
    UnsubscribeRx,
    WritePort,
    ReadPort,
    PortStatus,
    StartLog,
    UpdateLog,
    StopLog,
    OpenMonitor,
    CloseMonitor,
    Unknown,
}

/// The command that a request's `cmd` names.
pub open spec fn command_named(cmd: Seq<char>) -> Command {
    if cmd == "list_ports"@ {
        Command::ListPorts
    } else if cmd == "open_port"@ {
        Command::OpenPort
    } else if cmd == "close_port"@ {
        Command::ClosePort
    } else if cmd == "subscribe_rx"@ {
        Command::SubscribeRx
    } else if cmd == "unsubscribe_rx"@ {
        Command::UnsubscribeRx
    } else if cmd == "write_port"@ {
        Command::WritePort
    } else if cmd == "read_port"@ {
        Command::ReadPort
    } else if cmd == "port_status"@ {
        Command::PortStatus
    } else if cmd == "start_log"@ {
        Command::StartLog
    } else if cmd == "update_log"@ {
        Command::UpdateLog
    } else if cmd == "stop_log"@ {
        Command::StopLog
    } else if cmd == "open_monitor"@ {
        Command::OpenMonitor
    } else if cmd == "close_monitor"@ {
        Command::CloseMonitor
    } else {
        Command::Unknown
    }
}

/// The command that `cmd` names.
pub fn route(cmd: &str) -> (c: Command)
    ensures
        c == command_named(cmd@),
{
    if same_text(cmd, "list_ports") {
        Command::ListPorts
    } else if same_text(cmd, "open_port") {
        Command::OpenPort
    } else if same_text(cmd, "close_port") {
        Command::ClosePort
    } else if same_text(cmd, "subscribe_rx") {
        Command::SubscribeRx
    } else if same_text(cmd, "unsubscribe_rx") {
        Command::UnsubscribeRx
    } else if same_text(cmd, "write_port") {
        Command::WritePort
    } else if same_text(cmd, "read_port") {
        Command::ReadPort
    } else if same_text(cmd, "port_status") {
        Command::PortStatus
    } else if same_text(cmd, "start_log") {
        Command::StartLog
    } else if same_text(cmd, "update_log") {
        Command::UpdateLog
    } else if same_text(cmd, "stop_log") {
        Command::StopLog
    } else if same_text(cmd, "open_monitor") {
        Command::OpenMonitor
    } else if same_text(cmd, "close_monitor") {
        Command::CloseMonitor
    } else {
        Command::Unknown
    }
}

/// The reply to a command that the daemon does not know.
pub fn unknown_command(cmd: &str) -> (r: Response)
    ensures
        r@ == err_msg("알 수 없는 명령: "@ + cmd@),
{
    Response::error(cat("알 수 없는 명령: ", cmd).as_str())
}

/// The reply to a line that is no request; `detail` is the parser's message.
pub fn parse_error_response(detail: &str) -> (r: Response)
    ensures
        r@ == err_msg("JSON 파싱 오류: "@ + detail@),
{
    Response::error(cat("JSON 파싱 오류: ", detail).as_str())
}

/// The web monitor's address on port `p`.
pub open spec fn monitor_url(p: u16) -> Seq<char> {
    "http://127.0.0.1:"@ + decimal(p as nat)
}

/// The web monitor's address on port `p`.
pub fn monitor_url_text(p: u16) -> (r: String)
    ensures
        r@ == monitor_url(p),
{
    let d = decimal_text(p as u64);
    cat("http://127.0.0.1:", d.as_str())
}

/// The HTTP port that `open_monitor` asks for: `httpPort`, default 8765,
/// taken modulo 2^16.
pub open spec fn requested_monitor_port(args: JsonV) -> u16 {
    let p: nat = match args.u64_at("httpPort"@) {
        Some(v) => v,
        None => 8765,
    };
    (p % 0x1_0000) as u16
}

/// The HTTP port that `open_monitor` asks for.
pub fn monitor_port(args: &Json) -> (p: u16)
    ensures
        p == requested_monitor_port(args@),
{
    let v: u64 = match args.u64_at("httpPort") {
        Some(v) => v,
        None => 8765,
    };
    let p: u16 = #[verifier::truncate] (v as u16);
    assert(p == (v % 0x1_0000) as u16) by (bit_vector)
        requires
            p == #[verifier::truncate] (v as u16),
    ;
    p
}

/// The status of the web monitor in a `port_status` reply.
pub open spec fn monitor_json(monitor: Option<u16>) -> JsonV {
    match monitor {
        Some(p) => JsonV::Object(seq![("active"@, JsonV::Bool(true)), ("url"@, JsonV::Str(monitor_url(p)))]),
        None => JsonV::Object(seq![("active"@, JsonV::Bool(false))]),
    }
}

/// The data of a `port_status` reply: the ports under `ports` (an empty
/// list if there is no data), the monitor under `monitor`.
pub open spec fn status_with_monitor(data: Option<JsonV>, monitor: Option<u16>) -> JsonV {
    JsonV::Object(
        seq![
            ("ports"@, match data {
                Some(d) => d,
                None => JsonV::Array(Seq::empty()),
            }),
            ("monitor"@, monitor_json(monitor)),
        ],
    )
}

/// A `port_status` reply with the monitor's status added: the ports (the
/// reply's data, or an empty list) under `ports`, the monitor under `monitor`.
pub fn with_monitor(resp: Response, monitor: Option<u16>) -> (r: Response)
    ensures
        r@.ok == resp@.ok,
        r@.error == resp@.error,
        r@.data == Some(status_with_monitor(resp@.data, monitor)),
{
    let ghost orig = resp@;
    let mut out = resp;
    let ports = match out.data {
        Some(d) => d,
        None => {
            let e = Json::Array(Vec::new());
            assert(e@->Array_0 =~= Seq::<JsonV>::empty());
            e
        },
    };
    let ghost pv = ports@;
    assert(pv == match orig.data {
        Some(d) => d,
        None => JsonV::Array(Seq::empty()),
    });
    let mut m: Vec<(String, Json)> = Vec::new();
    match monitor {
        Some(p) => {
            push_field(&mut m, "active", Json::Bool(true));
            push_field(&mut m, "url", Json::Str(monitor_url_text(p)));
        },
        None => {
            push_field(&mut m, "active", Json::Bool(false));
        },
    }
    assert(fields_view(m@) =~= monitor_json(monitor)->Object_0);
    let mj = object_of(m);
    assert(mj@ == monitor_json(monitor));
    let mut f: Vec<(String, Json)> = Vec::new();
    push_field(&mut f, "ports", ports);
    push_field(&mut f, "monitor", mj);
    assert(fields_view(f@) =~= seq![("ports"@, pv), ("monitor"@, monitor_json(monitor))]);
    let obj = object_of(f);
    out.data = Some(obj);
    assert(out@.data == Some(obj@));
    assert(obj@ == JsonV::Object(seq![("ports"@, pv), ("monitor"@, monitor_json(monitor))]));
    assert(out@.data == Some(JsonV::Object(seq![("ports"@, pv), ("monitor"@, monitor_json(monitor))])));
    assert(orig == resp@);
    assert(status_with_monitor(orig.data, monitor)->Object_0 =~= seq![("ports"@, pv), ("monitor"@, monitor_json(monitor))]);
    assert(obj@ == status_with_monitor(orig.data, monitor));
    out
}

/// The reply to `open_monitor` when the monitor runs already on port `p`.
pub fn monitor_already_running(p: u16) -> (r: Response)
    ensures
        r@ == ok_msg("모니터가 이미 실행 중입니다: "@ + monitor_url(p)),
{
    let u = monitor_url_text(p);
    Response::success_msg(cat("모니터가 이미 실행 중입니다: ", u.as_str()).as_str())
}

/// The reply to `open_monitor` once the monitor started on port `p`.
pub fn monitor_started(p: u16) -> (r: Response)
    ensures
        r@ == ok_msg("모니터 시작: "@ + monitor_url(p)),
{
    let u = monitor_url_text(p);
    Response::success_msg(cat("모니터 시작: ", u.as_str()).as_str())
}

/// The reply to `open_monitor` when the monitor could not start.
pub fn monitor_start_failed(e: &str) -> (r: Response)
    ensures
        r@ == err_msg("모니터 시작 실패: "@ + e@),
{
    Response::error(cat("모니터 시작 실패: ", e).as_str())
}

/// The reply to `close_monitor`, given whether a monitor was running.
pub fn close_monitor_reply(was_running: bool) -> (r: Response)
    ensures
        was_running ==> r@ == ok_msg("모니터 종료"@),
        !was_running ==> r@ == err_msg("모니터가 실행 중이 아닙니다."@),
{
    if was_running {
        Response::success_msg("모니터 종료")
    } else {
        Response::error("모니터가 실행 중이 아닙니다.")
    }
}

/// Decides `read_port`: the port to read and whether to clear its buffer
/// (`clear`, default true), or the refusal for a missing name or a port
/// that is not open (`is_open` tells whether the named port is open).
pub fn read_port_request(args: &Json, is_open: bool) -> (r: Result<(String, bool), Response>)
    ensures
        match args@.str_at("port"@) {
            None => r matches Err(e) && e@ == err_msg(port_required_msg()),
            Some(p) => if !is_open {
                r matches Err(e) && e@ == err_msg(not_open_msg(p))
            } else {
                r matches Ok((q, clear)) && q@ == p && clear == match args@.bool_at("clear"@) {
                    Some(b) => b,
                    None => true,
                }
            },
        },
{
    let port = match port_arg(args) {
        Ok(p) => p,
        Err(e) => return Err(e),
    };
    if !is_open {
        return Err(Response::error(cat(port.as_str(), "가 열려 있지 않습니다.").as_str()));
    }
    let clear = match args.bool_at("clear") {
        Some(b) => b,
        None => true,
    };
    Ok((port, clear))
}

/// Decides `subscribe_rx` before the port's data is tapped: the port, or the
/// refusal for a missing name, a port that is not open, or one the client
/// has already subscribed to.
pub fn subscribe_rx_request(session: &ClientSession, args: &Json, is_open: bool) -> (r: Result<String, Response>)
    requires
        session.wf(),
    ensures
        match args@.str_at("port"@) {
            None => r matches Err(e) && e@ == err_msg(port_required_msg()),
            Some(p) => if !is_open {
                r matches Err(e) && e@ == err_msg(not_open_msg(p))
            } else if session.rx_subscriptions().contains(p) {
                r matches Err(e) && e@ == err_msg(p + "는 이미 구독 중입니다."@)
            } else {
                r matches Ok(q) && q@ == p
            },
        },
{
    let port = match port_arg(args) {
        Ok(p) => p,
        Err(e) => return Err(e),
    };
    if !is_open {
        return Err(Response::error(cat(port.as_str(), "가 열려 있지 않습니다.").as_str()));
    }
    if session.is_rx_subscribed(port.as_str()) {
        return Err(Response::error(cat(port.as_str(), "는 이미 구독 중입니다.").as_str()));
    }
    Ok(port)
}

/// Completes `subscribe_rx` for `port`: when the port's data could be
/// tapped the port joins the client's pushed ports, and the reply tells
/// whether the push task took it.
pub fn finish_subscribe_rx(session: &mut ClientSession, port: &str, tapped: bool, delivered: bool) -> (r: Response)
    requires
        old(session).wf(),
    ensures
        final(session).wf(),
        final(session).receiver_ports() == old(session).receiver_ports(),
        final(session).buffers() == old(session).buffers(),
        !tapped ==> r@ == err_msg(port@ + " 구독 실패"@) && final(session).rx_subscriptions() == old(
            session,
        ).rx_subscriptions(),
        tapped ==> final(session).rx_subscriptions() == old(session).rx_subscriptions().insert(port@),
        tapped && !delivered ==> r@ == err_msg("스트리밍 태스크 전달 실패"@),
        tapped && delivered ==> r@ == ok_msg(port@ + " 실시간 RX 구독 시작"@),
{
    if !tapped {
        return Response::error(cat(port, " 구독 실패").as_str());
    }
    session.add_rx_subscription(port);
    if !delivered {
        return Response::error("스트리밍 태스크 전달 실패");
    }
    Response::success_msg(cat(port, " 실시간 RX 구독 시작").as_str())
}

/// Answers `unsubscribe_rx`: removes the port from the client's pushed
/// ports. Also gives the port to withdraw from the push task, if any.
pub fn unsubscribe_rx(session: &mut ClientSession, args: &Json) -> (r: (Response, Option<String>))
    requires
        old(session).wf(),
    ensures
        final(session).wf(),
        final(session).receiver_ports() == old(session).receiver_ports(),
        final(session).buffers() == old(session).buffers(),
        match args@.str_at("port"@) {
            None => r.0@ == err_msg(port_required_msg()) && r.1 is None
                && final(session).rx_subscriptions() == old(session).rx_subscriptions(),
            Some(p) => {
                &&& final(session).rx_subscriptions() == old(session).rx_subscriptions().remove(p)
                &&& if old(session).rx_subscriptions().contains(p) {
                    r.0@ == ok_msg(p + " 실시간 RX 구독 해제"@) && (r.1 matches Some(q) && q@ == p)
                } else {
                    r.0@ == err_msg(p + "는 구독 중이 아닙니다."@) && r.1 is None
                }
            },
        },
{
    let port = match port_arg(args) {
        Ok(p) => p,
        Err(e) => return (e, None),
    };
    if !session.remove_rx_subscription(port.as_str()) {
        return (Response::error(cat(port.as_str(), "는 구독 중이 아닙니다.").as_str()), None);
    }
    let msg = cat(port.as_str(), " 실시간 RX 구독 해제");
    (Response::success_msg(msg.as_str()), Some(port))
}

/// What the clients and the monitor are sent for one received chunk.
pub open spec fn rx_payload_json(port: Seq<char>, e: RxEntry) -> JsonV {
    JsonV::Object(
        seq![
            ("port"@, JsonV::Str(port)),
            ("timestamp"@, JsonV::Str(e.timestamp@)),
            ("ascii"@, JsonV::Str(utf8_lossy(e.data@))),
            ("hex"@, JsonV::Str(hex_lower(e.data@))),
        ],
    )
}

/// What the clients and the monitor are sent for one received chunk: the
/// port, the arrival time, the bytes as text and in hexadecimal.
pub fn rx_payload(port: &str, e: &RxEntry) -> (r: Json)
    ensures
        r@ == rx_payload_json(port@, *e),
{
    let ascii = lossy_text(&e.data);
    let hex = hex_text(&e.data);
    let ghost av = ascii@;
    let ghost hv = hex@;
    let mut f: Vec<(String, Json)> = Vec::new();
    push_field(&mut f, "port", Json::string(port));
    push_field(&mut f, "timestamp", Json::Str(e.timestamp.clone()));
    push_field(&mut f, "ascii", Json::Str(ascii));
    push_field(&mut f, "hex", Json::Str(hex));
    assert(fields_view(f@) =~= rx_payload_json(port@, *e)->Object_0);
    object_of(f)
}

/// The `rx_data` notification of one received chunk.
pub fn rx_data_notification(port: &str, e: &RxEntry) -> (r: Notification)
    ensures
        r@ == (NotificationV { notify: "rx_data"@, data: rx_payload_json(port@, *e) }),
{
    Notification { notify: String::from_str("rx_data"), data: rx_payload(port, e) }
}

/// The notification that a log stopped because its keyword arrived.
pub fn log_stopped_by_keyword(port: &str, keyword: &str, file: &str) -> (r: Notification)
    ensures
        r@ == (NotificationV {
            notify: "log_stopped"@,
            data: JsonV::Object(
                seq![
                    ("port"@, JsonV::Str(port@)),
                    ("reason"@, JsonV::Str("keyword"@)),
                    ("keyword"@, JsonV::Str(keyword@)),
                    ("file"@, JsonV::Str(file@)),
                ],
            ),
        }),
{
    let mut f: Vec<(String, Json)> = Vec::new();
    push_field(&mut f, "port", Json::string(port));
    push_field(&mut f, "reason", Json::string("keyword"));
    push_field(&mut f, "keyword", Json::string(keyword));
    push_field(&mut f, "file", Json::string(file));
    let ghost want = seq![
        ("port"@, JsonV::Str(port@)),
        ("reason"@, JsonV::Str("keyword"@)),
        ("keyword"@, JsonV::Str(keyword@)),
        ("file"@, JsonV::Str(file@)),
    ];
    assert(fields_view(f@) =~= want);
    Notification { notify: String::from_str("log_stopped"), data: object_of(f) }
}

/// The notification that a log stopped because its time ran out.
pub fn log_stopped_by_duration(port: &str, file: &str) -> (r: Notification)
    ensures
        r@ == (NotificationV {
            notify: "log_stopped"@,
            data: JsonV::Object(
                seq![
                    ("port"@, JsonV::Str(port@)),
                    ("reason"@, JsonV::Str("duration"@)),
                    ("file"@, JsonV::Str(file@)),
                ],
            ),
        }),
{
    let mut f: Vec<(String, Json)> = Vec::new();
    push_field(&mut f, "port", Json::string(port));
    push_field(&mut f, "reason", Json::string("duration"));
    push_field(&mut f, "file", Json::string(file));
    let ghost want = seq![
        ("port"@, JsonV::Str(port@)),
        ("reason"@, JsonV::Str("duration"@)),
        ("file"@, JsonV::Str(file@)),
    ];
    assert(fields_view(f@) =~= want);
    Notification { notify: String::from_str("log_stopped"), data: object_of(f) }
}

/// The line that a log writes for one received chunk: the arrival time in
/// brackets, a space, the bytes as text, and a line end.
pub open spec fn log_line_text(e: RxEntry) -> Seq<char> {
    "["@ + e.timestamp@ + "] "@ + utf8_lossy(e.data@) + "\n"@
}

/// What a log does with one received chunk: the line to write, and whether
/// the log stops after it because the chunk's text contains the keyword.
pub fn log_step(e: &RxEntry, keyword: &Option<String>) -> (r: (String, bool))
    ensures
        r.0@ == log_line_text(*e),
        r.1 == match keyword {
            Some(k) => has_infix(utf8_lossy(e.data@), k@),
            None => false,
        },
{
    let text = lossy_text(&e.data);
    let mut line = cat3("[", e.timestamp.as_str(), "] ");
    line.append(text.as_str());
    line.append("\n");
    let stop = match keyword {
        Some(k) => crate::text::contains_text(text.as_str(), k.as_str()),
        None => false,
    };
    (line, stop)
}

/// Whether a received chunk stops a log with stop keyword `kw`: its text
/// contains the keyword.
pub open spec fn entry_hits(e: RxEntry, kw: Option<Seq<char>>) -> bool {
    match kw {
        Some(k) => has_infix(utf8_lossy(e.data@), k),
        None => false,
    }
}

/// One step of a log run: the text written so far and whether the log has
/// stopped, after the chunk `e` arrives while the keyword is `kw`. A stopped
/// log writes nothing more.
pub open spec fn log_feed(state: (Seq<char>, bool), e: RxEntry, kw: Option<Seq<char>>) -> (Seq<char>, bool) {
    if state.1 {
        state
    } else {
        (state.0 + log_line_text(e), entry_hits(e, kw))
    }
}

/// A log run over the chunks `es`, in arrival order, with keyword `kw`: the
/// text of the file and whether the keyword stopped it.
pub open spec fn log_run(es: Seq<RxEntry>, kw: Option<Seq<char>>) -> (Seq<char>, bool)
    decreases es.len(),
{
    if es.len() == 0 {
        (Seq::empty(), false)
    } else {
        log_feed(log_run(es.drop_last(), kw), es.last(), kw)
    }
}

/// The lines of the chunks `es`, one after another.
pub open spec fn log_lines(es: Seq<RxEntry>) -> Seq<char>
    decreases es.len(),
{
    if es.len() == 0 {
        Seq::empty()
    } else {
        log_lines(es.drop_last()) + log_line_text(es.last())
    }
}

/// Law: a log file holds the lines of the chunks in arrival order, up to and
/// including the first chunk that contains the keyword and none after it;
/// without such a chunk it holds them all. The log stops exactly when such a
/// chunk came.
pub proof fn law_log_run(es: Seq<RxEntry>, kw: Option<Seq<char>>)
    ensures
        log_run(es, kw).1 <==> exists|i: int| 0 <= i < es.len() && #[trigger] entry_hits(es[i], kw),
        (forall|i: int| 0 <= i < es.len() ==> !#[trigger] entry_hits(es[i], kw)) ==> log_run(es, kw).0
            == log_lines(es),
        forall|i: int|
            0 <= i < es.len() && #[trigger] entry_hits(es[i], kw) && (forall|j: int|
                0 <= j < i ==> !#[trigger] entry_hits(es[j], kw)) ==> log_run(es, kw).0 == log_lines(
                es.take(i + 1),
            ),
    decreases es.len(),
{
    if es.len() > 0 {
        let p = es.drop_last();
        let e = es.last();
        let n = es.len() - 1;
        law_log_run(p, kw);
        assert forall|i: int| 0 <= i < p.len() implies p[i] == es[i] by {}
        assert(es.take(n) =~= p);
        if log_run(p, kw).1 {
            let w = choose|i: int| 0 <= i < p.len() && #[trigger] entry_hits(p[i], kw);
            assert(entry_hits(es[w], kw));
            assert forall|i: int|
                0 <= i < es.len() && #[trigger] entry_hits(es[i], kw) && (forall|j: int|
                    0 <= j < i ==> !#[trigger] entry_hits(es[j], kw)) implies log_run(es, kw).0
                == log_lines(es.take(i + 1)) by {
                if i == n {
                    assert(!entry_hits(es[w], kw));
                } else {
                    assert(es.take(i + 1) =~= p.take(i + 1));
                    assert forall|j: int| 0 <= j < i implies !#[trigger] entry_hits(p[j], kw) by {
                        assert(!entry_hits(es[j], kw));
                    }
                }
            }
        } else {
            assert(forall|i: int| 0 <= i < p.len() ==> !#[trigger] entry_hits(p[i], kw));
            assert(log_run(p, kw).0 == log_lines(p));
            assert(log_lines(es) == log_lines(p) + log_line_text(e));
            assert(es.take(n + 1) =~= es);
            assert forall|i: int|
                0 <= i < es.len() && #[trigger] entry_hits(es[i], kw) && (forall|j: int|
                    0 <= j < i ==> !#[trigger] entry_hits(es[j], kw)) implies log_run(es, kw).0
                == log_lines(es.take(i + 1)) by {
                if i < n {
                    assert(entry_hits(p[i], kw));
                }
            }
            if exists|i: int| 0 <= i < es.len() && #[trigger] entry_hits(es[i], kw) {
                let w = choose|i: int| 0 <= i < es.len() && #[trigger] entry_hits(es[i], kw);
                if w < n {
                    assert(entry_hits(p[w], kw));
                }
            }
        }
    }
}

/// A running log: whether its keyword stopped it, and the text it has
/// written so far.
pub struct LogRun {
    stopped: bool,
    written: Ghost<Seq<char>>,
}

impl LogRun {
    /// Whether the log's keyword stopped it.
    pub closed spec fn stopped(&self) -> bool {
        self.stopped
    }

    /// The text the log has written.
    pub closed spec fn written(&self) -> Seq<char> {
        self.written@
    }

    /// A log that has written nothing.
    pub fn new() -> (r: LogRun)
        ensures
            r.written() == Seq::<char>::empty(),
            !r.stopped(),
    {
        LogRun { stopped: false, written: Ghost(Seq::empty()) }
    }

    /// Whether the log's keyword stopped it.
    pub fn is_stopped(&self) -> (r: bool)
        ensures
            r == self.stopped(),
    {
        self.stopped
    }

    /// Takes in a received chunk while the stop keyword is `keyword`: the
    /// line to write, and whether the log stops after it; nothing once the
    /// log has stopped.
    pub fn feed(&mut self, e: &RxEntry, keyword: &Option<String>) -> (r: Option<(String, bool)>)
        ensures
            (final(self).written(), final(self).stopped()) == log_feed(
                (old(self).written(), old(self).stopped()),
                *e,
                crate::serial::opt_view(*keyword),
            ),
            match r {
                Some((line, stop)) => !old(self).stopped() && line@ == log_line_text(*e) && stop
                    == final(self).stopped(),
                None => old(self).stopped(),
            },
    {
        if self.stopped {
            return None;
        }
        let (line, stop) = log_step(e, keyword);
        proof {
            self.written@ = self.written@ + log_line_text(*e);
        }
        self.stopped = stop;
        Some((line, stop))
    }
}



/// The names of `xs` that `ys` lacks, in the order of `xs`.
pub open spec fn missing_from(xs: Seq<Seq<char>>, ys: Seq<Seq<char>>) -> Seq<Seq<char>>
    decreases xs.len(),
{
    if xs.len() == 0 {
        Seq::empty()
    } else {
        missing_from(xs.drop_last(), ys) + if ys.contains(xs.last()) {
            Seq::<Seq<char>>::empty()
        } else {
            seq![xs.last()]
        }
    }
}

/// Whether `names` holds `n`.
pub fn holds_name(names: &Vec<String>, n: &str) -> (r: bool)
    ensures
        r == crate::text::views(names@).contains(n@),
{
    let mut i: usize = 0;
    while i < names.len()
        invariant
            i <= names@.len(),
            forall|j: int| 0 <= j < i ==> crate::text::views(names@)[j] != n@,
        decreases names@.len() - i,
    {
        if same_text(names[i].as_str(), n) {
            assert(crate::text::views(names@)[i as int] == n@);
            return true;
        }
        i = i + 1;
    }
    false
}

/// The names of `xs` that `ys` lacks, in the order of `xs`.
pub fn names_missing_from(xs: &Vec<String>, ys: &Vec<String>) -> (r: Vec<String>)
    ensures
        crate::text::views(r@) == missing_from(crate::text::views(xs@), crate::text::views(ys@)),
{
    let ghost xv = crate::text::views(xs@);
    let ghost yv = crate::text::views(ys@);
    let mut r: Vec<String> = Vec::new();
    let mut i: usize = 0;
    while i < xs.len()
        invariant
            i <= xs@.len(),
            xv == crate::text::views(xs@),
            yv == crate::text::views(ys@),
            crate::text::views(r@) == missing_from(xv.take(i as int), yv),
        decreases xs@.len() - i,
    {
        let ghost before = r@;
        let ghost t = xv.take(i + 1);
        assert(t.drop_last() =~= xv.take(i as int));
        assert(t.last() == xs@[i as int]@);
        if !holds_name(ys, xs[i].as_str()) {
            r.push(xs[i].clone());
            assert(crate::text::views(r@) =~= crate::text::views(before).push(xs@[i as int]@));
        } else {
            assert(crate::text::views(r@) =~= crate::text::views(before) + Seq::<Seq<char>>::empty());
        }
        i = i + 1;
    }
    assert(xv.take(xs@.len() as int) =~= xv);
    r
}

/// What the web monitor changes in its taps: the open ports it does not tap
/// yet (to tap, in port order) and the tapped ports that are no longer open
/// (to drop).
pub fn monitor_refresh(tapped: &Vec<String>, open: &Vec<String>) -> (r: (Vec<String>, Vec<String>))
    ensures
        crate::text::views(r.0@) == missing_from(crate::text::views(open@), crate::text::views(tapped@)),
        crate::text::views(r.1@) == missing_from(crate::text::views(tapped@), crate::text::views(open@)),
{
    (names_missing_from(open, tapped), names_missing_from(tapped, open))
}

} // verus!
