//! The daemon's registry of open ports and running logs, and the decisions
//! that the port and log commands make over it. The registry holds, beside
//! what the commands decide on, an opaque handle per port (`P`) and per log
//! (`L`) through which the caller reaches the devices and tasks.

use vstd::prelude::*;
use vstd::string::*;
use crate::codec::{encode_payload, hex_error_message, hex_error_text, payload_bytes, HexDecodeError};
use crate::json::{fields_view, object_of, push_field, Json, JsonV};
use crate::protocol::{err_msg, ok_data, ok_msg, Notification, NotificationV, Response, ResponseV};
use crate::table::Table;
use crate::text::{decimal, decimal_text, digit_char, joined, same_text};

verus! {

/// One chunk of bytes received from a port, with the local time of its
/// arrival as `YYYY:MM:DD hh:mm:ss`.
#[derive(Clone, Debug)]
pub struct RxEntry {
    pub timestamp: String,
    pub data: Vec<u8>,
}

impl RxEntry {
    /// A copy of the entry.
    pub fn duplicate(&self) -> (r: RxEntry)
        ensures
            r.timestamp@ == self.timestamp@,
            r.data@ == self.data@,
    {
        RxEntry { timestamp: self.timestamp.clone(), data: self.data.clone() }
    }
}

/// The parity of a serial line.
#[derive(Clone, Copy, PartialEq, Eq, Structural)]
pub enum Parity {
    /// No parity bit.
    Disabled,
    Even,
    Odd,
}

/// How a port is opened.
#[derive(Clone, Copy, PartialEq, Eq, Structural)]
pub struct PortSettings {
    pub baud_rate: u32,
    /// 5, 6, 7 or 8.
    pub data_bits: u8,
    pub parity: Parity,
    /// 1 or 2.
    pub stop_bits: u8,
}

/// A port to open: its name and settings.
pub struct OpenRequest {
    pub port: String,
    pub settings: PortSettings,
}

/// An open port: its settings and the caller's handle.
pub struct OpenPort<P> {
    pub settings: PortSettings,
    pub handle: P,
}

/// A running log: its file, its stop keyword and the caller's handle.
pub struct LogState<L> {
    pub file_path: String,
    pub stop_keyword: Option<String>,
    pub handle: L,
}

/// What the registry knows of a log.
pub struct LogInfo {
    pub file: Seq<char>,
    pub keyword: Option<Seq<char>>,
}

/// A log to start: port, file, stop keyword and duration in seconds.
pub struct LogPlan {
    pub port: String,
    pub file_path: String,
    pub stop_keyword: Option<String>,
    pub duration: Option<u64>,
}

/// What `update_log` asks of the running log.
pub struct LogUpdate {
    /// The new stop keyword, when it changes (`None` inside: no keyword).
    pub stop_keyword: Option<Option<String>>,
    /// A new timer, in seconds, replacing the old one.
    pub duration: Option<u64>,
}

/// Why a port's reading ended.
pub enum ReadEnd {
    /// The device reported end of input.
    Disconnected,
    /// Reading failed; the error's text.
    Failed(String),
}

/// The view of an optional string.
pub open spec fn opt_view(s: Option<String>) -> Option<Seq<char>> {
    match s {
        Some(t) => Some(t@),
        None => None,
    }
}

/// The letter of a parity in a `8N1`-style setting.
pub open spec fn parity_letter(p: Parity) -> char {
    match p {
        Parity::Disabled => 'N',
        Parity::Even => 'E',
        Parity::Odd => 'O',
    }
}

/// A setting's short form, such as `8N1`.
pub open spec fn config_text(s: PortSettings) -> Seq<char> {
    decimal(s.data_bits as nat) + seq![parity_letter(s.parity)] + decimal(s.stop_bits as nat)
}

/// The settings that the arguments of `open_port` ask for: `baudRate`
/// (default 115200, taken modulo 2^32), `dataBits` "5", "6" or "7" (else 8),
/// `stopBits` "2" (else 1) and `parity` "even" or "odd" (else none).
pub open spec fn requested_settings(args: JsonV) -> PortSettings {
    let baud: nat = match args.u64_at("baudRate"@) {
        Some(b) => b,
        None => 115200,
    };
    let db = args.str_at("dataBits"@);
    let sb = args.str_at("stopBits"@);
    let pa = args.str_at("parity"@);
    PortSettings {
        baud_rate: (baud % 0x1_0000_0000) as u32,
        data_bits: if db == Some("5"@) {
            5
        } else if db == Some("6"@) {
            6
        } else if db == Some("7"@) {
            7
        } else {
            8
        },
        parity: if pa == Some("even"@) {
            Parity::Even
        } else if pa == Some("odd"@) {
            Parity::Odd
        } else {
            Parity::Disabled
        },
        stop_bits: if sb == Some("2"@) {
            2
        } else {
            1
        },
    }
}

pub open spec fn port_required_msg() -> Seq<char> {
    "port 파라미터가 필요합니다."@
}

pub open spec fn data_required_msg() -> Seq<char> {
    "data 파라미터가 필요합니다."@
}

pub open spec fn already_open_msg(p: Seq<char>) -> Seq<char> {
    p + "는 이미 열려 있습니다."@
}

pub open spec fn open_failed_msg(p: Seq<char>, e: Seq<char>) -> Seq<char> {
    p + " 열기 실패: "@ + e
}

pub open spec fn opened_msg(p: Seq<char>, s: PortSettings) -> Seq<char> {
    p + " 열기 성공 ("@ + decimal(s.baud_rate as nat) + "bps, "@ + config_text(s) + ")"@
}

pub open spec fn closed_msg(p: Seq<char>) -> Seq<char> {
    p + " 닫기 성공"@
}

pub open spec fn not_open_msg(p: Seq<char>) -> Seq<char> {
    p + "가 열려 있지 않습니다."@
}

pub open spec fn hex_failed_msg(e: HexDecodeError) -> Seq<char> {
    "HEX 디코딩 실패: "@ + hex_error_text(e)
}

pub open spec fn written_msg(p: Seq<char>, n: nat) -> Seq<char> {
    p + " 전송 완료 ("@ + decimal(n) + " 바이트)"@
}

pub open spec fn write_failed_msg(p: Seq<char>, e: Seq<char>) -> Seq<char> {
    p + " 전송 실패: "@ + e
}

pub open spec fn log_running_msg(p: Seq<char>) -> Seq<char> {
    p + "의 로그가 이미 실행 중입니다."@
}

pub open spec fn log_started_msg(p: Seq<char>, f: Seq<char>) -> Seq<char> {
    p + " 로그 시작: "@ + f
}

pub open spec fn no_log_msg(p: Seq<char>) -> Seq<char> {
    p + "의 활성 로그가 없습니다."@
}

pub open spec fn nothing_to_update_msg() -> Seq<char> {
    "업데이트할 파라미터가 없습니다. (stopKeyword, duration)"@
}

/// The reason text of a port whose reading ended.
pub open spec fn read_end_text(e: ReadEnd) -> Seq<char> {
    match e {
        ReadEnd::Disconnected => "장치 연결 해제"@,
        ReadEnd::Failed(t) => "읽기 오류: "@ + t@,
    }
}

/// The text of member `port` of the arguments, or the reply that it is missing.
pub fn port_arg(args: &Json) -> (r: Result<String, Response>)
    ensures
        match r {
            Ok(p) => args@.str_at("port"@) == Some(p@),
            Err(e) => args@.str_at("port"@) is None && e@ == err_msg(port_required_msg()),
        },
{
    match args.str_at("port") {
        Some(p) => Ok(p),
        None => Err(Response::error("port 파라미터가 필요합니다.")),
    }
}

/// Whether member `key` of the arguments is the text `lit`.
fn arg_is(args: &Json, key: &str, lit: &str) -> (r: bool)
    ensures
        r == (args@.str_at(key@) == Some(lit@)),
{
    match args.str_at(key) {
        Some(v) => same_text(v.as_str(), lit),
        None => false,
    }
}

/// The settings that the arguments of `open_port` ask for.
pub fn parse_settings(args: &Json) -> (s: PortSettings)
    ensures
        s == requested_settings(args@),
{
    let baud: u64 = match args.u64_at("baudRate") {
        Some(b) => b,
        None => 115200,
    };
    let baud_rate: u32 = #[verifier::truncate] (baud as u32);
    assert(baud_rate == (baud % 0x1_0000_0000) as u32) by (bit_vector)
        requires
            baud_rate == #[verifier::truncate] (baud as u32),
    ;
    let data_bits: u8 = if arg_is(args, "dataBits", "5") {
        5
    } else if arg_is(args, "dataBits", "6") {
        6
    } else if arg_is(args, "dataBits", "7") {
        7
    } else {
        8
    };
    let parity = if arg_is(args, "parity", "even") {
        Parity::Even
    } else if arg_is(args, "parity", "odd") {
        Parity::Odd
    } else {
        Parity::Disabled
    };
    let stop_bits: u8 = if arg_is(args, "stopBits", "2") {
        2
    } else {
        1
    };
    PortSettings { baud_rate, data_bits, parity, stop_bits }
}

/// A setting's short form, such as `8N1`.
pub fn config_string(s: PortSettings) -> (r: String)
    ensures
        r@ == config_text(s),
{
    let mut r = decimal_text(s.data_bits as u64);
    let c: char = match s.parity {
        Parity::Disabled => 'N',
        Parity::Even => 'E',
        Parity::Odd => 'O',
    };
    crate::text::push_char(&mut r, c);
    let sb = decimal_text(s.stop_bits as u64);
    r.append(sb.as_str());
    r
}

/// `a` followed by `b`.
pub fn cat(a: &str, b: &str) -> (r: String)
    ensures
        r@ == a@ + b@,
{
    let mut r = String::from_str(a);
    r.append(b);
    r
}

/// `a`, `b` and `c` in a row.
pub fn cat3(a: &str, b: &str, c: &str) -> (r: String)
    ensures
        r@ == a@ + b@ + c@,
{
    let mut r = String::from_str(a);
    r.append(b);
    r.append(c);
    r
}


/// What `write_port` decides for the arguments `args`: the port and the
/// bytes to send, or the reply that refuses the request.
pub open spec fn write_decision(ports: Map<Seq<char>, PortSettings>, args: JsonV) -> Result<
    (Seq<char>, Seq<u8>),
    ResponseV,
> {
    match args.str_at("port"@) {
        None => Err(err_msg(port_required_msg())),
        Some(p) => match args.str_at("data"@) {
            None => Err(err_msg(data_required_msg())),
            Some(d) => match payload_bytes(d, args.str_at("encoding"@) == Some("hex"@)) {
                Err(e) => Err(err_msg(hex_failed_msg(e))),
                Ok(b) => if ports.contains_key(p) {
                    Ok((p, b))
                } else {
                    Err(err_msg(not_open_msg(p)))
                },
            },
        },
    }
}

/// The change of stop keyword that `update_log` arguments ask for: present
/// when the arguments carry `stopKeyword`; an empty or non-text keyword
/// clears it.
pub open spec fn keyword_update(args: JsonV) -> Option<Option<Seq<char>>> {
    if args.get("stopKeyword"@) is Some {
        Some(
            if args.str_at("stopKeyword"@) == Some(Seq::<char>::empty()) {
                None
            } else {
                args.str_at("stopKeyword"@)
            },
        )
    } else {
        None
    }
}

/// The parts of the reply to `update_log`: the keyword change, then the timer.
pub open spec fn update_parts(args: JsonV) -> Seq<Seq<char>> {
    let k: Seq<Seq<char>> = match keyword_update(args) {
        Some(kw) => seq![
            "키워드: "@ + match kw {
                Some(t) => t,
                None => "(해제)"@,
            },
        ],
        None => seq![],
    };
    let d: Seq<Seq<char>> = match args.u64_at("duration"@) {
        Some(secs) => seq!["타이머: "@ + decimal(secs) + "초"@],
        None => seq![],
    };
    k + d
}

/// A log as `port_status` shows it.
pub open spec fn log_json(l: Option<LogInfo>) -> JsonV {
    match l {
        None => JsonV::Null,
        Some(info) => JsonV::Object(
            seq![
                ("file"@, JsonV::Str(info.file)),
                ("stopKeyword"@, match info.keyword {
                    Some(k) => JsonV::Str(k),
                    None => JsonV::Null,
                }),
            ],
        ),
    }
}

/// A port as `port_status` shows it.
pub open spec fn status_entry(name: Seq<char>, s: PortSettings, subscribers: nat, l: Option<LogInfo>) -> JsonV {
    JsonV::Object(
        seq![
            ("port"@, JsonV::Str(name)),
            ("baudRate"@, JsonV::Num(s.baud_rate as nat)),
            ("config"@, JsonV::Str(config_text(s))),
            ("subscribers"@, JsonV::Num(subscribers)),
            ("log"@, log_json(l)),
        ],
    )
}

/// The notification that a port stopped delivering data.
pub open spec fn port_error_notification(port: Seq<char>, reason: Seq<char>) -> NotificationV {
    NotificationV {
        notify: "port_error"@,
        data: JsonV::Object(seq![("port"@, JsonV::Str(port)), ("error"@, JsonV::Str(reason))]),
    }
}

/// A running log as `port_status` shows it.
fn log_object<L>(l: &LogState<L>) -> (r: Json)
    ensures
        r@ == log_json(Some(LogInfo { file: l.file_path@, keyword: opt_view(l.stop_keyword) })),
{
    let kw = match &l.stop_keyword {
        Some(k) => Json::Str(k.clone()),
        None => Json::Null,
    };
    let ghost kwv = kw@;
    assert(kwv == (match opt_view(l.stop_keyword) {
        Some(k) => JsonV::Str(k),
        None => JsonV::Null,
    }));
    let mut lf: Vec<(String, Json)> = Vec::new();
    push_field(&mut lf, "file", Json::Str(l.file_path.clone()));
    push_field(&mut lf, "stopKeyword", kw);
    assert(fields_view(lf@) =~= seq![("file"@, JsonV::Str(l.file_path@)), ("stopKeyword"@, kwv)]);
    let ghost info = LogInfo { file: l.file_path@, keyword: opt_view(l.stop_keyword) };
    assert(log_json(Some(info))->Object_0 =~= fields_view(lf@));
    object_of(lf)
}

/// A port as `port_status` shows it.
fn status_object(name: &String, s: PortSettings, subscribers: u64, log_value: Json) -> (r: Json)
    ensures
        r@ == JsonV::Object(
            seq![
                ("port"@, JsonV::Str(name@)),
                ("baudRate"@, JsonV::Num(s.baud_rate as nat)),
                ("config"@, JsonV::Str(config_text(s))),
                ("subscribers"@, JsonV::Num(subscribers as nat)),
                ("log"@, log_value@),
            ],
        ),
{
    let ghost lv = log_value@;
    let cfg = config_string(s);
    let ghost cv = cfg@;
    let mut f: Vec<(String, Json)> = Vec::new();
    push_field(&mut f, "port", Json::Str(name.clone()));
    push_field(&mut f, "baudRate", Json::Num(s.baud_rate as u64));
    push_field(&mut f, "config", Json::Str(cfg));
    push_field(&mut f, "subscribers", Json::Num(subscribers));
    push_field(&mut f, "log", log_value);
    assert(fields_view(f@) =~= seq![
        ("port"@, JsonV::Str(name@)),
        ("baudRate"@, JsonV::Num(s.baud_rate as nat)),
        ("config"@, JsonV::Str(cv)),
        ("subscribers"@, JsonV::Num(subscribers as nat)),
        ("log"@, lv),
    ]);
    object_of(f)
}

/// The registry: open ports and running logs, by port name.
pub struct SerialManager<P, L> {
    ports: Table<OpenPort<P>>,
    logs: Table<LogState<L>>,
}

impl<P, L> SerialManager<P, L> {
    /// The open ports and their settings.
    pub closed spec fn ports(&self) -> Map<Seq<char>, PortSettings> {
        self.ports@.map_values(|p: OpenPort<P>| p.settings)
    }

    /// The caller's handle of each open port.
    pub closed spec fn port_handles(&self) -> Map<Seq<char>, P> {
        self.ports@.map_values(|p: OpenPort<P>| p.handle)
    }

    /// The open ports in the order they were opened.
    pub closed spec fn port_order(&self) -> Seq<Seq<char>> {
        self.ports.keys()
    }

    /// The running logs, by port.
    pub closed spec fn logs(&self) -> Map<Seq<char>, LogInfo> {
        self.logs@.map_values(
            |l: LogState<L>| LogInfo { file: l.file_path@, keyword: opt_view(l.stop_keyword) },
        )
    }

    /// The caller's handle of each running log.
    pub closed spec fn log_handles(&self) -> Map<Seq<char>, L> {
        self.logs@.map_values(|l: LogState<L>| l.handle)
    }

    /// The registry's invariant: a log runs only on an open port.
    pub closed spec fn wf(&self) -> bool {
        &&& self.ports.wf()
        &&& self.logs.wf()
        &&& self.logs@.dom().subset_of(self.ports@.dom())
    }

    /// The ports with a log are open.
    pub proof fn lemma_log_ports(&self)
        requires
            self.wf(),
        ensures
            forall|k: Seq<char>| #[trigger] self.logs().contains_key(k) ==> self.ports().contains_key(k),
    {
        assert forall|k: Seq<char>| #[trigger] self.logs().contains_key(k) implies self.ports().contains_key(k) by {
            assert(self.logs@.contains_key(k));
            assert(self.ports@.dom().contains(k));
        }
    }

    /// The open ports in order are exactly the open ports, each once.
    pub proof fn lemma_port_order(&self)
        requires
            self.wf(),
        ensures
            self.port_order().no_duplicates(),
            forall|k: Seq<char>| #[trigger] self.ports().contains_key(k) <==> self.port_order().contains(k),
    {
        self.ports.lemma_keys();
    }

    /// An empty registry.
    pub fn new() -> (m: SerialManager<P, L>)
        ensures
            m.wf(),
            m.ports() == Map::<Seq<char>, PortSettings>::empty(),
            m.logs() == Map::<Seq<char>, LogInfo>::empty(),
    {
        let m = SerialManager { ports: Table::new(), logs: Table::new() };
        assert(m.ports() =~= Map::<Seq<char>, PortSettings>::empty());
        assert(m.logs() =~= Map::<Seq<char>, LogInfo>::empty());
        m
    }

    /// Whether `port` is open.
    pub fn is_port_open(&self, port: &str) -> (r: bool)
        requires
            self.wf(),
        ensures
            r == self.ports().contains_key(port@),
    {
        self.ports.contains_key(port)
    }

    /// The names of the open ports, in the order they were opened.
    pub fn open_port_names(&self) -> (r: Vec<String>)
        requires
            self.wf(),
        ensures
            crate::text::views(r@) == self.port_order(),
    {
        let n = self.ports.len();
        let mut r: Vec<String> = Vec::new();
        let mut i: usize = 0;
        while i < n
            invariant
                self.wf(),
                n == self.port_order().len(),
                i <= n,
                crate::text::views(r@) == self.port_order().take(i as int),
            decreases n - i,
        {
            let ghost before = r@;
            let k = self.ports.key_at(i).clone();
            r.push(k);
            assert(crate::text::views(r@) =~= crate::text::views(before).push(self.port_order()[i as int]));
            i = i + 1;
            assert(crate::text::views(r@) =~= self.port_order().take(i as int));
        }
        assert(self.port_order().take(n as int) =~= self.port_order());
        r
    }

    /// The handle of an open port.
    pub fn port_handle(&self, port: &str) -> (r: Option<&P>)
        requires
            self.wf(),
        ensures
            match r {
                Some(h) => self.ports().contains_key(port@) && *h == self.port_handles()[port@],
                None => !self.ports().contains_key(port@),
            },
    {
        match self.ports.get(port) {
            Some(p) => Some(&p.handle),
            None => None,
        }
    }

    /// The handle of a running log.
    pub fn log_handle(&self, port: &str) -> (r: Option<&L>)
        requires
            self.wf(),
        ensures
            match r {
                Some(h) => self.logs().contains_key(port@) && *h == self.log_handles()[port@],
                None => !self.logs().contains_key(port@),
            },
    {
        match self.logs.get(port) {
            Some(l) => Some(&l.handle),
            None => None,
        }
    }

    /// The file of the log of `port`, if one runs.
    pub fn log_file(&self, port: &str) -> (r: Option<String>)
        requires
            self.wf(),
        ensures
            match r {
                Some(f) => self.logs().contains_key(port@) && f@ == self.logs()[port@].file,
                None => !self.logs().contains_key(port@),
            },
    {
        match self.logs.get(port) {
            Some(l) => Some(l.file_path.clone()),
            None => None,
        }
    }

    /// Decides `open_port`: the port named by the arguments and its
    /// settings, or the reply when the name is missing or the port is open
    /// already. Opening the device is the caller's; [`Self::finish_open`]
    /// records the outcome.
    pub fn open_port(&self, args: &Json) -> (r: Result<OpenRequest, Response>)
        requires
            self.wf(),
        ensures
            match args@.str_at("port"@) {
                None => r matches Err(e) && e@ == err_msg(port_required_msg()),
                Some(p) => if self.ports().contains_key(p) {
                    r matches Err(e) && e@ == err_msg(already_open_msg(p))
                } else {
                    r matches Ok(req) && req.port@ == p && req.settings == requested_settings(args@)
                },
            },
    {
        let port = match port_arg(args) {
            Ok(p) => p,
            Err(e) => return Err(e),
        };
        let settings = parse_settings(args);
        if self.ports.contains_key(port.as_str()) {
            return Err(Response::error(cat(port.as_str(), "는 이미 열려 있습니다.").as_str()));
        }
        Ok(OpenRequest { port, settings })
    }

    /// Records the outcome of opening a device: an opened port joins the
    /// registry with its handle; a failure leaves the registry as it was.
    pub fn finish_open(&mut self, req: OpenRequest, opened: Result<P, String>) -> (r: Response)
        requires
            old(self).wf(),
            !old(self).ports().contains_key(req.port@),
        ensures
            final(self).wf(),
            final(self).logs() == old(self).logs(),
            final(self).log_handles() == old(self).log_handles(),
            match opened {
                Ok(h) => {
                    &&& r@ == ok_msg(opened_msg(req.port@, req.settings))
                    &&& final(self).ports() == old(self).ports().insert(req.port@, req.settings)
                    &&& final(self).port_handles() == old(self).port_handles().insert(req.port@, h)
                    &&& final(self).port_order() == old(self).port_order().push(req.port@)
                },
                Err(e) => {
                    &&& r@ == err_msg(open_failed_msg(req.port@, e@))
                    &&& final(self).ports() == old(self).ports()
                    &&& final(self).port_handles() == old(self).port_handles()
                    &&& final(self).port_order() == old(self).port_order()
                },
            },
    {
        match opened {
            Err(e) => {
                let msg = cat3(req.port.as_str(), " 열기 실패: ", e.as_str());
                Response::error(msg.as_str())
            },
            Ok(h) => {
                let s = req.settings;
                let mut msg = cat(req.port.as_str(), " 열기 성공 (");
                let baud = decimal_text(s.baud_rate as u64);
                msg.append(baud.as_str());
                msg.append("bps, ");
                let cfg = config_string(s);
                msg.append(cfg.as_str());
                msg.append(")");
                let ghost name = req.port@;
                self.ports.insert(req.port, OpenPort { settings: s, handle: h });
                assert(self.ports() =~= old(self).ports().insert(name, s));
                assert(self.port_handles() =~= old(self).port_handles().insert(name, h));
                Response::success_msg(msg.as_str())
            },
        }
    }

    /// Decides `write_port`: the port and the bytes to send (the text of
    /// `data`, decoded from hexadecimal when `encoding` is "hex"), or the
    /// refusal. Writing is the caller's; [`write_result`] words the outcome.
    pub fn write_port(&self, args: &Json) -> (r: Result<(String, Vec<u8>), Response>)
        requires
            self.wf(),
        ensures
            match (r, write_decision(self.ports(), args@)) {
                (Ok((p, b)), Ok((sp, sb))) => p@ == sp && b@ == sb,
                (Err(e), Err(se)) => e@ == se,
                _ => false,
            },
    {
        let port = match port_arg(args) {
            Ok(p) => p,
            Err(e) => return Err(e),
        };
        let data = match args.str_at("data") {
            Some(d) => d,
            None => return Err(Response::error("data 파라미터가 필요합니다.")),
        };
        let as_hex = arg_is(args, "encoding", "hex");
        let bytes = match encode_payload(data.as_str(), as_hex) {
            Ok(b) => b,
            Err(e) => {
                let t = hex_error_message(e);
                return Err(Response::error(cat("HEX 디코딩 실패: ", t.as_str()).as_str()));
            },
        };
        if !self.ports.contains_key(port.as_str()) {
            return Err(Response::error(cat(port.as_str(), "가 열려 있지 않습니다.").as_str()));
        }
        Ok((port, bytes))
    }

    /// Decides `start_log`: the log to start on an open port without one,
    /// writing to `filePath` or else to `default_path`, or the refusal.
    /// Starting the tasks is the caller's; [`Self::finish_start_log`]
    /// records the log.
    pub fn start_log(&self, args: &Json, default_path: String) -> (r: Result<LogPlan, Response>)
        requires
            self.wf(),
        ensures
            match args@.str_at("port"@) {
                None => r matches Err(e) && e@ == err_msg(port_required_msg()),
                Some(p) => if !self.ports().contains_key(p) {
                    r matches Err(e) && e@ == err_msg(not_open_msg(p))
                } else if self.logs().contains_key(p) {
                    r matches Err(e) && e@ == err_msg(log_running_msg(p))
                } else {
                    r matches Ok(plan) && plan.port@ == p && plan.file_path@ == (match args@.str_at(
                        "filePath"@,
                    ) {
                        Some(f) => f,
                        None => default_path@,
                    }) && opt_view(plan.stop_keyword) == args@.str_at("stopKeyword"@) && (match plan.duration {
                        Some(d) => args@.u64_at("duration"@) == Some(d as nat),
                        None => args@.u64_at("duration"@) is None,
                    })
                },
            },
    {
        let port = match port_arg(args) {
            Ok(p) => p,
            Err(e) => return Err(e),
        };
        if !self.ports.contains_key(port.as_str()) {
            return Err(Response::error(cat(port.as_str(), "가 열려 있지 않습니다.").as_str()));
        }
        if self.logs.contains_key(port.as_str()) {
            return Err(Response::error(cat(port.as_str(), "의 로그가 이미 실행 중입니다.").as_str()));
        }
        let file_path = match args.str_at("filePath") {
            Some(f) => f,
            None => default_path,
        };
        let stop_keyword = args.str_at("stopKeyword");
        let duration = args.u64_at("duration");
        Ok(LogPlan { port, file_path, stop_keyword, duration })
    }

    /// Records a started log.
    pub fn finish_start_log(&mut self, plan: LogPlan, handle: L) -> (r: Response)
        requires
            old(self).wf(),
            old(self).ports().contains_key(plan.port@),
            !old(self).logs().contains_key(plan.port@),
        ensures
            final(self).wf(),
            r@ == ok_msg(log_started_msg(plan.port@, plan.file_path@)),
            final(self).ports() == old(self).ports(),
            final(self).port_handles() == old(self).port_handles(),
            final(self).port_order() == old(self).port_order(),
            final(self).logs() == old(self).logs().insert(
                plan.port@,
                LogInfo { file: plan.file_path@, keyword: opt_view(plan.stop_keyword) },
            ),
            final(self).log_handles() == old(self).log_handles().insert(plan.port@, handle),
    {
        let msg = cat3(plan.port.as_str(), " 로그 시작: ", plan.file_path.as_str());
        let ghost name = plan.port@;
        let ghost info = LogInfo { file: plan.file_path@, keyword: opt_view(plan.stop_keyword) };
        self.logs.insert(plan.port, LogState { file_path: plan.file_path, stop_keyword: plan.stop_keyword, handle });
        assert(self.logs() =~= old(self).logs().insert(name, info));
        assert(self.log_handles() =~= old(self).log_handles().insert(name, handle));
        assert(self.logs@.dom() =~= old(self).logs@.dom().insert(name));
        assert(old(self).ports@.dom() =~= old(self).ports().dom());
        Response::success_msg(msg.as_str())
    }

    /// Answers `update_log`: changes the stop keyword (when `stopKeyword` is
    /// given; an empty one clears it) and restarts the timer (when
    /// `duration` is given) of the port's running log. Tells the caller what
    /// to change in the running log.
    pub fn update_log(&mut self, args: &Json) -> (r: (Response, LogUpdate))
        requires
            old(self).wf(),
        ensures
            final(self).wf(),
            final(self).ports() == old(self).ports(),
            final(self).port_handles() == old(self).port_handles(),
            final(self).port_order() == old(self).port_order(),
            final(self).log_handles() == old(self).log_handles(),
            match args@.str_at("port"@) {
                None => r.0@ == err_msg(port_required_msg()) && final(self).logs() == old(self).logs()
                    && r.1.stop_keyword is None && r.1.duration is None,
                Some(p) => if !old(self).logs().contains_key(p) {
                    r.0@ == err_msg(no_log_msg(p)) && final(self).logs() == old(self).logs()
                        && r.1.stop_keyword is None && r.1.duration is None
                } else if update_parts(args@).len() == 0 {
                    r.0@ == err_msg(nothing_to_update_msg()) && final(self).logs() == old(self).logs()
                        && r.1.stop_keyword is None && r.1.duration is None
                } else {
                    &&& r.0@ == ok_msg(p + " 로그 업데이트: "@ + joined(update_parts(args@), ", "@))
                    &&& final(self).logs() == match keyword_update(args@) {
                        Some(kw) => old(self).logs().insert(
                            p,
                            LogInfo { file: old(self).logs()[p].file, keyword: kw },
                        ),
                        None => old(self).logs(),
                    }
                    &&& (match r.1.stop_keyword {
                        Some(kw) => keyword_update(args@) == Some(opt_view(kw)),
                        None => keyword_update(args@) is None,
                    })
                    &&& (match r.1.duration {
                        Some(d) => args@.u64_at("duration"@) == Some(d as nat),
                        None => args@.u64_at("duration"@) is None,
                    })
                },
            },
    {
        let none = LogUpdate { stop_keyword: None, duration: None };
        let port = match port_arg(args) {
            Ok(p) => p,
            Err(e) => return (e, none),
        };
        if !self.logs.contains_key(port.as_str()) {
            return (Response::error(cat(port.as_str(), "의 활성 로그가 없습니다.").as_str()), none);
        }
        let mut parts: Vec<String> = Vec::new();
        let kw_update: Option<Option<String>> = if args.has("stopKeyword") {
            let new_kw = match args.str_at("stopKeyword") {
                Some(t) => if t.unicode_len() == 0 {
                    assert(t@ =~= Seq::<char>::empty());
                    None
                } else {
                    Some(t)
                },
                None => None,
            };
            assert(Some(opt_view(new_kw)) == keyword_update(args@));
            let mut part = String::from_str("키워드: ");
            match &new_kw {
                Some(t) => part.append(t.as_str()),
                None => part.append("(해제)"),
            }
            parts.push(part);
            Some(new_kw)
        } else {
            None
        };
        assert(crate::text::views(parts@) =~= match keyword_update(args@) {
            Some(kw) => seq![
                "키워드: "@ + match kw {
                    Some(t) => t,
                    None => "(해제)"@,
                },
            ],
            None => Seq::<Seq<char>>::empty(),
        });
        let duration = args.u64_at("duration");
        match duration {
            Some(secs) => {
                let mut part = String::from_str("타이머: ");
                let d = decimal_text(secs);
                part.append(d.as_str());
                part.append("초");
                parts.push(part);
            },
            None => {},
        }
        assert(crate::text::views(parts@) =~= update_parts(args@));
        if parts.len() == 0 {
            return (Response::error("업데이트할 파라미터가 없습니다. (stopKeyword, duration)"), none);
        }
        let ghost old_logs = self.logs();
        match &kw_update {
            Some(kw) => {
                let entry = self.logs.remove(port.as_str()).unwrap();
                let ghost info = LogInfo { file: entry.file_path@, keyword: opt_view(*kw) };
                self.logs.insert(
                    port.clone(),
                    LogState { file_path: entry.file_path, stop_keyword: kw.clone(), handle: entry.handle },
                );
                assert(self.logs() =~= old_logs.insert(port@, info));
                assert(self.log_handles() =~= old(self).log_handles());
                assert(self.logs@.dom() =~= old(self).logs@.dom());
            },
            None => {},
        }
        let mut msg = cat(port.as_str(), " 로그 업데이트: ");
        let joined_parts = crate::text::join_from(&parts, 0, ", ");
        assert(crate::text::views(parts@).skip(0) =~= crate::text::views(parts@));
        msg.append(joined_parts.as_str());
        (Response::success_msg(msg.as_str()), LogUpdate { stop_keyword: kw_update, duration })
    }

    /// Answers `stop_log`: stops the port's log and replies with the port
    /// and the log's file. Hands out the log's handle.
    pub fn stop_log(&mut self, args: &Json) -> (r: (Response, Option<L>))
        requires
            old(self).wf(),
        ensures
            final(self).wf(),
            final(self).ports() == old(self).ports(),
            final(self).port_handles() == old(self).port_handles(),
            final(self).port_order() == old(self).port_order(),
            match args@.str_at("port"@) {
                None => r.0@ == err_msg(port_required_msg()) && r.1 is None && final(self).logs()
                    == old(self).logs(),
                Some(p) => {
                    &&& final(self).logs() == old(self).logs().remove(p)
                    &&& final(self).log_handles() == old(self).log_handles().remove(p)
                    &&& if old(self).logs().contains_key(p) {
                        &&& r.0@ == ok_data(
                            JsonV::Object(
                                seq![("port"@, JsonV::Str(p)), ("file"@, JsonV::Str(old(self).logs()[p].file))],
                            ),
                        )
                        &&& r.1 == Some(old(self).log_handles()[p])
                    } else {
                        r.0@ == err_msg(no_log_msg(p)) && r.1 is None
                    }
                },
            },
    {
        let port = match port_arg(args) {
            Ok(p) => p,
            Err(e) => return (e, None),
        };
        match self.stop_log_internal(port.as_str()) {
            Some((file, h)) => {
                let mut fields: Vec<(String, Json)> = Vec::new();
                let ghost pv = port@;
                let ghost fv = file@;
                push_field(&mut fields, "port", Json::Str(port));
                push_field(&mut fields, "file", Json::Str(file));
                assert(fields_view(fields@) =~= seq![("port"@, JsonV::Str(pv)), ("file"@, JsonV::Str(fv))]);
                let data = object_of(fields);
                (Response::success(data), Some(h))
            },
            None => (Response::error(cat(port.as_str(), "의 활성 로그가 없습니다.").as_str()), None),
        }
    }

    /// The log of `port` as the registry knows it, if one runs.
    pub open spec fn log_of(&self, port: Seq<char>) -> Option<LogInfo> {
        if self.logs().contains_key(port) {
            Some(self.logs()[port])
        } else {
            None
        }
    }

    /// The entries of a `port_status` reply: every open port, in the order
    /// of opening, with its rate, setting, number of receivers
    /// (`subscribers[i]` for the `i`-th port) and log.
    pub open spec fn status_entries(&self, subscribers: Seq<u64>) -> Seq<JsonV> {
        Seq::new(
            self.port_order().len(),
            |i: int|
                status_entry(
                    self.port_order()[i],
                    self.ports()[self.port_order()[i]],
                    subscribers[i] as nat,
                    self.log_of(self.port_order()[i]),
                ),
        )
    }

    /// Answers `port_status`: every open port, in the order of opening, with
    /// its rate, setting, number of receivers (`subscribers[i]` for the
    /// `i`-th port) and log.
    pub fn port_status(&self, subscribers: &Vec<u64>) -> (r: Response)
        requires
            self.wf(),
            subscribers@.len() == self.port_order().len(),
        ensures
            r@ == ok_data(JsonV::Array(self.status_entries(subscribers@))),
    {
        let n = self.ports.len();
        let mut items: Vec<Json> = Vec::new();
        let mut i: usize = 0;
        while i < n
            invariant
                self.wf(),
                n == self.port_order().len(),
                subscribers@.len() == n,
                i <= n,
                items@.len() == i,
                forall|j: int|
                    0 <= j < i ==> (#[trigger] items@[j])@ == status_entry(
                        self.port_order()[j],
                        self.ports()[self.port_order()[j]],
                        subscribers@[j] as nat,
                        self.log_of(self.port_order()[j]),
                    ),
            decreases n - i,
        {
            let name = self.ports.key_at(i);
            let op = self.ports.value_at(i);
            proof {
                self.ports.lemma_keys();
                assert(self.ports.keys().contains(name@));
                assert(self.ports@.contains_key(name@));
            }
            let s = op.settings;
            let log_value = match self.logs.get(name.as_str()) {
                Some(l) => {
                    assert(self.logs().contains_key(name@));
                    assert(self.logs()[name@] == LogInfo { file: l.file_path@, keyword: opt_view(l.stop_keyword) });
                    log_object(l)
                },
                None => Json::Null,
            };
            assert(log_value@ == log_json(self.log_of(name@)));
            assert(self.ports()[name@] == s);
            let item = status_object(name, s, subscribers[i], log_value);
            items.push(item);
            i = i + 1;
        }
        let data = Json::Array(items);
        assert(data@->Array_0 =~= self.status_entries(subscribers@));
        Response::success(data)
    }

    /// Closes everything: empties the registry and hands out every log's and
    /// every port's handle, each with its port, in registry order.
    pub fn close_all(&mut self) -> (r: (Vec<(String, L)>, Vec<(String, P)>))
        requires
            old(self).wf(),
        ensures
            final(self).wf(),
            final(self).ports() == Map::<Seq<char>, PortSettings>::empty(),
            final(self).logs() == Map::<Seq<char>, LogInfo>::empty(),
            r.0@.len() == old(self).logs().dom().len(),
            forall|i: int|
                0 <= i < r.0@.len() ==> old(self).log_handles().contains_key(#[trigger] r.0@[i].0@)
                    && r.0@[i].1 == old(self).log_handles()[r.0@[i].0@],
            crate::text::views(r.1@.map_values(|e: (String, P)| e.0)) == old(self).port_order(),
            forall|i: int|
                0 <= i < r.1@.len() ==> #[trigger] r.1@[i].1 == old(self).port_handles()[r.1@[i].0@],
    {
        proof {
            self.logs.lemma_keys();
            assert(old(self).logs().dom() =~= old(self).logs@.dom());
        }
        let logs = self.logs.drain_all();
        let ports = self.ports.drain_all();
        let mut log_handles: Vec<(String, L)> = Vec::new();
        let mut port_handles: Vec<(String, P)> = Vec::new();
        let mut logs = logs;
        let nl = logs.len();
        let ghost all_logs = logs@;
        let mut i: usize = 0;
        while i < nl
            invariant
                nl == all_logs.len(),
                i <= nl,
                logs@ == all_logs.skip(i as int),
                log_handles@.len() == i,
                forall|j: int|
                    0 <= j < i ==> (#[trigger] log_handles@[j]).0@ == all_logs[j].0@ && log_handles@[j].1
                        == all_logs[j].1.handle,
            decreases nl - i,
        {
            let e = logs.remove(0);
            log_handles.push((e.0, e.1.handle));
            i = i + 1;
            assert(logs@ =~= all_logs.skip(i as int));
        }
        let mut ports = ports;
        let np = ports.len();
        let ghost all_ports = ports@;
        let mut i: usize = 0;
        while i < np
            invariant
                np == all_ports.len(),
                i <= np,
                ports@ == all_ports.skip(i as int),
                port_handles@.len() == i,
                forall|j: int|
                    0 <= j < i ==> (#[trigger] port_handles@[j]).0 == all_ports[j].0 && port_handles@[j].1
                        == all_ports[j].1.handle,
            decreases np - i,
        {
            let e = ports.remove(0);
            port_handles.push((e.0, e.1.handle));
            i = i + 1;
            assert(ports@ =~= all_ports.skip(i as int));
        }
        assert(self.ports() =~= Map::<Seq<char>, PortSettings>::empty());
        assert(self.logs() =~= Map::<Seq<char>, LogInfo>::empty());
        assert(crate::text::views(port_handles@.map_values(|e: (String, P)| e.0)) =~= old(self).port_order());
        assert forall|i: int| 0 <= i < port_handles@.len() implies #[trigger] port_handles@[i].1
            == old(self).port_handles()[port_handles@[i].0@] by {
            assert(all_ports[i].0@ == old(self).ports.keys()[i]);
            assert(old(self).ports@.contains_key(all_ports[i].0@)) by {
                old(self).ports.lemma_keys();
            }
        }
        assert forall|i: int| 0 <= i < log_handles@.len() implies old(self).log_handles().contains_key(
            #[trigger] log_handles@[i].0@) && log_handles@[i].1 == old(self).log_handles()[log_handles@[i].0@] by {
            assert(all_logs[i].0@ == old(self).logs.keys()[i]);
            assert(old(self).logs@.contains_key(all_logs[i].0@)) by {
                old(self).logs.lemma_keys();
            }
        }
        (log_handles, port_handles)
    }

    /// Handles a port whose reading ended: stops its log, removes the port,
    /// and gives the `port_error` notification for the clients. Hands out
    /// the handles of what was stopped and removed.
    pub fn port_lost(&mut self, port: &str, end: ReadEnd) -> (r: (Option<L>, Option<P>, Notification))
        requires
            old(self).wf(),
        ensures
            final(self).wf(),
            final(self).ports() == old(self).ports().remove(port@),
            final(self).port_handles() == old(self).port_handles().remove(port@),
            final(self).logs() == old(self).logs().remove(port@),
            final(self).log_handles() == old(self).log_handles().remove(port@),
            r.0 == if old(self).logs().contains_key(port@) {
                Some(old(self).log_handles()[port@])
            } else {
                None
            },
            r.1 == if old(self).ports().contains_key(port@) {
                Some(old(self).port_handles()[port@])
            } else {
                None
            },
            r.2@ == port_error_notification(port@, read_end_text(end)),
    {
        let log = match self.stop_log_internal(port) {
            Some((_f, h)) => Some(h),
            None => None,
        };
        let removed = self.ports.remove(port);
        assert(self.logs@.dom() =~= self.logs().dom());
        assert(old(self).logs@.dom() =~= old(self).logs().dom());
        assert(self.logs@.dom().subset_of(self.ports@.dom()));
        assert(self.ports() =~= old(self).ports().remove(port@));
        assert(self.port_handles() =~= old(self).port_handles().remove(port@));
        let reason = match end {
            ReadEnd::Disconnected => String::from_str("장치 연결 해제"),
            ReadEnd::Failed(t) => cat("읽기 오류: ", t.as_str()),
        };
        let mut f: Vec<(String, Json)> = Vec::new();
        let ghost rv = reason@;
        push_field(&mut f, "port", Json::string(port));
        push_field(&mut f, "error", Json::Str(reason));
        assert(fields_view(f@) =~= seq![("port"@, JsonV::Str(port@)), ("error"@, JsonV::Str(rv))]);
        let n = Notification { notify: String::from_str("port_error"), data: object_of(f) };
        let handle = match removed {
            Some(op) => Some(op.handle),
            None => None,
        };
        (log, handle, n)
    }

    /// Stops the log of `port`, if one runs: hands out its file and handle.
    pub fn stop_log_internal(&mut self, port: &str) -> (r: Option<(String, L)>)
        requires
            old(self).wf(),
        ensures
            final(self).wf(),
            final(self).ports() == old(self).ports(),
            final(self).port_handles() == old(self).port_handles(),
            final(self).port_order() == old(self).port_order(),
            final(self).logs() == old(self).logs().remove(port@),
            final(self).log_handles() == old(self).log_handles().remove(port@),
            match r {
                Some((f, h)) => old(self).logs().contains_key(port@) && f@ == old(self).logs()[port@].file
                    && h == old(self).log_handles()[port@],
                None => !old(self).logs().contains_key(port@),
            },
    {
        let r = self.logs.remove(port);
        assert(self.logs() =~= old(self).logs().remove(port@));
        assert(self.log_handles() =~= old(self).log_handles().remove(port@));
        match r {
            Some(l) => Some((l.file_path, l.handle)),
            None => None,
        }
    }

    /// Ends a log that stopped by itself (its time ran out, or its keyword
    /// came): the log of `port` leaves the registry if it is the one writing
    /// to `file`, and its handle is handed out. Any other state is left as it
    /// is, so that a log started again after a stop is not ended by the old
    /// one's timer.
    pub fn end_log(&mut self, port: &str, file: &str) -> (r: Option<L>)
        requires
            old(self).wf(),
        ensures
            final(self).wf(),
            final(self).ports() == old(self).ports(),
            final(self).port_handles() == old(self).port_handles(),
            final(self).port_order() == old(self).port_order(),
            if old(self).logs().contains_key(port@) && old(self).logs()[port@].file == file@ {
                &&& final(self).logs() == old(self).logs().remove(port@)
                &&& final(self).log_handles() == old(self).log_handles().remove(port@)
                &&& r == Some(old(self).log_handles()[port@])
            } else {
                &&& final(self).logs() == old(self).logs()
                &&& final(self).log_handles() == old(self).log_handles()
                &&& r is None
            },
    {
        let current = match self.logs.get(port) {
            Some(l) => same_text(l.file_path.as_str(), file),
            None => false,
        };
        if !current {
            return None;
        }
        match self.stop_log_internal(port) {
            Some((_, h)) => Some(h),
            None => None,
        }
    }

    /// Answers `close_port`: stops the port's log, if any, and removes the
    /// port. Hands out the handles of what was stopped and closed.
    pub fn close_port(&mut self, args: &Json) -> (r: (Response, Option<L>, Option<P>))
        requires
            old(self).wf(),
        ensures
            final(self).wf(),
            match args@.str_at("port"@) {
                None => r.0@ == err_msg(port_required_msg()) && r.1 is None && r.2 is None
                    && final(self).ports() == old(self).ports() && final(self).logs() == old(self).logs(),
                Some(p) => {
                    &&& final(self).ports() == old(self).ports().remove(p)
                    &&& final(self).port_handles() == old(self).port_handles().remove(p)
                    &&& final(self).logs() == old(self).logs().remove(p)
                    &&& final(self).log_handles() == old(self).log_handles().remove(p)
                    &&& (match r.1 {
                        Some(h) => old(self).logs().contains_key(p) && h == old(self).log_handles()[p],
                        None => !old(self).logs().contains_key(p),
                    })
                    &&& if old(self).ports().contains_key(p) {
                        r.0@ == ok_msg(closed_msg(p)) && r.2 == Some(old(self).port_handles()[p])
                    } else {
                        r.0@ == err_msg(not_open_msg(p)) && r.2 is None
                    }
                },
            },
    {
        let port = match port_arg(args) {
            Ok(p) => p,
            Err(e) => return (e, None, None),
        };
        let log = match self.stop_log_internal(port.as_str()) {
            Some((_f, h)) => Some(h),
            None => None,
        };
        let removed = self.ports.remove(port.as_str());
        assert(self.logs@.dom() =~= self.logs().dom());
        assert(old(self).logs@.dom() =~= old(self).logs().dom());
        assert(self.logs@.dom().subset_of(self.ports@.dom()));
        assert(self.ports() =~= old(self).ports().remove(port@));
        assert(self.port_handles() =~= old(self).port_handles().remove(port@));
        match removed {
            Some(op) => (Response::success_msg(cat(port.as_str(), " 닫기 성공").as_str()), log, Some(op.handle)),
            None => (Response::error(cat(port.as_str(), "가 열려 있지 않습니다.").as_str()), log, None),
        }
    }
}


/// What the system reports of a USB serial device.
pub struct UsbInfo {
    pub vid: u16,
    pub pid: u16,
    pub serial_number: Option<String>,
    pub manufacturer: Option<String>,
    pub product: Option<String>,
}

/// A serial port that the system offers.
pub struct PortInfo {
    pub port_name: String,
    /// Present for USB devices.
    pub usb: Option<UsbInfo>,
}

/// The members of a port in the `list_ports` reply: its path and, for a USB
/// device, the manufacturer, product and serial number that it reports and
/// its vendor and product ids as four upper-case hexadecimal digits.
pub open spec fn port_info_fields(p: PortInfo) -> Seq<(Seq<char>, JsonV)> {
    let path = seq![("path"@, JsonV::Str(p.port_name@))];
    match p.usb {
        None => path,
        Some(u) => {
            let m: Seq<(Seq<char>, JsonV)> = match u.manufacturer {
                Some(t) => seq![("manufacturer"@, JsonV::Str(t@))],
                None => seq![],
            };
            let pr: Seq<(Seq<char>, JsonV)> = match u.product {
                Some(t) => seq![("product"@, JsonV::Str(t@))],
                None => seq![],
            };
            let sn: Seq<(Seq<char>, JsonV)> = match u.serial_number {
                Some(t) => seq![("serialNumber"@, JsonV::Str(t@))],
                None => seq![],
            };
            path + m + pr + sn + seq![
                ("vendorId"@, JsonV::Str(crate::text::hex4_upper(u.vid))),
                ("productId"@, JsonV::Str(crate::text::hex4_upper(u.pid))),
            ]
        },
    }
}

/// Law: each port of the `list_ports` reply carries, under its own name,
/// what the system reported: `path` its name, and for a USB device
/// `manufacturer`, `product` and `serialNumber` exactly when reported, and
/// its vendor and product ids in hexadecimal.
pub proof fn law_port_info_members(p: PortInfo)
    ensures
        ({
            let o = JsonV::Object(port_info_fields(p));
            &&& o.str_at("path"@) == Some(p.port_name@)
            &&& match p.usb {
                None => o.get("manufacturer"@) is None && o.get("product"@) is None && o.get(
                    "serialNumber"@,
                ) is None && o.get("vendorId"@) is None && o.get("productId"@) is None,
                Some(u) => {
                    &&& o.str_at("manufacturer"@) == opt_view(u.manufacturer)
                    &&& o.str_at("product"@) == opt_view(u.product)
                    &&& o.str_at("serialNumber"@) == opt_view(u.serial_number)
                    &&& o.str_at("vendorId"@) == Some(crate::text::hex4_upper(u.vid))
                    &&& o.str_at("productId"@) == Some(crate::text::hex4_upper(u.pid))
                },
            }
        }),
{
    reveal_strlit("path");
    reveal_strlit("manufacturer");
    reveal_strlit("product");
    reveal_strlit("serialNumber");
    reveal_strlit("vendorId");
    reveal_strlit("productId");
    let f = port_info_fields(p);
    let keys = seq!["path"@, "manufacturer"@, "product"@, "serialNumber"@, "vendorId"@, "productId"@];
    assert forall|a: int, b: int| 0 <= a < 6 && 0 <= b < 6 && a != b implies #[trigger] keys[a]
        != #[trigger] keys[b] by {
        assert("path"@.len() != "manufacturer"@.len());
        assert("path"@.len() != "product"@.len());
        assert("path"@.len() != "serialNumber"@.len());
        assert("path"@.len() != "vendorId"@.len());
        assert("path"@.len() != "productId"@.len());
        assert("manufacturer"@.len() != "product"@.len());
        assert("manufacturer"@[0] != "serialNumber"@[0]);
        assert("manufacturer"@.len() != "vendorId"@.len());
        assert("manufacturer"@.len() != "productId"@.len());
        assert("product"@.len() != "serialNumber"@.len());
        assert("product"@.len() != "vendorId"@.len());
        assert("product"@.len() != "productId"@.len());
        assert("serialNumber"@.len() != "vendorId"@.len());
        assert("serialNumber"@.len() != "productId"@.len());
        assert("vendorId"@.len() != "productId"@.len());
    }
    match p.usb {
        None => {
            assert(f.len() == 1 && f[0].0 == keys[0]);
            crate::json::lemma_get_at(f, 0);
            crate::json::lemma_get_missing(f, keys[1]);
            crate::json::lemma_get_missing(f, keys[2]);
            crate::json::lemma_get_missing(f, keys[3]);
            crate::json::lemma_get_missing(f, keys[4]);
            crate::json::lemma_get_missing(f, keys[5]);
        },
        Some(u) => {
            let m: Seq<(Seq<char>, JsonV)> = match u.manufacturer {
                Some(t) => seq![("manufacturer"@, JsonV::Str(t@))],
                None => seq![],
            };
            let pr: Seq<(Seq<char>, JsonV)> = match u.product {
                Some(t) => seq![("product"@, JsonV::Str(t@))],
                None => seq![],
            };
            let sn: Seq<(Seq<char>, JsonV)> = match u.serial_number {
                Some(t) => seq![("serialNumber"@, JsonV::Str(t@))],
                None => seq![],
            };
            let ids = seq![
                ("vendorId"@, JsonV::Str(crate::text::hex4_upper(u.vid))),
                ("productId"@, JsonV::Str(crate::text::hex4_upper(u.pid))),
            ];
            let path = seq![("path"@, JsonV::Str(p.port_name@))];
            assert(f == path + m + pr + sn + ids);
            let n1: int = 1 + m.len() as int;
            let n2: int = n1 + pr.len();
            let n3: int = n2 + sn.len();
            // The rank among `keys` of the name of member `i`; each rank
            // holds at most one member.
            let r = |i: int|
                if i == 0 {
                    0int
                } else if i < n1 {
                    1int
                } else if i < n2 {
                    2int
                } else if i < n3 {
                    3int
                } else if i == n3 {
                    4int
                } else {
                    5int
                };
            assert forall|i: int| 0 <= i < f.len() implies 0 <= r(i) < 6 && #[trigger] f[i].0 == keys[r(i)] by {}
            assert forall|i: int, j: int| 0 <= j < i < f.len() implies #[trigger] f[j].0 != #[trigger] f[i].0 by {
                assert(f[i].0 == keys[r(i)]);
                assert(f[j].0 == keys[r(j)]);
                assert(r(j) < r(i));
            }
            // Where each name stands, or that it is missing.
            assert(f[0] == ("path"@, JsonV::Str(p.port_name@)));
            crate::json::lemma_get_at(f, 0);
            assert(f[n3] == ("vendorId"@, JsonV::Str(crate::text::hex4_upper(u.vid))));
            crate::json::lemma_get_at(f, n3);
            assert(f[n3 + 1] == ("productId"@, JsonV::Str(crate::text::hex4_upper(u.pid))));
            crate::json::lemma_get_at(f, n3 + 1);
            match u.manufacturer {
                Some(t) => {
                    assert(f[1] == ("manufacturer"@, JsonV::Str(t@)));
                    crate::json::lemma_get_at(f, 1);
                },
                None => {
                    assert forall|j: int| 0 <= j < f.len() implies #[trigger] f[j].0 != keys[1] by {
                        assert(f[j].0 == keys[r(j)]);
                    }
                    crate::json::lemma_get_missing(f, keys[1]);
                },
            }
            match u.product {
                Some(t) => {
                    assert(f[n1] == ("product"@, JsonV::Str(t@)));
                    crate::json::lemma_get_at(f, n1);
                },
                None => {
                    assert forall|j: int| 0 <= j < f.len() implies #[trigger] f[j].0 != keys[2] by {
                        assert(f[j].0 == keys[r(j)]);
                    }
                    crate::json::lemma_get_missing(f, keys[2]);
                },
            }
            match u.serial_number {
                Some(t) => {
                    assert(f[n2] == ("serialNumber"@, JsonV::Str(t@)));
                    crate::json::lemma_get_at(f, n2);
                },
                None => {
                    assert forall|j: int| 0 <= j < f.len() implies #[trigger] f[j].0 != keys[3] by {
                        assert(f[j].0 == keys[r(j)]);
                    }
                    crate::json::lemma_get_missing(f, keys[3]);
                },
            }
        },
    }
}

/// One port of the `list_ports` reply.
pub fn port_info_object(p: &PortInfo) -> (r: Json)
    ensures
        r@ == JsonV::Object(port_info_fields(*p)),
{
    let mut f: Vec<(String, Json)> = Vec::new();
    push_field(&mut f, "path", Json::Str(p.port_name.clone()));
    match &p.usb {
        None => {},
        Some(u) => {
            match &u.manufacturer {
                Some(t) => push_field(&mut f, "manufacturer", Json::Str(t.clone())),
                None => {},
            }
            match &u.product {
                Some(t) => push_field(&mut f, "product", Json::Str(t.clone())),
                None => {},
            }
            match &u.serial_number {
                Some(t) => push_field(&mut f, "serialNumber", Json::Str(t.clone())),
                None => {},
            }
            push_field(&mut f, "vendorId", Json::Str(crate::text::hex4_upper_text(u.vid)));
            push_field(&mut f, "productId", Json::Str(crate::text::hex4_upper_text(u.pid)));
        },
    }
    assert(fields_view(f@) =~= port_info_fields(*p));
    object_of(f)
}

/// Answers `list_ports` from what the system reported: the ports, in the
/// system's order, or the failure.
pub fn list_ports(found: Result<Vec<PortInfo>, String>) -> (r: Response)
    ensures
        match found {
            Ok(ps) => r@ == ok_data(
                JsonV::Array(Seq::new(ps@.len(), |i: int| JsonV::Object(port_info_fields(ps@[i])))),
            ),
            Err(e) => r@ == err_msg("포트 목록 조회 실패: "@ + e@),
        },
{
    match found {
        Err(e) => Response::error(cat("포트 목록 조회 실패: ", e.as_str()).as_str()),
        Ok(ps) => {
            let mut items: Vec<Json> = Vec::new();
            let mut i: usize = 0;
            while i < ps.len()
                invariant
                    i <= ps@.len(),
                    items@.len() == i,
                    forall|j: int| 0 <= j < i ==> (#[trigger] items@[j])@ == JsonV::Object(port_info_fields(ps@[j])),
                decreases ps@.len() - i,
            {
                items.push(port_info_object(&ps[i]));
                i = i + 1;
            }
            let ghost want = Seq::new(ps@.len(), |i: int| JsonV::Object(port_info_fields(ps@[i])));
            let data = Json::Array(items);
            assert(data@->Array_0 =~= want);
            Response::success(data)
        },
    }
}

/// Law: the `port_status` reply lists every open port exactly once, and
/// nothing else; an empty registry lists nothing.
pub proof fn law_status_lists_open_ports<P, L>(m: &SerialManager<P, L>, subscribers: Seq<u64>)
    requires
        m.wf(),
        subscribers.len() == m.port_order().len(),
    ensures
        m.status_entries(subscribers).len() == m.port_order().len(),
        forall|i: int|
            0 <= i < m.port_order().len() ==> (#[trigger] m.status_entries(subscribers)[i])->Object_0[0] == (
            "port"@,
            JsonV::Str(m.port_order()[i]),
        ),
        m.port_order().no_duplicates(),
        forall|k: Seq<char>| #[trigger] m.ports().contains_key(k) <==> m.port_order().contains(k),
        m.ports().is_empty() ==> m.status_entries(subscribers).len() == 0,
{
    m.lemma_port_order();
    if m.ports().is_empty() && m.port_order().len() > 0 {
        assert(m.port_order().contains(m.port_order()[0]));
        assert(m.ports().contains_key(m.port_order()[0]));
    }
}

/// Law: a log runs only on an open port.
pub proof fn law_logs_need_open_ports<P, L>(m: &SerialManager<P, L>)
    requires
        m.wf(),
    ensures
        forall|k: Seq<char>| #[trigger] m.logs().contains_key(k) ==> m.ports().contains_key(k),
{
    m.lemma_log_ports();
}

/// Law: closing a port that was just opened gives back the registry from
/// before the opening: the same open ports and the same logs.
pub proof fn law_close_undoes_open<P, L>(m: &SerialManager<P, L>, port: Seq<char>, s: PortSettings)
    requires
        m.wf(),
        !m.ports().contains_key(port),
    ensures
        m.ports().insert(port, s).remove(port) == m.ports(),
        m.logs().remove(port) == m.logs(),
{
    m.lemma_log_ports();
    assert(m.ports().insert(port, s).remove(port) =~= m.ports());
    assert(m.logs().remove(port) =~= m.logs());
}

/// Law: stopping a log that was started hands back the file it was started
/// with, and leaves the logs as they were before the start.
pub proof fn law_stop_gives_started_file(logs: Map<Seq<char>, LogInfo>, port: Seq<char>, info: LogInfo)
    requires
        !logs.contains_key(port),
    ensures
        logs.insert(port, info).contains_key(port),
        logs.insert(port, info)[port].file == info.file,
        logs.insert(port, info).remove(port) == logs,
{
    assert(logs.insert(port, info).remove(port) =~= logs);
}

/// Law: an empty stop keyword clears the keyword, and the reply says so.
pub proof fn law_empty_keyword_clears(args: JsonV)
    requires
        args.str_at("stopKeyword"@) == Some(Seq::<char>::empty()),
    ensures
        keyword_update(args) == Some(Option::<Seq<char>>::None),
        update_parts(args)[0] == "키워드: "@ + "(해제)"@,
{
}

/// Law: the letter after the data bits in a setting's short form names the
/// parity, `N` for none, `E` for even and `O` for odd; so two settings that
/// differ only in parity have different short forms.
pub proof fn law_config_names_parity(s: PortSettings, t: PortSettings)
    ensures
        config_text(s)[decimal(s.data_bits as nat).len() as int] == match s.parity {
            Parity::Disabled => 'N',
            Parity::Even => 'E',
            Parity::Odd => 'O',
        },
        s.data_bits == t.data_bits && s.stop_bits == t.stop_bits && s.parity != t.parity ==> config_text(s)
            != config_text(t),
{
    let k = decimal(s.data_bits as nat).len() as int;
    assert(config_text(s)[k] == parity_letter(s.parity));
    if s.data_bits == t.data_bits && s.stop_bits == t.stop_bits && s.parity != t.parity {
        assert(config_text(t)[k] == parity_letter(t.parity));
        assert(parity_letter(s.parity) != parity_letter(t.parity));
    }
}

/// Law: an `update_log` whose arguments have no `stopKeyword` member does
/// not touch the stop keyword (the running log keeps it, and the log task is
/// told no new one), and its reply names no keyword: its one part, if any,
/// is the timer, there exactly when a duration is given.
pub proof fn law_update_without_keyword(args: JsonV)
    requires
        args.get("stopKeyword"@) is None,
    ensures
        keyword_update(args) is None,
        update_parts(args).len() == if args.u64_at("duration"@) is Some {
            1int
        } else {
            0int
        },
        forall|i: int|
            0 <= i < update_parts(args).len() ==> (#[trigger] update_parts(args)[i])[0] != "키워드: "@[0],
{
    reveal_strlit("키워드: ");
    reveal_strlit("타이머: ");
    let parts = update_parts(args);
    assert forall|i: int| 0 <= i < parts.len() implies (#[trigger] parts[i])[0] != "키워드: "@[0] by {
        let d = args.u64_at("duration"@)->0;
        assert(parts[i] == "타이머: "@ + decimal(d) + "초"@);
        assert(parts[i][0] == "타이머: "@[0]);
    }
}

/// Law: without settings in its arguments a port opens at 115200 baud, 8N1.
pub proof fn law_default_settings(args: JsonV)
    requires
        args.get("baudRate"@) is None,
        args.get("dataBits"@) is None,
        args.get("parity"@) is None,
        args.get("stopBits"@) is None,
    ensures
        requested_settings(args) == (PortSettings { baud_rate: 115200, data_bits: 8, parity: Parity::Disabled, stop_bits: 1 }),
        config_text(requested_settings(args)) == seq!['8', 'N', '1'],
{
    let s = requested_settings(args);
    assert(decimal(8) == seq![digit_char(8)]);
    assert(digit_char(8) == '8');
    assert(decimal(1) == seq![digit_char(1)]);
    assert(digit_char(1) == '1');
    assert(config_text(s) =~= seq!['8', 'N', '1']);
}

/// Words the outcome of writing `n` bytes to `port`.
pub fn write_result(port: &str, n: usize, outcome: Result<(), String>) -> (r: Response)
    ensures
        match outcome {
            Ok(_) => r@ == ok_msg(written_msg(port@, n as nat)),
            Err(e) => r@ == err_msg(write_failed_msg(port@, e@)),
        },
{
    match outcome {
        Ok(_) => {
            let mut msg = cat(port, " 전송 완료 (");
            let d = decimal_text(n as u64);
            msg.append(d.as_str());
            msg.append(" 바이트)");
            Response::success_msg(msg.as_str())
        },
        Err(e) => Response::error(cat3(port, " 전송 실패: ", e.as_str()).as_str()),
    }
}

} // verus!
