//! The interactive client's command language: a typed line becomes a request
//! for the daemon, a usage hint, or nothing.

use vstd::prelude::*;
use vstd::string::*;
use crate::json::{fields_set, law_get_after_set, law_get_other_after_set, Json, JsonV};
use crate::serial::{requested_settings, Parity, PortSettings};
use crate::text::{joined, parse_bounded, parse_unsigned, same_text, split_words, views, words};

verus! {

pub const USAGE_OPEN: &'static str = "사용법: open <포트> [baud] [8N1]";
pub const USAGE_CLOSE: &'static str = "사용법: close <포트>";
pub const USAGE_WRITE: &'static str = "사용법: write <포트> <데이터> [--hex]";
pub const USAGE_READ: &'static str = "사용법: read <포트>";
pub const USAGE_LOG: &'static str = "사용법: log start|stop|update <포트> [옵션]";
pub const USAGE_LOG_START: &'static str = "사용법: log start <포트> [--duration N] [--keyword K] [--file F]";
pub const USAGE_LOG_STOP: &'static str = "사용법: log stop <포트>";
pub const USAGE_LOG_UPDATE: &'static str = "사용법: log update <포트> [--keyword K] [--duration N]";
pub const USAGE_LOG_OTHER: &'static str = "사용법: log start|stop|update <포트>";
pub const USAGE_MONITOR: &'static str = "사용법: monitor start|stop [--port N]";
pub const USAGE_MONITOR_OTHER: &'static str = "사용법: monitor start|stop";

/// What the client says after a line that yields no request.
pub const UNKNOWN_COMMAND_HINT: &'static str = "알 수 없는 명령입니다. 'help'를 입력하세요.";

/// The baud rate of `open` when none is given.
pub const DEFAULT_BAUD: u64 = 115200;

/// What a typed command line becomes.
pub enum CommandParse {
    /// A request to send to the daemon.
    Send(Json),
    /// The command is known but lacks arguments: a usage hint to show.
    Usage(String),
    /// Nothing that the client knows.
    Unrecognized,
}

/// The mathematical value of a [`CommandParse`].
pub enum CommandParseV {
    Send(JsonV),
    Usage(Seq<char>),
    Unrecognized,
}

impl CommandParse {
    pub open spec fn view(&self) -> CommandParseV {
        match self {
            CommandParse::Send(j) => CommandParseV::Send(j@),
            CommandParse::Usage(u) => CommandParseV::Usage(u@),
            CommandParse::Unrecognized => CommandParseV::Unrecognized,
        }
    }
}

/// A request with a command name and no arguments.
pub open spec fn cmd_json(cmd: Seq<char>) -> JsonV {
    JsonV::Object(seq![("cmd"@, JsonV::Str(cmd))])
}

/// A request with a command name and an argument object.
pub open spec fn cmd_args_json(cmd: Seq<char>, args: Seq<(Seq<char>, JsonV)>) -> JsonV {
    JsonV::Object(seq![("cmd"@, JsonV::Str(cmd)), ("args"@, JsonV::Object(args))])
}

/// Arguments naming one port.
pub open spec fn port_args(port: Seq<char>) -> Seq<(Seq<char>, JsonV)> {
    seq![("port"@, JsonV::Str(port))]
}

/// The parity named by the middle letter of a `8N1`-style setting.
pub open spec fn parity_name(c: char) -> Seq<char> {
    if c == 'E' || c == 'e' {
        "even"@
    } else if c == 'O' || c == 'o' {
        "odd"@
    } else {
        "none"@
    }
}

/// The arguments of `open <port> [baud] [8N1]`.
pub open spec fn open_args(p: Seq<Seq<char>>) -> Seq<(Seq<char>, JsonV)> {
    let baud: nat = if p.len() > 2 && parse_unsigned(p[2], u64::MAX as nat) is Some {
        parse_unsigned(p[2], u64::MAX as nat)->0
    } else {
        DEFAULT_BAUD as nat
    };
    let base = seq![("port"@, JsonV::Str(p[1])), ("baudRate"@, JsonV::Num(baud))];
    if p.len() > 3 && p[3].len() == 3 {
        let c = p[3];
        fields_set(
            fields_set(
                fields_set(base, "dataBits"@, JsonV::Str(seq![c[0]])),
                "parity"@,
                JsonV::Str(parity_name(c[1])),
            ),
            "stopBits"@,
            JsonV::Str(seq![c[2]]),
        )
    } else {
        base
    }
}

/// The options `--duration N`, `--keyword K` and `--file F` of a `log`
/// command, read from `flags[i..]` into `fields`; a later option overrides an
/// earlier one, an option without its value (or a duration that is no number)
/// is skipped, and any other word is ignored.
pub open spec fn log_flags(flags: Seq<Seq<char>>, i: int, fields: Seq<(Seq<char>, JsonV)>) -> Seq<
    (Seq<char>, JsonV),
>
    decreases flags.len() - i,
{
    if i < 0 || i >= flags.len() {
        fields
    } else if flags[i] == "--duration"@ {
        if i + 1 < flags.len() && parse_unsigned(flags[i + 1], u64::MAX as nat) is Some {
            log_flags(
                flags,
                i + 2,
                fields_set(
                    fields,
                    "duration"@,
                    JsonV::Num(parse_unsigned(flags[i + 1], u64::MAX as nat)->0),
                ),
            )
        } else {
            log_flags(flags, i + 1, fields)
        }
    } else if flags[i] == "--keyword"@ {
        if i + 1 < flags.len() {
            log_flags(flags, i + 2, fields_set(fields, "stopKeyword"@, JsonV::Str(flags[i + 1])))
        } else {
            log_flags(flags, i + 1, fields)
        }
    } else if flags[i] == "--file"@ {
        if i + 1 < flags.len() {
            log_flags(flags, i + 2, fields_set(fields, "filePath"@, JsonV::Str(flags[i + 1])))
        } else {
            log_flags(flags, i + 1, fields)
        }
    } else {
        log_flags(flags, i + 1, fields)
    }
}

/// The position of the first word equal to `w`.
pub open spec fn first_index_of(p: Seq<Seq<char>>, w: Seq<char>) -> Option<int>
    decreases p.len(),
{
    if p.len() == 0 {
        None
    } else {
        match first_index_of(p.drop_last(), w) {
            Some(i) => Some(i),
            None => if p.last() == w {
                Some(p.len() - 1)
            } else {
                None
            },
        }
    }
}

/// The arguments of `monitor start [--port N]`.
pub open spec fn monitor_args(p: Seq<Seq<char>>) -> Seq<(Seq<char>, JsonV)> {
    match first_index_of(p, "--port"@) {
        Some(idx) => if idx + 1 < p.len() && parse_unsigned(p[idx + 1], u16::MAX as nat) is Some {
            seq![("httpPort"@, JsonV::Num(parse_unsigned(p[idx + 1], u16::MAX as nat)->0))]
        } else {
            seq![]
        },
        None => seq![],
    }
}

/// What the words `p` of a command line stand for.
pub open spec fn command_of(p: Seq<Seq<char>>) -> CommandParseV {
    if p.len() == 0 {
        CommandParseV::Unrecognized
    } else if p[0] == "list"@ || p[0] == "ls"@ {
        CommandParseV::Send(cmd_json("list_ports"@))
    } else if p[0] == "open"@ {
        if p.len() < 2 {
            CommandParseV::Usage(USAGE_OPEN@)
        } else {
            CommandParseV::Send(cmd_args_json("open_port"@, open_args(p)))
        }
    } else if p[0] == "close"@ {
        if p.len() < 2 {
            CommandParseV::Usage(USAGE_CLOSE@)
        } else {
            CommandParseV::Send(cmd_args_json("close_port"@, port_args(p[1])))
        }
    } else if p[0] == "write"@ || p[0] == "send"@ {
        if p.len() < 3 {
            CommandParseV::Usage(USAGE_WRITE@)
        } else if p[2] == "--hex"@ {
            CommandParseV::Send(
                cmd_args_json(
                    "write_port"@,
                    seq![
                        ("port"@, JsonV::Str(p[1])),
                        ("data"@, JsonV::Str(joined(p.skip(3), ""@))),
                        ("encoding"@, JsonV::Str("hex"@)),
                    ],
                ),
            )
        } else {
            CommandParseV::Send(
                cmd_args_json(
                    "write_port"@,
                    seq![("port"@, JsonV::Str(p[1])), ("data"@, JsonV::Str(joined(p.skip(2), " "@)))],
                ),
            )
        }
    } else if p[0] == "read"@ {
        if p.len() < 2 {
            CommandParseV::Usage(USAGE_READ@)
        } else {
            CommandParseV::Send(cmd_args_json("read_port"@, port_args(p[1])))
        }
    } else if p[0] == "log"@ {
        if p.len() < 2 {
            CommandParseV::Usage(USAGE_LOG@)
        } else if p[1] == "start"@ {
            if p.len() < 3 {
                CommandParseV::Usage(USAGE_LOG_START@)
            } else {
                CommandParseV::Send(
                    cmd_args_json("start_log"@, log_flags(p.skip(3), 0, port_args(p[2]))),
                )
            }
        } else if p[1] == "stop"@ {
            if p.len() < 3 {
                CommandParseV::Usage(USAGE_LOG_STOP@)
            } else {
                CommandParseV::Send(cmd_args_json("stop_log"@, port_args(p[2])))
            }
        } else if p[1] == "update"@ {
            if p.len() < 3 {
                CommandParseV::Usage(USAGE_LOG_UPDATE@)
            } else {
                CommandParseV::Send(
                    cmd_args_json("update_log"@, log_flags(p.skip(3), 0, port_args(p[2]))),
                )
            }
        } else {
            CommandParseV::Usage(USAGE_LOG_OTHER@)
        }
    } else if p[0] == "status"@ {
        CommandParseV::Send(cmd_json("port_status"@))
    } else if p[0] == "monitor"@ {
        if p.len() < 2 {
            CommandParseV::Usage(USAGE_MONITOR@)
        } else if p[1] == "start"@ {
            CommandParseV::Send(cmd_args_json("open_monitor"@, monitor_args(p)))
        } else if p[1] == "stop"@ {
            CommandParseV::Send(cmd_json("close_monitor"@))
        } else {
            CommandParseV::Usage(USAGE_MONITOR_OTHER@)
        }
    } else {
        CommandParseV::Unrecognized
    }
}

/// Whether word `i` of `p` is `lit`.
fn word_is(p: &Vec<String>, i: usize, lit: &str) -> (r: bool)
    requires
        i < p@.len(),
    ensures
        r == (p@[i as int]@ == lit@),
{
    same_text(p[i].as_str(), lit)
}

/// A one-member object.
fn object1(key: &str, value: Json) -> (r: Json)
    ensures
        r@ == JsonV::Object(seq![(key@, value@)]),
{
    let mut v: Vec<(String, Json)> = Vec::new();
    v.push((String::from_str(key), value));
    let r = Json::Object(v);
    assert(r@->Object_0 =~= seq![(key@, value@)]);
    r
}

/// A request with a command name and no arguments.
fn cmd_request(cmd: &str) -> (r: Json)
    ensures
        r@ == cmd_json(cmd@),
{
    object1("cmd", Json::string(cmd))
}

/// A two-member object.
fn object2(k1: &str, v1: Json, k2: &str, v2: Json) -> (r: Json)
    ensures
        r@ == JsonV::Object(seq![(k1@, v1@), (k2@, v2@)]),
{
    let mut v: Vec<(String, Json)> = Vec::new();
    v.push((String::from_str(k1), v1));
    v.push((String::from_str(k2), v2));
    let r = Json::Object(v);
    assert(r@->Object_0 =~= seq![(k1@, v1@), (k2@, v2@)]);
    r
}

/// A three-member object.
fn object3(k1: &str, v1: Json, k2: &str, v2: Json, k3: &str, v3: Json) -> (r: Json)
    ensures
        r@ == JsonV::Object(seq![(k1@, v1@), (k2@, v2@), (k3@, v3@)]),
{
    let mut v: Vec<(String, Json)> = Vec::new();
    v.push((String::from_str(k1), v1));
    v.push((String::from_str(k2), v2));
    v.push((String::from_str(k3), v3));
    let r = Json::Object(v);
    assert(r@->Object_0 =~= seq![(k1@, v1@), (k2@, v2@), (k3@, v3@)]);
    r
}

/// A request with a command name and arguments.
fn cmd_args_request(cmd: &str, args: Json) -> (r: Json)
    requires
        args@ is Object,
    ensures
        r@ == cmd_args_json(cmd@, args@->Object_0),
{
    object2("cmd", Json::string(cmd), "args", args)
}

/// Arguments naming one port.
fn port_object(port: &String) -> (r: Json)
    ensures
        r@ == JsonV::Object(port_args(port@)),
{
    object1("port", Json::Str(port.clone()))
}

/// Reads the options of a `log` command (`--duration N`, `--keyword K`,
/// `--file F`) from `flags` into the argument object `args`.
pub fn parse_log_flags(flags: &Vec<String>, args: &mut Json)
    requires
        old(args)@ is Object,
    ensures
        final(args)@ == JsonV::Object(log_flags(views(flags@), 0, old(args)@->Object_0)),
{
    let ghost f = views(flags@);
    let n = flags.len();
    let mut i: usize = 0;
    while i < n
        invariant
            n == flags@.len(),
            f == views(flags@),
            i <= n,
            args@ is Object,
            log_flags(f, 0, old(args)@->Object_0) == log_flags(f, i as int, args@->Object_0),
        decreases n - i,
    {
        let ghost cur = args@->Object_0;
        if same_text(flags[i].as_str(), "--duration") {
            if i + 1 < n {
                let v = parse_bounded(flags[i + 1].as_str(), u64::MAX);
                match v {
                    Some(d) => {
                        args.set("duration", Json::Num(d));
                        i = i + 1;
                    },
                    None => {},
                }
            }
        } else if same_text(flags[i].as_str(), "--keyword") {
            if i + 1 < n {
                args.set("stopKeyword", Json::Str(flags[i + 1].clone()));
                i = i + 1;
            }
        } else if same_text(flags[i].as_str(), "--file") {
            if i + 1 < n {
                args.set("filePath", Json::Str(flags[i + 1].clone()));
                i = i + 1;
            }
        }
        i = i + 1;
    }
}

/// The words of `p` from position `from` on.
fn tail_words(p: &Vec<String>, from: usize) -> (r: Vec<String>)
    requires
        from <= p@.len(),
    ensures
        views(r@) == views(p@).skip(from as int),
{
    let mut r: Vec<String> = Vec::new();
    let mut i: usize = from;
    while i < p.len()
        invariant
            from <= i <= p@.len(),
            views(r@) == views(p@).subrange(from as int, i as int),
        decreases p@.len() - i,
    {
        let ghost before = r@;
        let w = p[i].clone();
        r.push(w);
        assert(r@ == before.push(w));
        assert(views(r@) =~= views(before).push(p@[i as int]@));
        i = i + 1;
        assert(views(r@) =~= views(p@).subrange(from as int, i as int));
    }
    assert(views(p@).subrange(from as int, p@.len() as int) =~= views(p@).skip(from as int));
    r
}


/// The parity word for the middle letter of a `8N1`-style setting.
fn parity_text(c: char) -> (r: &'static str)
    ensures
        r@ == parity_name(c),
{
    if c == 'E' || c == 'e' {
        "even"
    } else if c == 'O' || c == 'o' {
        "odd"
    } else {
        "none"
    }
}

/// A one-character string.
fn char_string(c: char) -> (r: String)
    ensures
        r@ == seq![c],
{
    let mut r = String::new();
    crate::text::push_char(&mut r, c);
    assert(r@ =~= seq![c]);
    r
}

/// The arguments of `open <port> [baud] [8N1]`.
fn open_object(p: &Vec<String>) -> (r: Json)
    requires
        p@.len() >= 2,
    ensures
        r@ == JsonV::Object(open_args(views(p@))),
{
    let ghost w = views(p@);
    let n = p.len();
    let baud: u64 = if n > 2 {
        match parse_bounded(p[2].as_str(), u64::MAX) {
            Some(v) => v,
            None => DEFAULT_BAUD,
        }
    } else {
        DEFAULT_BAUD
    };
    let mut args = object2("port", Json::Str(p[1].clone()), "baudRate", Json::Num(baud));
    if n > 3 {
        let cs = crate::text::chars_of(p[3].as_str());
        if cs.len() == 3 {
            args.set("dataBits", Json::Str(char_string(cs[0])));
            args.set("parity", Json::string(parity_text(cs[1])));
            args.set("stopBits", Json::Str(char_string(cs[2])));
        }
    }
    args
}

/// The position of the first word equal to `lit`.
fn find_word(p: &Vec<String>, lit: &str) -> (r: Option<usize>)
    ensures
        match r {
            Some(i) => i < p@.len() && first_index_of(views(p@), lit@) == Some(i as int),
            None => first_index_of(views(p@), lit@) is None,
        },
{
    let ghost w = views(p@);
    let mut i: usize = 0;
    while i < p.len()
        invariant
            i <= p@.len(),
            w == views(p@),
            first_index_of(w.take(i as int), lit@) is None,
        decreases p@.len() - i,
    {
        let ghost t = w.take(i + 1);
        assert(t.drop_last() == w.take(i as int));
        if word_is(p, i, lit) {
            proof {
                lemma_first_index_prefix(w, i as int + 1, lit@);
            }
            return Some(i);
        }
        i = i + 1;
    }
    assert(w.take(p@.len() as int) == w);
    None
}

/// A first occurrence within a prefix is the first occurrence overall.
proof fn lemma_first_index_prefix(w: Seq<Seq<char>>, k: int, lit: Seq<char>)
    requires
        0 <= k <= w.len(),
        first_index_of(w.take(k), lit) is Some,
    ensures
        first_index_of(w, lit) == first_index_of(w.take(k), lit),
    decreases w.len() - k,
{
    if k < w.len() {
        let t = w.take(k + 1);
        assert(t.drop_last() == w.take(k));
        lemma_first_index_prefix(w, k + 1, lit);
    } else {
        assert(w.take(k) == w);
    }
}

/// The arguments of `monitor start [--port N]`.
fn monitor_object(p: &Vec<String>) -> (r: Json)
    ensures
        r@ == JsonV::Object(monitor_args(views(p@))),
{
    let mut args = Json::Object(Vec::new());
    assert(args@->Object_0 =~= Seq::<(Seq<char>, JsonV)>::empty());
    match find_word(p, "--port") {
        Some(idx) => {
            let n = p.len();
            if idx < n - 1 {
                match parse_bounded(p[idx + 1].as_str(), u16::MAX as u64) {
                    Some(v) => {
                        args = object1("httpPort", Json::Num(v));
                    },
                    None => {},
                }
            }
        },
        None => {},
    }
    args
}

/// The baud rate that `open <port> [baud]` asks for.
pub open spec fn open_baud(p: Seq<Seq<char>>) -> nat {
    if p.len() > 2 && parse_unsigned(p[2], u64::MAX as nat) is Some {
        parse_unsigned(p[2], u64::MAX as nat)->0
    } else {
        DEFAULT_BAUD as nat
    }
}

/// The settings that an `open` command line means: its baud rate (taken
/// modulo 2^32) and its `8N1`-style setting, read letter by letter.
pub open spec fn open_settings(p: Seq<Seq<char>>) -> PortSettings {
    let has_cfg = p.len() > 3 && p[3].len() == 3;
    PortSettings {
        baud_rate: (open_baud(p) % 0x1_0000_0000) as u32,
        data_bits: if has_cfg && p[3][0] == '5' {
            5
        } else if has_cfg && p[3][0] == '6' {
            6
        } else if has_cfg && p[3][0] == '7' {
            7
        } else {
            8
        },
        parity: if has_cfg && (p[3][1] == 'E' || p[3][1] == 'e') {
            Parity::Even
        } else if has_cfg && (p[3][1] == 'O' || p[3][1] == 'o') {
            Parity::Odd
        } else {
            Parity::Disabled
        },
        stop_bits: if has_cfg && p[3][2] == '2' {
            2
        } else {
            1
        },
    }
}

/// Law: the port that the client's `open` command asks for is opened by the
/// daemon with the baud rate and the `8N1`-style setting that were typed.
pub proof fn law_open_command_settings(p: Seq<Seq<char>>)
    requires
        p.len() >= 2,
        p[0] == "open"@,
    ensures
        command_of(p) == CommandParseV::Send(cmd_args_json("open_port"@, open_args(p))),
        requested_settings(JsonV::Object(open_args(p))) == open_settings(p),
{
    reveal_strlit("open");
    reveal_strlit("list");
    reveal_strlit("ls");
    reveal_strlit("port");
    reveal_strlit("baudRate");
    reveal_strlit("dataBits");
    reveal_strlit("parity");
    reveal_strlit("stopBits");
    reveal_strlit("5");
    reveal_strlit("6");
    reveal_strlit("7");
    reveal_strlit("2");
    reveal_strlit("even");
    reveal_strlit("odd");
    reveal_strlit("none");
    assert("open"@[0] != "list"@[0]);
    assert("open"@.len() != "ls"@.len());
    let base = seq![("port"@, JsonV::Str(p[1])), ("baudRate"@, JsonV::Num(open_baud(p)))];
    assert("port"@.len() != "baudRate"@.len());
    assert("port"@.len() != "dataBits"@.len());
    assert("port"@.len() != "parity"@.len());
    assert("port"@.len() != "stopBits"@.len());
    assert("baudRate"@[0] != "dataBits"@[0]);
    assert("baudRate"@.len() != "parity"@.len());
    assert("baudRate"@[0] != "stopBits"@[0]);
    assert("dataBits"@.len() != "parity"@.len());
    assert("dataBits"@[0] != "stopBits"@[0]);
    assert("parity"@.len() != "stopBits"@.len());
    assert(JsonV::Object(base).get("baudRate"@) == Some(JsonV::Num(open_baud(p)))) by {
        crate::json::lemma_field_index(base, "baudRate"@);
    }
    let s = requested_settings(JsonV::Object(open_args(p)));
    let want = open_settings(p);
    if p.len() > 3 && p[3].len() == 3 {
        let c = p[3];
        let f1 = fields_set(base, "dataBits"@, JsonV::Str(seq![c[0]]));
        let f2 = fields_set(f1, "parity"@, JsonV::Str(parity_name(c[1])));
        let f3 = fields_set(f2, "stopBits"@, JsonV::Str(seq![c[2]]));
        law_get_after_set(base, "dataBits"@, JsonV::Str(seq![c[0]]));
        law_get_other_after_set(base, "dataBits"@, JsonV::Str(seq![c[0]]), "baudRate"@);
        law_get_after_set(f1, "parity"@, JsonV::Str(parity_name(c[1])));
        law_get_other_after_set(f1, "parity"@, JsonV::Str(parity_name(c[1])), "baudRate"@);
        law_get_other_after_set(f1, "parity"@, JsonV::Str(parity_name(c[1])), "dataBits"@);
        law_get_after_set(f2, "stopBits"@, JsonV::Str(seq![c[2]]));
        law_get_other_after_set(f2, "stopBits"@, JsonV::Str(seq![c[2]]), "baudRate"@);
        law_get_other_after_set(f2, "stopBits"@, JsonV::Str(seq![c[2]]), "dataBits"@);
        law_get_other_after_set(f2, "stopBits"@, JsonV::Str(seq![c[2]]), "parity"@);
        assert(open_args(p) == f3);
        assert("5"@ =~= seq!['5']);
        assert("6"@ =~= seq!['6']);
        assert("7"@ =~= seq!['7']);
        assert("2"@ =~= seq!['2']);
        assert("none"@[0] != "even"@[0]);
        assert("none"@.len() != "odd"@.len());
        assert("even"@.len() != "odd"@.len());
        let obj = JsonV::Object(f3);
        assert(obj.get("baudRate"@) == Some(JsonV::Num(open_baud(p))));
        assert(obj.str_at("dataBits"@) == Some(seq![c[0]]));
        assert(obj.str_at("parity"@) == Some(parity_name(c[1])));
        assert(obj.str_at("stopBits"@) == Some(seq![c[2]]));
        assert(s.baud_rate == want.baud_rate);
        assert(seq![c[0]][0] == c[0]);
        assert(seq![c[2]][0] == c[2]);
        if c[0] == '5' {
            assert(seq![c[0]] =~= "5"@);
        } else if c[0] == '6' {
            assert(seq![c[0]] =~= "6"@);
        } else if c[0] == '7' {
            assert(seq![c[0]] =~= "7"@);
        }
        if c[2] == '2' {
            assert(seq![c[2]] =~= "2"@);
        }
        assert(s.data_bits == want.data_bits);
        assert(s.parity == want.parity);
        assert(s.stop_bits == want.stop_bits);
        assert(s == want);
    } else {
        assert(open_args(p) == base);
        crate::json::lemma_field_index(base, "dataBits"@);
        crate::json::lemma_field_index(base, "parity"@);
        crate::json::lemma_field_index(base, "stopBits"@);
        assert(s == want);
    }
}

/// Law: a port opened with `open P B c`, where `c` is an `8N1`-style setting
/// (data bits 5 to 8, parity N, E or O, stop bits 1 or 2), is reported by
/// the daemon with the short form `c` as typed.
pub proof fn law_typed_config_is_reported(p: Seq<Seq<char>>)
    requires
        p.len() > 3,
        p[0] == "open"@,
        p[3].len() == 3,
        '5' <= p[3][0] <= '8',
        p[3][1] == 'N' || p[3][1] == 'E' || p[3][1] == 'O',
        p[3][2] == '1' || p[3][2] == '2',
    ensures
        crate::serial::config_text(requested_settings(JsonV::Object(open_args(p)))) == p[3],
{
    law_open_command_settings(p);
    let s = open_settings(p);
    let c = p[3];
    let db = s.data_bits as nat;
    let sb = s.stop_bits as nat;
    assert(crate::text::decimal(db) == seq![crate::text::digit_char(db)]);
    assert(crate::text::decimal(sb) == seq![crate::text::digit_char(sb)]);
    assert(crate::text::digit_char(db) == c[0]);
    assert(crate::text::digit_char(sb) == c[2]);
    assert(crate::serial::parity_letter(s.parity) == c[1]);
    assert(crate::serial::config_text(s) =~= c);
}

/// Member `key` of the request that a command line sends, if it sends one.
pub open spec fn sent_member(c: CommandParseV, key: Seq<char>) -> Option<JsonV> {
    match c {
        CommandParseV::Send(j) => j.get(key),
        _ => None,
    }
}

/// The members of a request with a command name and arguments.
proof fn lemma_request_members(cmd: Seq<char>, args: Seq<(Seq<char>, JsonV)>)
    ensures
        cmd_args_json(cmd, args).get("cmd"@) == Some(JsonV::Str(cmd)),
        cmd_args_json(cmd, args).get("args"@) == Some(JsonV::Object(args)),
{
    reveal_strlit("cmd");
    reveal_strlit("args");
    let f = seq![("cmd"@, JsonV::Str(cmd)), ("args"@, JsonV::Object(args))];
    assert("cmd"@.len() != "args"@.len());
    crate::json::lemma_get_at(f, 0);
    crate::json::lemma_get_at(f, 1);
}

/// The command of a `log` line is the `log` command.
proof fn lemma_log_line(p: Seq<Seq<char>>)
    requires
        p.len() >= 3,
        p[0] == "log"@,
    ensures
        p[0] != "list"@ && p[0] != "ls"@ && p[0] != "open"@ && p[0] != "close"@,
        p[0] != "write"@ && p[0] != "send"@ && p[0] != "read"@,
{
    reveal_strlit("log");
    reveal_strlit("list");
    reveal_strlit("ls");
    reveal_strlit("open");
    reveal_strlit("close");
    reveal_strlit("write");
    reveal_strlit("send");
    reveal_strlit("read");
    assert("log"@.len() != "list"@.len());
    assert("log"@.len() != "ls"@.len());
    assert("log"@.len() != "open"@.len());
    assert("log"@.len() != "close"@.len());
    assert("log"@.len() != "write"@.len());
    assert("log"@.len() != "send"@.len());
    assert("log"@.len() != "read"@.len());
}

/// Law: `log update P w1..wk` sends the arguments that `log start P w1..wk`
/// sends (the port, and the options read from the same words by the same
/// reader), under `update_log`; in particular `log update P --keyword K`
/// carries the port `P` and the stop keyword `K`.
pub proof fn law_log_update_reads_flags(port: Seq<char>, flags: Seq<Seq<char>>, k: Seq<char>)
    ensures
        sent_member(command_of(seq!["log"@, "update"@, port] + flags), "cmd"@) == Some(
            JsonV::Str("update_log"@),
        ),
        sent_member(command_of(seq!["log"@, "start"@, port] + flags), "cmd"@) == Some(
            JsonV::Str("start_log"@),
        ),
        sent_member(command_of(seq!["log"@, "update"@, port] + flags), "args"@) == sent_member(
            command_of(seq!["log"@, "start"@, port] + flags),
            "args"@,
        ),
        ({
            let a = sent_member(command_of(seq!["log"@, "update"@, port, "--keyword"@, k]), "args"@);
            &&& a is Some
            &&& a->0.str_at("port"@) == Some(port)
            &&& a->0.str_at("stopKeyword"@) == Some(k)
        }),
{
    reveal_strlit("update");
    reveal_strlit("start");
    reveal_strlit("stop");
    let u = seq!["log"@, "update"@, port] + flags;
    let s = seq!["log"@, "start"@, port] + flags;
    lemma_log_line(u);
    lemma_log_line(s);
    assert(u.len() >= 3 && u[1] == "update"@ && u[2] == port);
    assert(s.len() >= 3 && s[1] == "start"@ && s[2] == port);
    assert("update"@.len() != "start"@.len());
    assert("update"@.len() != "stop"@.len());
    assert(u.skip(3) =~= flags);
    assert(s.skip(3) =~= flags);
    let a = log_flags(flags, 0, port_args(port));
    assert(command_of(u) == CommandParseV::Send(cmd_args_json("update_log"@, a)));
    assert(command_of(s) == CommandParseV::Send(cmd_args_json("start_log"@, a)));
    lemma_request_members("update_log"@, a);
    lemma_request_members("start_log"@, a);

    let w = seq!["log"@, "update"@, port, "--keyword"@, k];
    lemma_log_line(w);
    let wf = seq!["--keyword"@, k];
    assert(w.skip(3) =~= wf);
    reveal_strlit("--keyword");
    reveal_strlit("--duration");
    reveal_strlit("port");
    reveal_strlit("stopKeyword");
    assert("--keyword"@.len() != "--duration"@.len());
    let set = fields_set(port_args(port), "stopKeyword"@, JsonV::Str(k));
    assert(log_flags(wf, 0, port_args(port)) == log_flags(wf, 2, set));
    assert(log_flags(wf, 0, port_args(port)) == set);
    lemma_request_members("update_log"@, set);
    law_get_after_set(port_args(port), "stopKeyword"@, JsonV::Str(k));
    assert("port"@.len() != "stopKeyword"@.len());
    law_get_other_after_set(port_args(port), "stopKeyword"@, JsonV::Str(k), "port"@);
    crate::json::lemma_get_at(port_args(port), 0);
}

/// What a typed command line stands for: a request to send, a usage hint
/// for a known command that lacks arguments, or nothing recognised.
pub fn parse_command(input: &str) -> (r: CommandParse)
    ensures
        r@ == command_of(words(input@)),
{
    let p = split_words(input);
    let ghost w = views(p@);
    let n = p.len();
    if n == 0 {
        return CommandParse::Unrecognized;
    }
    if word_is(&p, 0, "list") || word_is(&p, 0, "ls") {
        CommandParse::Send(cmd_request("list_ports"))
    } else if word_is(&p, 0, "open") {
        if n < 2 {
            CommandParse::Usage(String::from_str(USAGE_OPEN))
        } else {
            CommandParse::Send(cmd_args_request("open_port", open_object(&p)))
        }
    } else if word_is(&p, 0, "close") {
        if n < 2 {
            CommandParse::Usage(String::from_str(USAGE_CLOSE))
        } else {
            CommandParse::Send(cmd_args_request("close_port", port_object(&p[1])))
        }
    } else if word_is(&p, 0, "write") || word_is(&p, 0, "send") {
        if n < 3 {
            CommandParse::Usage(String::from_str(USAGE_WRITE))
        } else if word_is(&p, 2, "--hex") {
            let data = crate::text::join_from(&p, 3, "");
            CommandParse::Send(
                cmd_args_request(
                    "write_port",
                    object3(
                        "port",
                        Json::Str(p[1].clone()),
                        "data",
                        Json::Str(data),
                        "encoding",
                        Json::string("hex"),
                    ),
                ),
            )
        } else {
            let data = crate::text::join_from(&p, 2, " ");
            CommandParse::Send(
                cmd_args_request(
                    "write_port",
                    object2("port", Json::Str(p[1].clone()), "data", Json::Str(data)),
                ),
            )
        }
    } else if word_is(&p, 0, "read") {
        if n < 2 {
            CommandParse::Usage(String::from_str(USAGE_READ))
        } else {
            CommandParse::Send(cmd_args_request("read_port", port_object(&p[1])))
        }
    } else if word_is(&p, 0, "log") {
        if n < 2 {
            CommandParse::Usage(String::from_str(USAGE_LOG))
        } else if word_is(&p, 1, "start") {
            if n < 3 {
                CommandParse::Usage(String::from_str(USAGE_LOG_START))
            } else {
                let mut args = port_object(&p[2]);
                let rest = tail_words(&p, 3);
                parse_log_flags(&rest, &mut args);
                CommandParse::Send(cmd_args_request("start_log", args))
            }
        } else if word_is(&p, 1, "stop") {
            if n < 3 {
                CommandParse::Usage(String::from_str(USAGE_LOG_STOP))
            } else {
                CommandParse::Send(cmd_args_request("stop_log", port_object(&p[2])))
            }
        } else if word_is(&p, 1, "update") {
            if n < 3 {
                CommandParse::Usage(String::from_str(USAGE_LOG_UPDATE))
            } else {
                let mut args = port_object(&p[2]);
                let rest = tail_words(&p, 3);
                parse_log_flags(&rest, &mut args);
                CommandParse::Send(cmd_args_request("update_log", args))
            }
        } else {
            CommandParse::Usage(String::from_str(USAGE_LOG_OTHER))
        }
    } else if word_is(&p, 0, "status") {
        CommandParse::Send(cmd_request("port_status"))
    } else if word_is(&p, 0, "monitor") {
        if n < 2 {
            CommandParse::Usage(String::from_str(USAGE_MONITOR))
        } else if word_is(&p, 1, "start") {
            CommandParse::Send(cmd_args_request("open_monitor", monitor_object(&p)))
        } else if word_is(&p, 1, "stop") {
            CommandParse::Send(cmd_request("close_monitor"))
        } else {
            CommandParse::Usage(String::from_str(USAGE_MONITOR_OTHER))
        }
    } else {
        CommandParse::Unrecognized
    }
}


/// What the client does with a typed line.
pub enum ReplAction {
    /// Nothing: the line is blank.
    Skip,
    /// Leave the client.
    Exit,
    /// Show the command list.
    Help,
    /// Send a request, or show a usage hint, or say that the line is unknown.
    Command(CommandParse),
}

/// The mathematical value of a [`ReplAction`].
pub enum ReplActionV {
    Skip,
    Exit,
    Help,
    Command(CommandParseV),
}

impl ReplAction {
    pub open spec fn view(&self) -> ReplActionV {
        match self {
            ReplAction::Skip => ReplActionV::Skip,
            ReplAction::Exit => ReplActionV::Exit,
            ReplAction::Help => ReplActionV::Help,
            ReplAction::Command(c) => ReplActionV::Command(c@),
        }
    }
}

/// What a typed line asks for, read without its surrounding white space.
pub open spec fn line_action(line: Seq<char>) -> ReplActionV {
    let t = crate::text::trimmed(line);
    if t.len() == 0 {
        ReplActionV::Skip
    } else if t == "exit"@ || t == "quit"@ {
        ReplActionV::Exit
    } else if t == "help"@ {
        ReplActionV::Help
    } else {
        ReplActionV::Command(command_of(words(t)))
    }
}

/// What the client does with a typed line.
pub fn repl_line(line: &str) -> (r: ReplAction)
    ensures
        r@ == line_action(line@),
{
    let t = crate::text::trim(line);
    if t.unicode_len() == 0 {
        return ReplAction::Skip;
    }
    if same_text(t.as_str(), "exit") || same_text(t.as_str(), "quit") {
        return ReplAction::Exit;
    }
    if same_text(t.as_str(), "help") {
        return ReplAction::Help;
    }
    ReplAction::Command(parse_command(t.as_str()))
}

} // verus!
