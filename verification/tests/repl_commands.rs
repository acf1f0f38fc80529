use commmon::json::Json;
use commmon::repl::{parse_command, parse_log_flags, repl_line, CommandParse, ReplAction};

fn to_value(j: &Json) -> serde_json::Value {
    match j {
        Json::Null => serde_json::Value::Null,
        Json::Bool(b) => serde_json::Value::Bool(*b),
        Json::Num(n) => serde_json::Value::from(*n),
        Json::OtherNum(t) => serde_json::from_str(t).unwrap(),
        Json::Str(s) => serde_json::Value::String(s.clone()),
        Json::Array(v) => serde_json::Value::Array(v.iter().map(to_value).collect()),
        Json::Object(f) => {
            let mut m = serde_json::Map::new();
            for (k, v) in f {
                m.insert(k.clone(), to_value(v));
            }
            serde_json::Value::Object(m)
        }
    }
}

fn expect_send(input: &str, expected: &str) {
    match parse_command(input) {
        CommandParse::Send(j) => {
            let want: serde_json::Value = serde_json::from_str(expected).unwrap();
            assert_eq!(to_value(&j), want, "for {:?}", input);
        }
        _ => panic!("no request for {:?}", input),
    }
}

fn expect_usage(input: &str, expected: &str) {
    match parse_command(input) {
        CommandParse::Usage(u) => assert_eq!(u, expected),
        _ => panic!("no usage for {:?}", input),
    }
}

#[test]
fn list_and_status() {
    expect_send("list", r#"{"cmd":"list_ports"}"#);
    expect_send("ls", r#"{"cmd":"list_ports"}"#);
    expect_send("status", r#"{"cmd":"port_status"}"#);
}

#[test]
fn open_with_defaults_and_settings() {
    expect_send("open COM3", r#"{"cmd":"open_port","args":{"port":"COM3","baudRate":115200}}"#);
    expect_send("open COM3 9600", r#"{"cmd":"open_port","args":{"port":"COM3","baudRate":9600}}"#);
    expect_send("open COM3 fast", r#"{"cmd":"open_port","args":{"port":"COM3","baudRate":115200}}"#);
    expect_send(
        "open COM3 115200 8N1",
        r#"{"cmd":"open_port","args":{"port":"COM3","baudRate":115200,"dataBits":"8","parity":"none","stopBits":"1"}}"#,
    );
    expect_send(
        "open COM4 9600 7e2",
        r#"{"cmd":"open_port","args":{"port":"COM4","baudRate":9600,"dataBits":"7","parity":"even","stopBits":"2"}}"#,
    );
    expect_send(
        "open COM4 9600 8o1",
        r#"{"cmd":"open_port","args":{"port":"COM4","baudRate":9600,"dataBits":"8","parity":"odd","stopBits":"1"}}"#,
    );
    expect_send("open COM4 9600 8N11", r#"{"cmd":"open_port","args":{"port":"COM4","baudRate":9600}}"#);
    expect_usage("open", "사용법: open <포트> [baud] [8N1]");
}

#[test]
fn close_read_and_write() {
    expect_send("close COM3", r#"{"cmd":"close_port","args":{"port":"COM3"}}"#);
    expect_usage("close", "사용법: close <포트>");
    expect_send("read COM3", r#"{"cmd":"read_port","args":{"port":"COM3"}}"#);
    expect_usage("read", "사용법: read <포트>");
    expect_send("write COM3 hello", r#"{"cmd":"write_port","args":{"port":"COM3","data":"hello"}}"#);
    expect_send(
        "send COM3 hello   big world",
        r#"{"cmd":"write_port","args":{"port":"COM3","data":"hello big world"}}"#,
    );
    expect_send(
        "write COM3 --hex 48 45 4C",
        r#"{"cmd":"write_port","args":{"port":"COM3","data":"48454C","encoding":"hex"}}"#,
    );
    expect_send(
        "write COM3 --hex",
        r#"{"cmd":"write_port","args":{"port":"COM3","data":"","encoding":"hex"}}"#,
    );
    expect_usage("write COM3", "사용법: write <포트> <데이터> [--hex]");
}

#[test]
fn log_commands() {
    expect_send("log start COM3", r#"{"cmd":"start_log","args":{"port":"COM3"}}"#);
    expect_send(
        "log start COM3 --duration 30 --keyword OK --file ./log.txt",
        r#"{"cmd":"start_log","args":{"port":"COM3","duration":30,"stopKeyword":"OK","filePath":"./log.txt"}}"#,
    );
    expect_send(
        "log start COM3 --duration abc --keyword",
        r#"{"cmd":"start_log","args":{"port":"COM3"}}"#,
    );
    expect_send(
        "log update COM3 --keyword ERR --keyword FAIL",
        r#"{"cmd":"update_log","args":{"port":"COM3","stopKeyword":"FAIL"}}"#,
    );
    expect_send("log stop COM3", r#"{"cmd":"stop_log","args":{"port":"COM3"}}"#);
    expect_usage("log", "사용법: log start|stop|update <포트> [옵션]");
    expect_usage("log start", "사용법: log start <포트> [--duration N] [--keyword K] [--file F]");
    expect_usage("log stop", "사용법: log stop <포트>");
    expect_usage("log update", "사용법: log update <포트> [--keyword K] [--duration N]");
    expect_usage("log pause COM3", "사용법: log start|stop|update <포트>");
}

#[test]
fn log_flags_skip_unknown_words() {
    let mut args = Json::Object(Vec::new());
    let flags: Vec<String> = ["x", "--duration", "5", "--file"].iter().map(|s| s.to_string()).collect();
    parse_log_flags(&flags, &mut args);
    assert_eq!(to_value(&args), serde_json::from_str::<serde_json::Value>(r#"{"duration":5}"#).unwrap());
}

#[test]
fn monitor_commands() {
    expect_send("monitor start", r#"{"cmd":"open_monitor","args":{}}"#);
    expect_send("monitor start --port 8080", r#"{"cmd":"open_monitor","args":{"httpPort":8080}}"#);
    expect_send("monitor start --port 70000", r#"{"cmd":"open_monitor","args":{}}"#);
    expect_send("monitor stop", r#"{"cmd":"close_monitor"}"#);
    expect_usage("monitor", "사용법: monitor start|stop [--port N]");
    expect_usage("monitor pause", "사용법: monitor start|stop");
}

#[test]
fn unknown_and_blank() {
    assert!(matches!(parse_command("frobnicate COM3"), CommandParse::Unrecognized));
    assert!(matches!(parse_command("   "), CommandParse::Unrecognized));
    assert!(matches!(repl_line("   "), ReplAction::Skip));
    assert!(matches!(repl_line(" exit "), ReplAction::Exit));
    assert!(matches!(repl_line("quit"), ReplAction::Exit));
    assert!(matches!(repl_line("help"), ReplAction::Help));
    assert!(matches!(repl_line("  list  "), ReplAction::Command(CommandParse::Send(_))));
}
