use commmon::json::Json;
use commmon::render::{format_data, is_notification, print_notification, print_response, OutLine};
use commmon::sdk::{rx_data_from, subscribe_request, unsubscribe_request};

fn from_value(v: &serde_json::Value) -> Json {
    match v {
        serde_json::Value::Null => Json::Null,
        serde_json::Value::Bool(b) => Json::Bool(*b),
        serde_json::Value::Number(n) => match n.as_u64() {
            Some(u) => Json::Num(u),
            None => Json::OtherNum(n.to_string()),
        },
        serde_json::Value::String(s) => Json::Str(s.clone()),
        serde_json::Value::Array(a) => Json::Array(a.iter().map(from_value).collect()),
        serde_json::Value::Object(m) => Json::Object(m.iter().map(|(k, v)| (k.clone(), from_value(v))).collect()),
    }
}

fn json(text: &str) -> Json {
    from_value(&serde_json::from_str(text).unwrap())
}

fn texts(lines: &[OutLine]) -> Vec<(bool, String)> {
    lines
        .iter()
        .map(|l| match l {
            OutLine::Text { err, text } => (*err, text.clone()),
            OutLine::Value { err, prefix, pretty, .. } => (*err, format!("{}<json pretty={}>", prefix, pretty)),
        })
        .collect()
}

fn out(s: &str) -> (bool, String) {
    (false, s.to_string())
}

#[test]
fn shows_texts_lists_and_status() {
    assert_eq!(texts(&format_data(&json(r#""COM3 열기 성공""#))), vec![out("COM3 열기 성공")]);
    assert_eq!(texts(&format_data(&json("[]"))), vec![out("(비어 있음)")]);
    assert_eq!(
        texts(&format_data(&json(
            r#"[{"path":"COM3","manufacturer":"Silicon Labs","product":"CP2102"},{"path":"COM1"}]"#
        ))),
        vec![out("  COM3 (Silicon Labs) - CP2102"), out("  COM1")]
    );
    assert_eq!(
        texts(&format_data(&json(r#"[{"timestamp":"t1","data":"hello"}]"#))),
        vec![out("[t1] hello")]
    );
    assert_eq!(
        texts(&format_data(&json(
            r#"{"ports":[{"port":"COM3","baudRate":9600,"config":"8N1","log":{"file":"a.log"}},{"port":"COM4","log":null}],"monitor":{"active":true,"url":"http://127.0.0.1:8765"}}"#
        ))),
        vec![
            out("  COM3 9600bps 8N1 [로그: a.log]"),
            out("  COM4 0bps "),
            out("  모니터: http://127.0.0.1:8765"),
        ]
    );
    assert_eq!(
        texts(&format_data(&json(r#"{"ports":[],"monitor":{"active":false}}"#))),
        vec![out("열린 포트 없음")]
    );
    assert_eq!(
        texts(&format_data(&json(r#"{"port":"COM3","file":"/tmp/a.log"}"#))),
        vec![out("COM3 로그 중지: /tmp/a.log")]
    );
    assert_eq!(texts(&format_data(&json(r#"{"x":1}"#))), vec![out("<json pretty=true>")]);
    assert_eq!(texts(&format_data(&json("[5]"))), vec![out("  <json pretty=true>")]);
    assert_eq!(texts(&format_data(&json("12"))), vec![out("<json pretty=false>")]);
}

#[test]
fn shows_replies_and_notifications() {
    assert_eq!(texts(&print_response(&json(r#"{"ok":true,"data":"done"}"#))), vec![out("done")]);
    assert!(print_response(&json(r#"{"ok":true}"#)).is_empty());
    assert_eq!(
        texts(&print_response(&json(r#"{"ok":false,"error":"COM3가 열려 있지 않습니다."}"#))),
        vec![(true, "오류: COM3가 열려 있지 않습니다.".to_string())]
    );
    let n = json(r#"{"notify":"log_stopped","data":{"port":"COM3","reason":"keyword","keyword":"OK","file":"f"}}"#);
    assert!(is_notification(&n));
    assert_eq!(
        texts(&print_notification(&n)),
        vec![(true, "\n[알림] COM3 로그 중지 (키워드 'OK' 감지): f".to_string())]
    );
    let n = json(r#"{"notify":"log_stopped","data":{"port":"COM3","reason":"duration","file":"f"}}"#);
    assert_eq!(texts(&print_notification(&n)), vec![(true, "\n[알림] COM3 로그 중지 (시간 만료): f".to_string())]);
    let n = json(r#"{"notify":"port_error","data":{"port":"COM3","error":"장치 연결 해제"}}"#);
    assert_eq!(texts(&print_notification(&n)), vec![(true, "\n[알림] COM3 오류: 장치 연결 해제".to_string())]);
    let n = json(r#"{"notify":"rx_data","data":{}}"#);
    assert_eq!(texts(&print_notification(&n)), vec![(true, "\n[알림] <json pretty=false>".to_string())]);
    assert!(!is_notification(&json(r#"{"ok":true}"#)));
}

#[test]
fn client_library_reads_pushed_data() {
    let v = json(r#"{"notify":"rx_data","data":{"port":"COM3","timestamp":"t","ascii":"OK","hex":"4f4b","extra":1}}"#);
    let d = rx_data_from(&v).unwrap();
    assert_eq!((d.port.as_str(), d.timestamp.as_str(), d.ascii.as_str(), d.hex.as_str()), ("COM3", "t", "OK", "4f4b"));
    let v = json(r#"{"notify":"rx_data","data":["COM3","t","OK","4f4b"]}"#);
    assert!(rx_data_from(&v).is_some());
    assert!(rx_data_from(&json(r#"{"notify":"rx_data","data":{"port":"COM3"}}"#)).is_none());
    assert!(rx_data_from(&json(r#"{"notify":"log_stopped","data":{"port":"COM3","timestamp":"t","ascii":"a","hex":"61"}}"#)).is_none());
    assert!(rx_data_from(&json(r#"{"ok":true}"#)).is_none());
    let r = subscribe_request("COM3");
    assert_eq!(r.cmd, "subscribe_rx");
    assert!(matches!(&r.args, Json::Object(f) if f.len() == 1 && f[0].0 == "port" && matches!(&f[0].1, Json::Str(s) if s == "COM3")));
    assert_eq!(unsubscribe_request("COM3").cmd, "unsubscribe_rx");
}
