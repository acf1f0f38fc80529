use commmon::daemon::{
    close_monitor_reply, finish_subscribe_rx, log_step, LogRun, log_stopped_by_duration, log_stopped_by_keyword,
    monitor_already_running, monitor_port, monitor_refresh, monitor_start_failed, monitor_started,
    parse_error_response, read_port_request, route, rx_data_notification, rx_payload, subscribe_rx_request,
    unknown_command, unsubscribe_rx, with_monitor, Command,
};
use commmon::json::Json;
use commmon::protocol::Response;
use commmon::serial::{
    list_ports, write_result, PortInfo, ReadEnd, RxEntry, SerialManager, UsbInfo,
};
use commmon::session::{ClientSession, MAX_BUFFER_ENTRIES};

fn to_value(j: &Json) -> serde_json::Value {
    match j {
        Json::Null => serde_json::Value::Null,
        Json::Bool(b) => serde_json::Value::Bool(*b),
        Json::Num(n) => serde_json::Value::from(*n),
        Json::OtherNum(t) => serde_json::from_str(t).unwrap(),
        Json::Str(s) => serde_json::Value::String(s.clone()),
        Json::Array(v) => serde_json::Value::Array(v.iter().map(to_value).collect()),
        Json::Object(f) => {
            let mut m = serde_json::Map::new();
            for (k, v) in f {
                m.insert(k.clone(), to_value(v));
            }
            serde_json::Value::Object(m)
        }
    }
}

fn from_value(v: &serde_json::Value) -> Json {
    match v {
        serde_json::Value::Null => Json::Null,
        serde_json::Value::Bool(b) => Json::Bool(*b),
        serde_json::Value::Number(n) => match n.as_u64() {
            Some(u) => Json::Num(u),
            None => Json::OtherNum(n.to_string()),
        },
        serde_json::Value::String(s) => Json::Str(s.clone()),
        serde_json::Value::Array(a) => Json::Array(a.iter().map(from_value).collect()),
        serde_json::Value::Object(m) => Json::Object(m.iter().map(|(k, v)| (k.clone(), from_value(v))).collect()),
    }
}

fn args(text: &str) -> Json {
    from_value(&serde_json::from_str(text).unwrap())
}

fn value(text: &str) -> serde_json::Value {
    serde_json::from_str(text).unwrap()
}

fn ok_text(r: &Response) -> String {
    assert!(r.ok);
    assert!(r.error.is_none());
    match &r.data {
        Some(Json::Str(s)) => s.clone(),
        _ => panic!("no text"),
    }
}

fn err_text(r: &Response) -> String {
    assert!(!r.ok);
    assert!(r.data.is_none());
    r.error.clone().unwrap()
}

fn entry(ts: &str, data: &[u8]) -> RxEntry {
    RxEntry { timestamp: ts.to_string(), data: data.to_vec() }
}

#[test]
fn response_constructors() {
    let r = Response::success_msg("done");
    assert_eq!(ok_text(&r), "done");
    let r = Response::error("bad");
    assert_eq!(err_text(&r), "bad");
    let r = Response::success(Json::Num(3));
    assert!(r.ok && matches!(r.data, Some(Json::Num(3))) && r.error.is_none());
}

#[test]
fn open_write_close_cycle() {
    let mut m: SerialManager<u32, u32> = SerialManager::new();
    let req = m.open_port(&args(r#"{"port":"COM3","baudRate":9600,"dataBits":"7","parity":"even","stopBits":"2"}"#)).ok().unwrap();
    assert_eq!(req.port, "COM3");
    let r = m.finish_open(req, Ok(11));
    assert_eq!(ok_text(&r), "COM3 열기 성공 (9600bps, 7E2)");
    assert!(m.is_port_open("COM3"));
    assert_eq!(m.port_handle("COM3"), Some(&11));
    assert_eq!(m.open_port_names(), vec!["COM3".to_string()]);

    let again = m.open_port(&args(r#"{"port":"COM3"}"#));
    assert_eq!(err_text(&again.err().unwrap()), "COM3는 이미 열려 있습니다.");

    match m.write_port(&args(r#"{"port":"COM3","data":"hello"}"#)) {
        Ok((p, b)) => {
            assert_eq!(p, "COM3");
            assert_eq!(b, b"hello".to_vec());
        }
        Err(_) => panic!("refused"),
    }
    match m.write_port(&args(r#"{"port":"COM3","data":"0a0B","encoding":"hex"}"#)) {
        Ok((_, b)) => assert_eq!(b, vec![0x0a, 0x0b]),
        Err(_) => panic!("refused"),
    }
    let bad = m.write_port(&args(r#"{"port":"COM3","data":"abc","encoding":"hex"}"#)).err().unwrap();
    assert_eq!(err_text(&bad), "HEX 디코딩 실패: Odd number of digits");
    let bad = m.write_port(&args(r#"{"port":"COM3","data":"zz","encoding":"hex"}"#)).err().unwrap();
    assert_eq!(err_text(&bad), "HEX 디코딩 실패: Invalid character 'z' at position 0");
    let bad = m.write_port(&args(r#"{"port":"COM9","data":"x"}"#)).err().unwrap();
    assert_eq!(err_text(&bad), "COM9가 열려 있지 않습니다.");
    let bad = m.write_port(&args(r#"{"port":"COM3"}"#)).err().unwrap();
    assert_eq!(err_text(&bad), "data 파라미터가 필요합니다.");
    let bad = m.write_port(&args(r#"{"data":"x"}"#)).err().unwrap();
    assert_eq!(err_text(&bad), "port 파라미터가 필요합니다.");
    assert_eq!(ok_text(&write_result("COM3", 5, Ok(()))), "COM3 전송 완료 (5 바이트)");
    assert_eq!(err_text(&write_result("COM3", 5, Err("busy".to_string()))), "COM3 전송 실패: busy");

    let (r, log, port) = m.close_port(&args(r#"{"port":"COM3"}"#));
    assert_eq!(ok_text(&r), "COM3 닫기 성공");
    assert_eq!(log, None);
    assert_eq!(port, Some(11));
    assert!(!m.is_port_open("COM3"));
    let (r, _, port) = m.close_port(&args(r#"{"port":"COM3"}"#));
    assert_eq!(err_text(&r), "COM3가 열려 있지 않습니다.");
    assert_eq!(port, None);
    let (r, _, _) = m.close_port(&Json::Null);
    assert_eq!(err_text(&r), "port 파라미터가 필요합니다.");
}

#[test]
fn open_defaults_and_failures() {
    let mut m: SerialManager<u32, u32> = SerialManager::new();
    let req = m.open_port(&args(r#"{"port":"COM5","baudRate":4294967297,"dataBits":9,"parity":"mark"}"#)).ok().unwrap();
    assert_eq!(req.settings.baud_rate, 1);
    assert_eq!(req.settings.data_bits, 8);
    assert_eq!(req.settings.stop_bits, 1);
    let r = m.finish_open(req, Err("Access denied".to_string()));
    assert_eq!(err_text(&r), "COM5 열기 실패: Access denied");
    assert!(!m.is_port_open("COM5"));
    let req = m.open_port(&args(r#"{"port":"COM5"}"#)).ok().unwrap();
    assert_eq!(ok_text(&m.finish_open(req, Ok(1))), "COM5 열기 성공 (115200bps, 8N1)");
}

#[test]
fn log_lifecycle_and_status() {
    let mut m: SerialManager<u32, u32> = SerialManager::new();
    let not_open = m.start_log(&args(r#"{"port":"COM3"}"#), "/tmp/x.log".to_string()).err().unwrap();
    assert_eq!(err_text(&not_open), "COM3가 열려 있지 않습니다.");
    let req = m.open_port(&args(r#"{"port":"COM3"}"#)).ok().unwrap();
    m.finish_open(req, Ok(1));
    let plan = m
        .start_log(&args(r#"{"port":"COM3","stopKeyword":"OK","duration":30}"#), "/tmp/default.log".to_string())
        .ok()
        .unwrap();
    assert_eq!(plan.file_path, "/tmp/default.log");
    assert_eq!(plan.stop_keyword, Some("OK".to_string()));
    assert_eq!(plan.duration, Some(30));
    assert_eq!(ok_text(&m.finish_start_log(plan, 7)), "COM3 로그 시작: /tmp/default.log");
    let running = m.start_log(&args(r#"{"port":"COM3","filePath":"a.txt"}"#), "b".to_string()).err().unwrap();
    assert_eq!(err_text(&running), "COM3의 로그가 이미 실행 중입니다.");

    let status = m.port_status(&vec![2]);
    assert_eq!(
        to_value(status.data.as_ref().unwrap()),
        value(r#"[{"port":"COM3","baudRate":115200,"config":"8N1","subscribers":2,"log":{"file":"/tmp/default.log","stopKeyword":"OK"}}]"#)
    );

    let (r, u) = m.update_log(&args(r#"{"port":"COM3","stopKeyword":"ERR","duration":5}"#));
    assert_eq!(ok_text(&r), "COM3 로그 업데이트: 키워드: ERR, 타이머: 5초");
    assert_eq!(u.stop_keyword, Some(Some("ERR".to_string())));
    assert_eq!(u.duration, Some(5));
    let (r, u) = m.update_log(&args(r#"{"port":"COM3","stopKeyword":""}"#));
    assert_eq!(ok_text(&r), "COM3 로그 업데이트: 키워드: (해제)");
    assert_eq!(u.stop_keyword, Some(None));
    assert_eq!(u.duration, None);
    let (r, _) = m.update_log(&args(r#"{"port":"COM3"}"#));
    assert_eq!(err_text(&r), "업데이트할 파라미터가 없습니다. (stopKeyword, duration)");
    let (r, _) = m.update_log(&args(r#"{"port":"COM4","duration":1}"#));
    assert_eq!(err_text(&r), "COM4의 활성 로그가 없습니다.");
    let status = m.port_status(&vec![1]);
    assert_eq!(
        to_value(status.data.as_ref().unwrap()),
        value(r#"[{"port":"COM3","baudRate":115200,"config":"8N1","subscribers":1,"log":{"file":"/tmp/default.log","stopKeyword":null}}]"#)
    );

    let (r, h) = m.stop_log(&args(r#"{"port":"COM3"}"#));
    assert_eq!(to_value(r.data.as_ref().unwrap()), value(r#"{"port":"COM3","file":"/tmp/default.log"}"#));
    assert_eq!(h, Some(7));
    let (r, h) = m.stop_log(&args(r#"{"port":"COM3"}"#));
    assert_eq!(err_text(&r), "COM3의 활성 로그가 없습니다.");
    assert_eq!(h, None);
    let status = m.port_status(&vec![0]);
    assert_eq!(
        to_value(status.data.as_ref().unwrap()),
        value(r#"[{"port":"COM3","baudRate":115200,"config":"8N1","subscribers":0,"log":null}]"#)
    );
}

#[test]
fn closing_a_port_stops_its_log() {
    let mut m: SerialManager<u32, u32> = SerialManager::new();
    let req = m.open_port(&args(r#"{"port":"A"}"#)).ok().unwrap();
    m.finish_open(req, Ok(1));
    let plan = m.start_log(&args(r#"{"port":"A","filePath":"f"}"#), "d".to_string()).ok().unwrap();
    m.finish_start_log(plan, 9);
    let (r, log, port) = m.close_port(&args(r#"{"port":"A"}"#));
    assert_eq!(ok_text(&r), "A 닫기 성공");
    assert_eq!(log, Some(9));
    assert_eq!(port, Some(1));
    assert!(m.log_handle("A").is_none());
}

#[test]
fn lost_port_and_close_all() {
    let mut m: SerialManager<u32, u32> = SerialManager::new();
    for (name, h) in [("A", 1u32), ("B", 2), ("C", 3)] {
        let req = m.open_port(&args(&format!(r#"{{"port":"{}"}}"#, name))).ok().unwrap();
        m.finish_open(req, Ok(h));
    }
    let plan = m.start_log(&args(r#"{"port":"B"}"#), "b.log".to_string()).ok().unwrap();
    m.finish_start_log(plan, 20);
    let (log, port, n) = m.port_lost("B", ReadEnd::Disconnected);
    assert_eq!(log, Some(20));
    assert_eq!(port, Some(2));
    assert_eq!(n.notify, "port_error");
    assert_eq!(to_value(&n.data), value(r#"{"port":"B","error":"장치 연결 해제"}"#));
    let (_, _, n) = m.port_lost("C", ReadEnd::Failed("timed out".to_string()));
    assert_eq!(to_value(&n.data), value(r#"{"port":"C","error":"읽기 오류: timed out"}"#));
    assert_eq!(m.open_port_names(), vec!["A".to_string()]);
    let (logs, ports) = m.close_all();
    assert!(logs.is_empty());
    assert_eq!(ports, vec![("A".to_string(), 1)]);
    assert!(m.open_port_names().is_empty());
}

#[test]
fn port_list_replies() {
    let found = vec![
        PortInfo { port_name: "COM1".to_string(), usb: None },
        PortInfo {
            port_name: "COM3".to_string(),
            usb: Some(UsbInfo {
                vid: 0x10c4,
                pid: 0xea60,
                serial_number: Some("0001".to_string()),
                manufacturer: Some("Silicon Labs".to_string()),
                product: None,
            }),
        },
    ];
    let r = list_ports(Ok(found));
    assert_eq!(
        to_value(r.data.as_ref().unwrap()),
        value(r#"[{"path":"COM1"},{"path":"COM3","manufacturer":"Silicon Labs","serialNumber":"0001","vendorId":"10C4","productId":"EA60"}]"#)
    );
    let r = list_ports(Err("no access".to_string()));
    assert_eq!(err_text(&r), "포트 목록 조회 실패: no access");
}

#[test]
fn session_buffers_keep_the_latest_entries() {
    let mut s = ClientSession::new();
    assert!(!s.has_receiver("COM3"));
    s.drain_receiver("COM3", vec![entry("t0", b"x")]);
    let r = s.read_port("COM3", true, Vec::new());
    assert_eq!(err_text(&r), "COM3의 수신 버퍼가 없습니다.");
    s.attach_receiver("COM3");
    let batch: Vec<RxEntry> = (0..250).map(|i| entry(&format!("t{}", i), format!("m{}", i).as_bytes())).collect();
    s.drain_receiver("COM3", batch);
    let r = s.read_port("COM3", false, vec![entry("t250", b"m250")]);
    let items = to_value(r.data.as_ref().unwrap());
    let items = items.as_array().unwrap();
    assert_eq!(items.len(), MAX_BUFFER_ENTRIES);
    assert_eq!(items[0], value(r#"{"timestamp":"t51","data":"m51"}"#));
    assert_eq!(items[MAX_BUFFER_ENTRIES - 1], value(r#"{"timestamp":"t250","data":"m250"}"#));
    let r = s.read_port("COM3", true, Vec::new());
    assert_eq!(r.data.as_ref().map(|d| to_value(d).as_array().unwrap().len()), Some(200));
    let r = s.read_port("COM3", true, Vec::new());
    assert_eq!(to_value(r.data.as_ref().unwrap()), value("[]"));
    let r = s.read_port("COM3", true, vec![entry("t", &[0x4f, 0x4b, 0xff])]);
    assert_eq!(to_value(r.data.as_ref().unwrap()), value(r#"[{"timestamp":"t","data":"OK\ufffd"}]"#));
    s.on_port_closed("COM3");
    assert!(!s.has_receiver("COM3"));
    let r = s.read_port("COM3", true, Vec::new());
    assert_eq!(err_text(&r), "COM3의 수신 버퍼가 없습니다.");
}

#[test]
fn session_subscriptions() {
    let mut s = ClientSession::new();
    let r = subscribe_rx_request(&s, &args(r#"{"port":"COM3"}"#), false).err().unwrap();
    assert_eq!(err_text(&r), "COM3가 열려 있지 않습니다.");
    let r = subscribe_rx_request(&s, &Json::Null, true).err().unwrap();
    assert_eq!(err_text(&r), "port 파라미터가 필요합니다.");
    let p = subscribe_rx_request(&s, &args(r#"{"port":"COM3"}"#), true).ok().unwrap();
    assert_eq!(p, "COM3");
    assert_eq!(err_text(&finish_subscribe_rx(&mut s, "COM3", false, true)), "COM3 구독 실패");
    assert!(!s.is_rx_subscribed("COM3"));
    assert_eq!(ok_text(&finish_subscribe_rx(&mut s, "COM3", true, true)), "COM3 실시간 RX 구독 시작");
    assert!(s.is_rx_subscribed("COM3"));
    let r = subscribe_rx_request(&s, &args(r#"{"port":"COM3"}"#), true).err().unwrap();
    assert_eq!(err_text(&r), "COM3는 이미 구독 중입니다.");
    let (r, p) = unsubscribe_rx(&mut s, &args(r#"{"port":"COM3"}"#));
    assert_eq!(ok_text(&r), "COM3 실시간 RX 구독 해제");
    assert_eq!(p, Some("COM3".to_string()));
    let (r, p) = unsubscribe_rx(&mut s, &args(r#"{"port":"COM3"}"#));
    assert_eq!(err_text(&r), "COM3는 구독 중이 아닙니다.");
    assert_eq!(p, None);
    assert!(s.add_rx_subscription("X"));
    assert!(!s.add_rx_subscription("X"));
    assert!(s.remove_rx_subscription("X"));
    assert!(!s.remove_rx_subscription("X"));
    assert_eq!(
        err_text(&finish_subscribe_rx(&mut s, "COM4", true, false)),
        "스트리밍 태스크 전달 실패"
    );
    assert!(s.is_rx_subscribed("COM4"));
}

#[test]
fn dispatch_helpers() {
    assert!(route("list_ports") == Command::ListPorts);
    assert!(route("open_port") == Command::OpenPort);
    assert!(route("close_port") == Command::ClosePort);
    assert!(route("subscribe_rx") == Command::SubscribeRx);
    assert!(route("unsubscribe_rx") == Command::UnsubscribeRx);
    assert!(route("write_port") == Command::WritePort);
    assert!(route("read_port") == Command::ReadPort);
    assert!(route("port_status") == Command::PortStatus);
    assert!(route("start_log") == Command::StartLog);
    assert!(route("update_log") == Command::UpdateLog);
    assert!(route("stop_log") == Command::StopLog);
    assert!(route("open_monitor") == Command::OpenMonitor);
    assert!(route("close_monitor") == Command::CloseMonitor);
    assert!(route("reboot") == Command::Unknown);
    assert_eq!(err_text(&unknown_command("reboot")), "알 수 없는 명령: reboot");
    assert_eq!(err_text(&parse_error_response("EOF")), "JSON 파싱 오류: EOF");
    let (port, clear) = read_port_request(&args(r#"{"port":"COM3"}"#), true).ok().unwrap();
    assert_eq!((port.as_str(), clear), ("COM3", true));
    let (_, clear) = read_port_request(&args(r#"{"port":"COM3","clear":false}"#), true).ok().unwrap();
    assert!(!clear);
    let r = read_port_request(&args(r#"{"port":"COM3"}"#), false).err().unwrap();
    assert_eq!(err_text(&r), "COM3가 열려 있지 않습니다.");
}

#[test]
fn monitor_replies() {
    assert_eq!(monitor_port(&Json::Null), 8765);
    assert_eq!(monitor_port(&args(r#"{"httpPort":8080}"#)), 8080);
    assert_eq!(monitor_port(&args(r#"{"httpPort":65537}"#)), 1);
    assert_eq!(ok_text(&monitor_started(8765)), "모니터 시작: http://127.0.0.1:8765");
    assert_eq!(ok_text(&monitor_already_running(8080)), "모니터가 이미 실행 중입니다: http://127.0.0.1:8080");
    assert_eq!(err_text(&monitor_start_failed("in use")), "모니터 시작 실패: in use");
    assert_eq!(ok_text(&close_monitor_reply(true)), "모니터 종료");
    assert_eq!(err_text(&close_monitor_reply(false)), "모니터가 실행 중이 아닙니다.");
    let r = with_monitor(Response::success(Json::Array(Vec::new())), Some(8765));
    assert_eq!(
        to_value(r.data.as_ref().unwrap()),
        value(r#"{"ports":[],"monitor":{"active":true,"url":"http://127.0.0.1:8765"}}"#)
    );
    let r = with_monitor(Response::error("x"), None);
    assert_eq!(to_value(r.data.as_ref().unwrap()), value(r#"{"ports":[],"monitor":{"active":false}}"#));
    let tapped = vec!["A".to_string(), "B".to_string()];
    let open = vec!["B".to_string(), "C".to_string()];
    let (add, drop) = monitor_refresh(&tapped, &open);
    assert_eq!(add, vec!["C".to_string()]);
    assert_eq!(drop, vec!["A".to_string()]);
}

#[test]
fn pushed_data_and_logs() {
    let e = entry("2024:01:02 03:04:05", b"OK\n");
    assert_eq!(
        to_value(&rx_payload("COM3", &e)),
        value(r#"{"port":"COM3","timestamp":"2024:01:02 03:04:05","ascii":"OK\n","hex":"4f4b0a"}"#)
    );
    let n = rx_data_notification("COM3", &e);
    assert_eq!(n.notify, "rx_data");
    let (line, stop) = log_step(&e, &Some("OK".to_string()));
    assert_eq!(line, "[2024:01:02 03:04:05] OK\n\n");
    assert!(stop);
    let (_, stop) = log_step(&e, &Some("ERR".to_string()));
    assert!(!stop);
    let (_, stop) = log_step(&e, &None);
    assert!(!stop);
    let n = log_stopped_by_keyword("COM3", "OK", "/tmp/a.log");
    assert_eq!(n.notify, "log_stopped");
    assert_eq!(
        to_value(&n.data),
        value(r#"{"port":"COM3","reason":"keyword","keyword":"OK","file":"/tmp/a.log"}"#)
    );
    let n = log_stopped_by_duration("COM3", "/tmp/a.log");
    assert_eq!(to_value(&n.data), value(r#"{"port":"COM3","reason":"duration","file":"/tmp/a.log"}"#));
}

#[test]
fn a_client_receives_data_from_its_connection_on() {
    let mut s = ClientSession::at_connect(&vec!["COM3".to_string(), "COM4".to_string()]);
    assert!(s.has_receiver("COM3") && s.has_receiver("COM4") && !s.has_receiver("COM5"));
    assert!(!s.is_rx_subscribed("COM3"));
    let r = s.read_port("COM3", true, vec![entry("t1", b"a"), entry("t2", b"b")]);
    assert_eq!(to_value(r.data.as_ref().unwrap()), value(r#"[{"timestamp":"t1","data":"a"},{"timestamp":"t2","data":"b"}]"#));
    let r = s.read_port("COM4", true, Vec::new());
    assert_eq!(to_value(r.data.as_ref().unwrap()), value("[]"));
    let r = s.read_port("COM5", true, vec![entry("t3", b"c")]);
    assert_eq!(err_text(&r), "COM5의 수신 버퍼가 없습니다.");
}

#[test]
fn a_session_after_close_port() {
    let mut s = ClientSession::at_connect(&vec!["COM3".to_string(), "COM4".to_string()]);
    assert!(s.add_rx_subscription("COM3"));
    let failed = Response::error("COM3가 열려 있지 않습니다.");
    assert_eq!(s.after_close(&failed, &args(r#"{"port":"COM3"}"#)), (None, false));
    assert!(s.has_receiver("COM3") && s.is_rx_subscribed("COM3"));
    let closed = Response::success_msg("COM3 닫기 성공");
    assert_eq!(s.after_close(&closed, &args(r#"{"port":"COM3"}"#)), (Some("COM3".to_string()), true));
    assert!(!s.has_receiver("COM3") && !s.is_rx_subscribed("COM3"));
    assert!(s.has_receiver("COM4"));
    let closed = Response::success_msg("COM4 닫기 성공");
    assert_eq!(s.after_close(&closed, &args(r#"{"port":"COM4"}"#)), (Some("COM4".to_string()), false));
    assert!(!s.has_receiver("COM4"));
}

#[test]
fn a_log_that_stops_by_itself_leaves_the_registry() {
    let mut m: SerialManager<u32, u32> = SerialManager::new();
    let req = m.open_port(&args(r#"{"port":"COM3"}"#)).ok().unwrap();
    m.finish_open(req, Ok(1));
    let plan = m.start_log(&args(r#"{"port":"COM3","duration":30}"#), "/tmp/a.log".to_string()).ok().unwrap();
    m.finish_start_log(plan, 7);
    assert_eq!(m.end_log("COM3", "/tmp/other.log"), None);
    assert_eq!(m.log_file("COM3"), Some("/tmp/a.log".to_string()));
    assert_eq!(m.end_log("COM3", "/tmp/a.log"), Some(7));
    assert_eq!(m.log_file("COM3"), None);
    assert_eq!(m.end_log("COM3", "/tmp/a.log"), None);
    let status = m.port_status(&vec![1]);
    assert_eq!(
        to_value(status.data.as_ref().unwrap()),
        value(r#"[{"port":"COM3","baudRate":115200,"config":"8N1","subscribers":1,"log":null}]"#)
    );
    let plan = m.start_log(&args(r#"{"port":"COM3"}"#), "/tmp/b.log".to_string()).ok().unwrap();
    assert_eq!(ok_text(&m.finish_start_log(plan, 8)), "COM3 로그 시작: /tmp/b.log");
}

#[test]
fn a_log_run_writes_up_to_the_keyword() {
    let mut run = LogRun::new();
    let kw = Some("OK".to_string());
    assert_eq!(run.feed(&entry("t1", b"wait"), &kw), Some(("[t1] wait\n".to_string(), false)));
    assert!(!run.is_stopped());
    assert_eq!(run.feed(&entry("t2", b"-OK-"), &kw), Some(("[t2] -OK-\n".to_string(), true)));
    assert!(run.is_stopped());
    assert_eq!(run.feed(&entry("t3", b"more"), &kw), None);
    let mut run = LogRun::new();
    assert_eq!(run.feed(&entry("t1", b"OK"), &None), Some(("[t1] OK\n".to_string(), false)));
    assert!(!run.is_stopped());
}
