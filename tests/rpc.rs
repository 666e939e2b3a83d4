use pool_client::json::JsonValue;
use pool_client::rpc::{decode_line, frame, login_frame, LineEvent, WrappedCall};

fn zeros_hash() -> String {
    format!("0x{}", "0".repeat(64))
}

#[test]
fn login_frame_from_wrapped_call() {
    let params = vec![JsonValue::Str("0xabc0000000000000000000000000000000000001".to_string())];
    let bytes = WrappedCall::new(1, "eth_submitLogin", params).serialize("rig1".to_string()).unwrap();
    assert_eq!(*bytes.last().unwrap(), b'\n');
    assert_eq!(bytes.iter().filter(|b| **b == b'\n').count(), 1);
    let v: serde_json::Value = serde_json::from_slice(&bytes[..bytes.len() - 1]).unwrap();
    assert_eq!(v["worker"], serde_json::Value::String("rig1".to_string()));
    assert_eq!(v["id"], serde_json::Value::from(1));
    assert_eq!(v["method"], serde_json::Value::String("eth_submitLogin".to_string()));
    assert_eq!(v["jsonrpc"], serde_json::Value::String("2.0".to_string()));
    assert_eq!(v["params"][0], serde_json::Value::String("0xabc0000000000000000000000000000000000001".to_string()));
    let text = String::from_utf8(bytes).unwrap();
    assert!(text.contains("\"worker\":\"rig1\""));
}

#[test]
fn login_frame_carries_wallet_address() {
    let mut addr = [0u8; 20];
    addr[0] = 0xab;
    addr[19] = 0x01;
    let bytes = login_frame(&addr, "rig1".to_string());
    assert_eq!(*bytes.last().unwrap(), b'\n');
    let v: serde_json::Value = serde_json::from_slice(&bytes[..bytes.len() - 1]).unwrap();
    assert_eq!(v["params"][0], serde_json::Value::String(format!("0xab{}01", "00".repeat(18))));
    assert_eq!(v["worker"], serde_json::Value::String("rig1".to_string()));
    assert_eq!(v["method"], serde_json::Value::String("eth_submitLogin".to_string()));
}

#[test]
fn frame_appends_one_line_feed() {
    assert_eq!(frame(b"{}".to_vec()), b"{}\n".to_vec());
    assert_eq!(frame(vec![]), vec![b'\n']);
}

#[test]
fn line_not_json() {
    assert!(matches!(decode_line("not json"), LineEvent::NotJson));
    assert!(matches!(decode_line(""), LineEvent::NotJson));
}

#[test]
fn line_without_id() {
    assert!(matches!(decode_line("{}"), LineEvent::NoId));
    assert!(matches!(decode_line("{\"id\":\"1\"}"), LineEvent::NoId));
    assert!(matches!(decode_line("[1,2]"), LineEvent::NoId));
}

#[test]
fn line_login_ack() {
    assert!(matches!(decode_line("{\"id\":1,\"result\":true}"), LineEvent::LoginAck));
    assert!(matches!(decode_line("{\"id\":1,\"result\":false}"), LineEvent::LoginAck));
}

#[test]
fn line_work_notification() {
    let target = format!("0x{}ff", "0".repeat(62));
    let line = format!(
        "{{\"id\":0,\"result\":[\"{}\",\"{}\",\"{}\",\"0x10\"]}}",
        zeros_hash(),
        zeros_hash(),
        target
    );
    match decode_line(&line) {
        LineEvent::Work(w) => {
            assert_eq!(w.header, [0u8; 32]);
            assert_eq!(w.target[31], 0xff);
            assert_eq!(w.block, 16);
        }
        _ => panic!("expected work"),
    }
}

#[test]
fn line_bad_work() {
    assert!(matches!(decode_line("{\"id\":0,\"result\":[\"0x00\"]}"), LineEvent::BadWork));
    assert!(matches!(decode_line("{\"id\":0,\"result\":5}"), LineEvent::BadWork));
}

#[test]
fn line_ignored() {
    assert!(matches!(decode_line("{\"id\":0,\"result\":null}"), LineEvent::Ignored));
    assert!(matches!(decode_line("{\"id\":0}"), LineEvent::Ignored));
    assert!(matches!(decode_line("{\"id\":7,\"result\":[]}"), LineEvent::Ignored));
}

#[test]
fn wrapped_call_keeps_its_parts() {
    let c = WrappedCall::new(7, "eth_getWork", vec![JsonValue::UInt(3)]);
    assert_eq!(c.id, 7);
    assert_eq!(c.method, "eth_getWork");
    assert_eq!(c.params.len(), 1);
}

#[test]
fn serialized_call_has_exact_members() {
    let params = vec![JsonValue::UInt(3), JsonValue::Str("x".to_string()), JsonValue::Bool(false)];
    let bytes = WrappedCall::new(9, "eth_getWork", params).serialize("w".to_string()).unwrap();
    let text = String::from_utf8(bytes).unwrap();
    assert_eq!(
        text,
        "{\"id\":9,\"jsonrpc\":\"2.0\",\"method\":\"eth_getWork\",\"params\":[3,\"x\",false],\"worker\":\"w\"}\n"
    );
}

#[test]
fn worker_name_is_escaped_in_one_line() {
    let name = "a\"b\\c\nd\u{e9}";
    let bytes = WrappedCall::new(1, "m", vec![]).serialize(name.to_string()).unwrap();
    assert_eq!(bytes.iter().filter(|b| **b == b'\n').count(), 1);
    assert_eq!(*bytes.last().unwrap(), b'\n');
    let v: serde_json::Value = serde_json::from_slice(&bytes[..bytes.len() - 1]).unwrap();
    assert_eq!(v["worker"].as_str(), Some(name));
}

#[test]
fn fraction_parameter_survives_serialization() {
    let parsed = match decode_line("{\"id\":5,\"result\":1.5}") {
        LineEvent::Ignored => true,
        _ => false,
    };
    assert!(parsed);
    let bytes = WrappedCall::new(2, "m", vec![JsonValue::Fraction("1.5".to_string())])
        .serialize("w".to_string())
        .unwrap();
    let v: serde_json::Value = serde_json::from_slice(&bytes[..bytes.len() - 1]).unwrap();
    assert_eq!(v["params"][0].as_f64(), Some(1.5));
}
