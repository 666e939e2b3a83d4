use pool_client::session::{Action, Event, Phase, PoolConfig, PoolInner, RECONNECT_DELAY_SECS};

fn config() -> PoolConfig {
    PoolConfig {
        upstream_url: "eth-us-west.flexpool.io:4444".to_string(),
        wallet_address: [0x11u8; 20],
        worker_name: "rig1".to_string(),
        web3: "ws://localhost:8546".to_string(),
    }
}

fn work_line() -> String {
    let zeros = format!("0x{}", "0".repeat(64));
    let target = format!("0x{}ff", "0".repeat(62));
    format!("{{\"id\":0,\"result\":[\"{}\",\"{}\",\"{}\",\"0x2a\"]}}", zeros, zeros, target)
}

fn active() -> PoolInner {
    let (mut p, _) = PoolInner::new(config());
    assert!(matches!(p.step(Event::Connected), Action::Send(_)));
    assert!(matches!(p.step(Event::LoginSent), Action::Receive));
    assert!(matches!(p.phase, Phase::Active));
    p
}

#[test]
fn first_action_connects() {
    let (p, a) = PoolInner::new(config());
    assert!(matches!(p.phase, Phase::Connecting));
    match a {
        Action::Connect { upstream, node } => {
            assert_eq!(upstream, "eth-us-west.flexpool.io:4444");
            assert_eq!(node, "ws://localhost:8546");
        }
        _ => panic!("expected connect"),
    }
}

#[test]
fn login_is_sent_after_connect() {
    let (mut p, _) = PoolInner::new(config());
    match p.step(Event::Connected) {
        Action::Send(b) => {
            assert_eq!(*b.last().unwrap(), b'\n');
            let v: serde_json::Value = serde_json::from_slice(&b[..b.len() - 1]).unwrap();
            assert_eq!(v["id"], serde_json::Value::from(1));
            assert_eq!(v["worker"], serde_json::Value::String("rig1".to_string()));
            assert_eq!(v["method"], serde_json::Value::String("eth_submitLogin".to_string()));
            assert_eq!(v["params"][0], serde_json::Value::String(format!("0x{}", "11".repeat(20))));
        }
        _ => panic!("expected login"),
    }
    assert!(matches!(p.phase, Phase::LoggingIn));
}

#[test]
fn malformed_lines_do_not_end_session() {
    let mut p = active();
    assert!(matches!(p.step(Event::Line("not json".to_string())), Action::Receive));
    assert!(matches!(p.step(Event::Line("{}".to_string())), Action::Receive));
    assert!(matches!(p.phase, Phase::Active));
    assert!(matches!(p.step(Event::Line(work_line())), Action::Receive));
    assert_eq!(p.latest_work.unwrap().block, 42);
}

#[test]
fn work_before_login_ack_is_kept() {
    let mut p = active();
    p.step(Event::Line(work_line()));
    let stored = p.latest_work.unwrap();
    assert_eq!(stored.target[31], 0xff);
    assert_eq!(stored.header, [0u8; 32]);
    assert!(matches!(p.step(Event::Line("{\"id\":1,\"result\":true}".to_string())), Action::Receive));
    assert_eq!(p.latest_work.unwrap(), stored);
    assert!(matches!(p.phase, Phase::Active));
}

#[test]
fn bad_work_keeps_previous_work() {
    let mut p = active();
    p.step(Event::Line(work_line()));
    p.step(Event::Line("{\"id\":0,\"result\":[\"0x1\"]}".to_string()));
    assert_eq!(p.latest_work.unwrap().block, 42);
}

#[test]
fn failure_after_login_waits_once_then_reconnects() {
    let mut p = active();
    let before = (p.config.upstream_url.clone(), p.config.wallet_address, p.config.worker_name.clone(), p.config.web3.clone());
    match p.step(Event::Failed) {
        Action::Sleep(s) => assert_eq!(s, 5),
        _ => panic!("expected sleep"),
    }
    assert_eq!(RECONNECT_DELAY_SECS, 5);
    assert!(matches!(p.phase, Phase::Backoff));
    assert!(matches!(p.step(Event::Failed), Action::Nothing));
    assert!(matches!(p.step(Event::Line(work_line())), Action::Nothing));
    match p.step(Event::Slept) {
        Action::Connect { upstream, node } => {
            assert_eq!(upstream, before.0);
            assert_eq!(node, before.3);
        }
        _ => panic!("expected connect"),
    }
    assert!(matches!(p.phase, Phase::Connecting));
    assert_eq!(p.attempts, 2);
    assert!(p.latest_work.is_none());
    let after = (p.config.upstream_url.clone(), p.config.wallet_address, p.config.worker_name.clone(), p.config.web3.clone());
    assert_eq!(before, after);
}

#[test]
fn connect_failure_backs_off() {
    let (mut p, _) = PoolInner::new(config());
    assert!(matches!(p.step(Event::Failed), Action::Sleep(5)));
    assert!(matches!(p.step(Event::Slept), Action::Connect { .. }));
    assert!(matches!(p.step(Event::Connected), Action::Send(_)));
}

#[test]
fn events_out_of_phase_are_ignored() {
    let (mut p, _) = PoolInner::new(config());
    assert!(matches!(p.step(Event::LoginSent), Action::Nothing));
    assert!(matches!(p.step(Event::Line("{}".to_string())), Action::Nothing));
    assert!(matches!(p.phase, Phase::Connecting));
}
