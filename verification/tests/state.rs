use mqtt_client::state::{
    reconnect_delay_millis, ConnState, ConnStateMachine, FifoItem, UiState, UplinkFifo,
};

#[test]
fn conn_state_login_flow() {
    let mut c = ConnStateMachine::default();
    c.on_connect(100);
    assert_eq!(c.state, ConnState::Connecting);
    c.on_login_sent(100);
    assert_eq!(c.state, ConnState::AwaitLoginReply);
    assert!(!c.login_reply_timeout(110));
    assert!(c.login_reply_timeout(120));
    c.on_login_reply(0, 121);
    assert_eq!(c.state, ConnState::Ready);
    assert!(c.bound);
    c.on_login_reply(1, 122);
    assert!(!c.bound);
}

#[test]
fn heartbeat_due_logic() {
    let mut c = ConnStateMachine::default();
    c.on_connect(0);
    c.on_login_sent(0);
    c.on_login_reply(1, 1);
    c.last_status_publish_ts = 1;
    assert!(!c.heartbeat_due(100));
    assert!(c.heartbeat_due(181));
}

#[test]
fn fifo_capacity_and_priority() {
    let mut f = UplinkFifo::new(3);
    f.push(FifoItem { priority: 5, payload: b"low".to_vec() });
    f.push(FifoItem { priority: 0, payload: b"high".to_vec() });
    f.push(FifoItem { priority: 3, payload: b"mid".to_vec() });
    assert_eq!(f.len(), 3);
    f.push(FifoItem { priority: 1, payload: b"new".to_vec() });
    assert_eq!(f.len(), 3);
    assert_eq!(f.pop().unwrap().payload, b"high".to_vec());
    assert_eq!(f.pop().unwrap().payload, b"new".to_vec());
    assert_eq!(f.pop().unwrap().payload, b"mid".to_vec());
    assert!(f.pop().is_none());
}

#[test]
fn fifo_drop_lower_priority_new() {
    let mut f = UplinkFifo::new(1);
    f.push(FifoItem { priority: 0, payload: b"a".to_vec() });
    f.push(FifoItem { priority: 9, payload: b"b".to_vec() });
    assert_eq!(f.len(), 1);
    assert_eq!(f.pop().unwrap().payload, b"a".to_vec());
}

#[test]
fn equal_priorities_leave_in_order() {
    let mut f = UplinkFifo::new(0);
    f.push(FifoItem { priority: 2, payload: vec![1] });
    f.push(FifoItem { priority: 2, payload: vec![2] });
    assert_eq!(f.len(), 1);
    assert_eq!(f.pop().unwrap().payload, vec![1]);
    assert!(f.is_empty());
    let mut g = UplinkFifo::new(4);
    for n in [1u8, 2, 3] {
        g.push(FifoItem { priority: 7, payload: vec![n] });
    }
    assert_eq!(g.pop().unwrap().payload, vec![1]);
    assert_eq!(g.pop().unwrap().payload, vec![2]);
}

#[test]
fn error_ends_the_wait_for_a_login() {
    let mut c = ConnStateMachine::default();
    c.on_connect(10);
    c.on_login_sent(10);
    c.on_error();
    assert_eq!(c.state, ConnState::Reconnecting);
    assert!(!c.login_reply_timeout(1000));
    assert!(c.login_sent_at_ts.is_none());
}

#[test]
fn downlinks_put_the_heartbeat_off() {
    let mut c = ConnStateMachine::default();
    c.on_connect(0);
    c.on_login_reply(0, 0);
    c.on_downlink(100);
    assert!(!c.heartbeat_due(200));
    assert!(c.heartbeat_due(280));
}

#[test]
fn reconnect_is_wanted_after_failed_logins() {
    let mut c = ConnStateMachine::default();
    c.on_connect(0);
    c.on_login_sent(0);
    assert!(!c.should_reconnect(15));
    assert!(c.should_reconnect(16));
    c.on_login_sent(20);
    assert!(!c.should_reconnect(20));
    c.on_login_sent(20);
    assert!(c.should_reconnect(20));
}

#[test]
fn user_interface_starts_blank() {
    let u = UiState::default();
    assert!(!u.cloud_connected && !u.downloading && !u.bound);
    assert_eq!(u.account, "");
}

#[test]
fn equals_leave_in_order_of_arrival() {
    let mut f = UplinkFifo::new(2);
    f.push(FifoItem { priority: 5, payload: b"a".to_vec() });
    f.push(FifoItem { priority: 1, payload: b"b".to_vec() });
    f.push(FifoItem { priority: 1, payload: b"c".to_vec() });
    assert_eq!(f.pop().unwrap().payload, b"b".to_vec());
    assert_eq!(f.pop().unwrap().payload, b"c".to_vec());
    assert!(f.pop().is_none());
}

#[test]
fn sessions_follow_at_once_or_after_a_pause() {
    assert_eq!(reconnect_delay_millis(true), 0);
    assert_eq!(reconnect_delay_millis(false), 5000);
}
