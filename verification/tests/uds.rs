use mqtt_client::downlink::{UiCmd, UiReply};
use mqtt_client::state::UiState;
use mqtt_client::uds::{
    answer, dispatch, error_json, frame_error_json, frame_len, ok_json, serve, write_frame,
    Dispatched, MAX_MSG_LEN,
};
use serde_json::Value;

fn value(bytes: &[u8]) -> Value {
    serde_json::from_slice(bytes).unwrap()
}

fn reply(d: Dispatched) -> Value {
    match d {
        Dispatched::Reply(b) => value(&b),
        other => panic!("{:?}", other),
    }
}

#[test]
fn frame_roundtrip() {
    let payload = br#"{"id":"x","ok":true}"#;
    let frame = write_frame(payload).unwrap();
    let n = frame_len(&frame[..4]).unwrap();
    let got = &frame[4..4 + n];
    assert_eq!(got, payload);
    assert_eq!(frame.len(), 4 + n);
}

#[test]
fn dispatch_unknown() {
    let mut st = UiState::default();
    let v = reply(dispatch(br#"{"id":"2","method":"nope"}"#, &mut st));
    assert_eq!(v["ok"], false);
    assert!(v["error"].as_str().unwrap().contains("unknown method"));
    assert_eq!(v["error"], "unknown method: nope");
    assert_eq!(v["id"], "2");
}

#[test]
fn frame_limits() {
    assert_eq!(frame_len(&[0, 0, 0, 0]).unwrap_err(), "bad frame len 0");
    assert_eq!(frame_len(&[0, 0, 1, 0]).unwrap(), MAX_MSG_LEN);
    assert_eq!(frame_len(&[1, 0, 1, 0]).unwrap_err(), "bad frame len 65537");
    assert_eq!(frame_len(&[255, 255, 255, 255]).unwrap_err(), "bad frame len 4294967295");
    assert_eq!(write_frame(&vec![0; MAX_MSG_LEN + 1]).unwrap_err(), "payload too large");
    let f = write_frame(&vec![7; 0x123]).unwrap();
    assert_eq!(&f[..4], &[0x23, 0x01, 0, 0]);
}

#[test]
fn bind_status_is_answered_at_once() {
    let mut st = UiState {
        cloud_connected: true,
        bind_state: 2,
        account: "a\"b".into(),
        ..UiState::default()
    };
    let v = reply(dispatch(br#"{"id":"7","method":"bind_status"}"#, &mut st));
    assert_eq!(v["ok"], true);
    let r = &v["result"];
    assert_eq!(r["cloud_connected"], true);
    assert_eq!(r["moonraker_connected"], false);
    assert_eq!(r["bound"], false);
    assert_eq!(r["bind_state"], 2);
    assert_eq!(r["account"], "a\"b");
}

#[test]
fn downloads_are_guarded() {
    let mut st = UiState::default();
    let req =
        br#"{"id":"u1","method":"download","params":{"file_type":257,"file_name":"a.gcode","url":"https://h"}}"#;
    match dispatch(req, &mut st) {
        Dispatched::Ask { id, cmd: UiCmd::Download { file_type, file_name, url } } => {
            assert_eq!(id, "u1");
            assert_eq!((file_type, file_name.as_str()), (1, "a.gcode"));
            assert_eq!(url.as_deref(), Some("https://h"));
        }
        other => panic!("{:?}", other),
    }
    assert!(st.downloading);
    let busy = reply(dispatch(req, &mut st));
    assert_eq!(busy["result"]["err_code"], 1);
    let done = answer("u1", true, Some(UiReply::Done(Value::from(3))), &mut st);
    assert_eq!(value(&done)["result"], 3);
    assert!(!st.downloading);
}

#[test]
fn answers_of_the_dispatcher() {
    let mut st = UiState { downloading: true, ..UiState::default() };
    let failed = answer("i", false, Some(UiReply::Failed("no".into())), &mut st);
    assert_eq!(value(&failed)["error"], "no");
    assert!(st.downloading);
    let none = answer("i", false, None, &mut st);
    assert_eq!(value(&none)["error"], "dispatcher unavailable");
    assert_eq!(none, error_json("i", "dispatcher unavailable"));
}

#[test]
fn requests_without_fields() {
    let mut st = UiState::default();
    match serve(&value(br#"{"method":"unbind"}"#), &mut st) {
        Dispatched::Ask { id, cmd: UiCmd::Unbind } => assert_eq!(id, ""),
        other => panic!("{:?}", other),
    }
    match serve(&value(br#"{"method":"download"}"#), &mut st) {
        Dispatched::Ask { cmd: UiCmd::Download { file_type: 0, file_name, url: None }, .. } => {
            assert_eq!(file_name, "")
        }
        other => panic!("{:?}", other),
    }
    let v = reply(dispatch(b"[]", &mut st));
    assert_eq!(v["error"], "unknown method: ");
}

#[test]
fn broken_requests_are_answered() {
    let mut st = UiState::default();
    let v = reply(dispatch(b"{", &mut st));
    assert_eq!(v["id"], "");
    assert!(v["error"].as_str().unwrap().starts_with("invalid json: "));
    assert_eq!(value(&frame_error_json("bad frame len 0"))["error"], "frame error: bad frame len 0");
    assert_eq!(ok_json("a", Value::Null), br#"{"id":"a","ok":true,"result":null}"#.to_vec());
}
