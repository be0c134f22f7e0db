use mqtt_client::app_state::AppState;
use mqtt_client::blufi::BluFiConfig;
use mqtt_client::config::{
    AppConfig, DeviceConfig, DownloadConfig, MoonrakerConfig, MqttConfig, UdsConfig,
};
use mqtt_client::downlink::{DownlinkCmd, UiReply};
use mqtt_client::modules::AppModule;
use mqtt_client::protocol::DownlinkMsg;
use mqtt_client::state::{ConnState, Event, UiState};
use serde_json::Value;

const NOW: u64 = 1_700_000_000;

fn test_module() -> AppModule {
    AppModule::new(AppConfig {
        device: DeviceConfig {
            id: "G9".into(),
            mb: "M".into(),
            sf1: "1".into(),
            sf2: "2".into(),
            wf: "W".into(),
            lang: 0,
        },
        mqtt: MqttConfig::default(),
        moonraker: MoonrakerConfig::default(),
        download: DownloadConfig::default(),
        blufi: BluFiConfig::default(),
        uds: UdsConfig::default(),
    })
}

fn parse(payload: &[u8]) -> DownlinkMsg {
    let v: Value = serde_json::from_slice(payload).unwrap();
    let text = |key: &str| v.get(key).and_then(Value::as_str).map(str::to_string);
    let small = |key: &str| v.get(key).and_then(Value::as_u64).map(|n| n as u8);
    DownlinkMsg {
        kind: text("type").unwrap_or_default(),
        id: text("id"),
        ts: v.get("ts").and_then(Value::as_u64),
        bind_state: small("bindState"),
        account: text("account"),
        gcode_cmd: text("gcodeCmd"),
        file_type: small("fileType"),
        server_ip: text("serverIp"),
        file_name: text("fileName"),
        url: text("url"),
        ack_state: text("ackState"),
        mcu_file: text("mcuFile"),
        esp_file: text("espFile"),
    }
}

fn kind(packet: &[u8]) -> String {
    let v: Value = serde_json::from_slice(packet).unwrap();
    v["type"].as_str().unwrap().to_string()
}

#[test]
fn downlink_gcode_forwards() {
    let mut m = test_module();
    let mut ui = UiState::default();
    let msg = parse(br#"{"type":"gcode","gcodeCmd":"M115"}"#);
    let (cmd, answer) = m.handle_downlink(&msg, &mut ui, NOW);
    assert!(m.mods.gcode.pending_cmd_type.is_some());
    assert!(m.fifo.is_empty());
    assert!(answer.is_none());
    match cmd {
        Some(DownlinkCmd::Gcode { cmd_type, raw }) => {
            assert_eq!((cmd_type.as_str(), raw.as_str()), ("M115", "M115"))
        }
        other => panic!("{:?}", other),
    }
}

#[test]
fn downlink_login_reply_updates_conn() {
    let mut m = test_module();
    let mut ui = UiState::default();
    let msg = parse(br#"{"type":"login","bindState":0,"account":"acc"}"#);
    m.handle_downlink(&msg, &mut ui, NOW);
    assert_eq!(m.conn.state, ConnState::Ready);
    assert!(m.conn.bound);
    assert!(m.force_publish);
    assert_eq!(ui.account, "acc");
}

#[test]
fn downlink_login_bindstate_semantics() {
    let mut m = test_module();
    let mut ui = UiState::default();
    m.handle_downlink(&parse(br#"{"type":"login","bindState":1}"#), &mut ui, NOW);
    assert_eq!(m.conn.state, ConnState::Ready);
    assert!(!m.conn.bound, "bindState=1 应为未绑定");
    assert!(!m.force_publish, "未绑定时不应触发状态上报");
    assert!(m.fifo.is_empty(), "未绑定时不应发 device_unbind");

    let mut m2 = test_module();
    m2.handle_downlink(&parse(br#"{"type":"login","bindState":2}"#), &mut ui, NOW);
    assert!(!m2.conn.bound, "bindState=2 应为未绑定");
    assert!(m2.fifo.is_empty());
}

#[test]
fn downlink_status_query_forces_publish() {
    let mut m = test_module();
    let msg = parse(br#"{"type":"status_query"}"#);
    m.handle_downlink(&msg, &mut UiState::default(), NOW);
    assert!(m.force_publish);
}

#[test]
fn event_gcode_result_enqueues() {
    let mut m = test_module();
    let ev = Event::GcodeResult { cmd_type: "M115".into(), result: "OK".into() };
    m.drain_events(vec![ev], &mut AppState::default(), &mut UiState::default(), NOW);
    assert!(!m.fifo.is_empty());
    assert!(m.needs_immediate_publish());
}

#[test]
fn unbound_device_does_not_publish() {
    let mut m = test_module();
    let mut ui = UiState::default();
    let mut printer = AppState::default();
    m.handle_downlink(&parse(br#"{"type":"login","bindState":1}"#), &mut ui, NOW);
    assert!(!m.conn.bound);
    m.enqueue(b"{\"type\":\"alarm\"}".to_vec());
    m.conn.last_status_publish_ts = 0;

    let r = m.on_tick(vec![], &mut printer, &mut ui, "", NOW);
    assert!(r.packets.is_empty(), "未绑定时不应发布任何包");
    assert!(!m.fifo.is_empty(), "未绑定时包应留在 FIFO 中");

    m.handle_downlink(&parse(br#"{"type":"login","bindState":0}"#), &mut ui, NOW);
    assert!(m.conn.bound);
    let r2 = m.on_tick(vec![], &mut printer, &mut ui, "", NOW);
    assert!(!r2.packets.is_empty(), "绑定后应恢复发布");
}

#[test]
fn unbound_polls_login() {
    let mut m = test_module();
    let mut ui = UiState::default();
    m.handle_downlink(&parse(br#"{"type":"login","bindState":1}"#), &mut ui, NOW);
    assert!(!m.conn.bound);
    m.conn.last_unbound_retry_ts = 0;
    let r = m.on_tick(vec![], &mut AppState::default(), &mut ui, "", NOW);
    let has_login =
        r.packets.iter().any(|p| String::from_utf8_lossy(p).contains("\"type\":\"login\""));
    assert!(has_login, "未绑定时应每 5s 轮询重发 login，实际: {:?}", r.packets);
}

#[test]
fn session_starts_with_a_login() {
    let mut m = test_module();
    let mut ui = UiState::default();
    let packet = m.on_start(&mut ui, "10.0.0.9", NOW);
    assert_eq!(kind(&packet), "login");
    assert_eq!(m.conn.state, ConnState::AwaitLoginReply);
    assert!(ui.cloud_connected);
    assert_eq!(m.register(), "GT/MXS/DOWN/G9");
}

#[test]
fn unanswered_logins_are_repeated_and_given_up() {
    let mut m = test_module();
    let mut ui = UiState::default();
    let mut printer = AppState::default();
    m.on_start(&mut ui, "", NOW);
    assert!(m.on_tick(vec![], &mut printer, &mut ui, "", NOW + 15).packets.is_empty());
    assert_eq!(m.on_tick(vec![], &mut printer, &mut ui, "", NOW + 16).packets.len(), 1);
    assert_eq!(m.on_tick(vec![], &mut printer, &mut ui, "", NOW + 32).packets.len(), 1);
    assert_eq!(m.on_tick(vec![], &mut printer, &mut ui, "", NOW + 48).packets.len(), 0);
    assert_eq!(m.conn.state, ConnState::Reconnecting);
}

#[test]
fn bound_device_reports_its_state() {
    let mut m = test_module();
    let mut ui = UiState::default();
    let mut printer = AppState::default();
    m.handle_downlink(&parse(br#"{"type":"login","bindState":0}"#), &mut ui, NOW);
    let r = m.on_tick(vec![], &mut printer, &mut ui, "", NOW);
    let kinds: Vec<String> = r.packets.iter().map(|p| kind(p)).collect();
    assert_eq!(kinds, vec!["status_hardware", "status_temp_fan", "status_level", "status_print"]);
    assert!(m.on_tick(vec![], &mut printer, &mut ui, "", NOW + 9).packets.is_empty());
    printer.print_state = 1;
    assert_eq!(m.on_tick(vec![], &mut printer, &mut ui, "", NOW + 10).packets.len(), 4);
    assert_eq!(r.next.millis, 500);
}

#[test]
fn one_download_at_a_time() {
    let mut m = test_module();
    let mut ui = UiState::default();
    let ask = parse(
        br#"{"type":"download_begin","fileType":0,"serverIp":"10.0.0.1","fileName":"a.gcode","url":"http://u"}"#,
    );
    let (first, _) = m.handle_downlink(&ask, &mut ui, NOW);
    assert!(matches!(first, Some(DownlinkCmd::DownloadBegin { .. })));
    assert!(ui.downloading);
    let (second, _) = m.handle_downlink(&ask, &mut ui, NOW);
    assert!(second.is_none());
    m.command_lost(&first.unwrap(), &mut ui, NOW);
    assert!(!ui.downloading);
    let (third, _) = m.handle_downlink(&ask, &mut ui, NOW);
    let ended = Event::DownloadFinished {
        file_type: 0,
        file_name: "a.gcode".into(),
        err_code: 0,
        from_ui: false,
    };
    assert!(third.is_some());
    m.drain_events(vec![ended], &mut AppState::default(), &mut ui, NOW);
    assert!(!ui.downloading);
}

#[test]
fn firmware_queries_are_answered() {
    let mut m = test_module();
    let mut ui = UiState::default();
    let asked = Event::UpgradeQueryRequested { ticket: Some(7) };
    let none = m.drain_events(vec![asked], &mut AppState::default(), &mut ui, NOW);
    assert!(none.is_empty());
    let reply = parse(
        br#"{"type":"upgrade_query","serverIp":"1.2.3.4","mcuFile":"m.bin","espFile":"NA"}"#,
    );
    let (_, answer) = m.handle_downlink(&reply, &mut ui, NOW);
    let answer = answer.expect("an answer");
    assert_eq!(answer.ticket, 7);
    match answer.reply {
        UiReply::Done(v) => {
            assert_eq!(v["server_ip"], "1.2.3.4");
            assert_eq!(v["mcu_file"], "m.bin");
            assert_eq!(v["esp_file"], "");
        }
        other => panic!("{:?}", other),
    }
}

#[test]
fn unbinding_is_published_although_unbound() {
    let mut m = test_module();
    let mut ui = UiState::default();
    let mut printer = AppState::default();
    m.handle_downlink(&parse(br#"{"type":"login","bindState":1}"#), &mut ui, NOW);
    let r = m.on_tick(vec![Event::UiUnbind], &mut printer, &mut ui, "", NOW);
    let kinds: Vec<String> = r.packets.iter().map(|p| kind(p)).collect();
    assert_eq!(kinds, vec!["device_unbind"]);
}

#[test]
fn long_file_lists_go_out_in_parts() {
    let mut m = test_module();
    let files: Vec<(String, u64)> = (0..23).map(|n| (format!("f{}", n), n)).collect();
    let ev = Event::FileListResult { files };
    m.drain_events(vec![ev], &mut AppState::default(), &mut UiState::default(), NOW);
    assert_eq!(m.fifo.len(), 3);
    let first: Value = serde_json::from_slice(&m.fifo.pop().unwrap().payload).unwrap();
    assert_eq!(first["fileTotal"], 23);
    assert_eq!(first["fileList"].as_array().unwrap().len(), 10);
    m.fifo.pop();
    let last: Value = serde_json::from_slice(&m.fifo.pop().unwrap().payload).unwrap();
    assert_eq!(last["fileIndex"], 2);
    assert_eq!(last["fileList"][2]["fileName"], "f22");
}

#[test]
fn server_unbind_reaches_the_dispatcher() {
    let mut m = test_module();
    let mut ui = UiState { account: "a".into(), ..UiState::default() };
    m.handle_downlink(&parse(br#"{"type":"login","bindState":0}"#), &mut ui, NOW);
    let (cmd, _) = m.handle_downlink(&parse(br#"{"type":"server_unbind"}"#), &mut ui, NOW);
    assert!(matches!(cmd, Some(DownlinkCmd::ServerUnbind)));
    assert!(!m.conn.bound);
    assert_eq!((ui.bind_state, ui.account.as_str()), (1, ""));
    let (list, _) = m.handle_downlink(&parse(br#"{"type":"file_list"}"#), &mut ui, NOW);
    assert!(matches!(list, Some(DownlinkCmd::ListFiles)));
}
