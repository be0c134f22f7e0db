use mqtt_client::app_state::{AppState, Temperature};
use mqtt_client::moonraker::state_bridge::{apply, numbers, Reading};
use mqtt_client::moonraker::{
    handle_notification, update_numbers, LinkAction, MoonrakerWorker, RpcNotification, RpcRequest,
    RpcResponse, Taken, SUBSCRIBE_OBJECTS,
};
use mqtt_client::state::Event;
use serde_json::Value;

fn object(text: &str) -> serde_json::Map<String, Value> {
    serde_json::from_str(text).unwrap()
}

fn value(text: &str) -> Value {
    serde_json::from_str(text).unwrap()
}

fn reading(bits: u64) -> Reading {
    let x = f64::from_bits(bits);
    Reading {
        bits,
        temperature: Temperature { whole: x as i64, above: x > x.trunc() },
        percent: (x.clamp(0.0, 1.0) * 100.0).round() as u8,
        hundredths: (x * 100.0) as i32,
        seconds: x.max(0.0) as u64,
        over_half: x > 0.5,
    }
}

fn applied(s: &mut AppState, map: &serde_json::Map<String, Value>) {
    let table: Vec<Reading> = numbers(map).into_iter().map(reading).collect();
    apply(s, map, &table);
}

#[test]
fn bridge_applies_temps_and_print() {
    let mut s = AppState::default();
    let map = object(
        r#"{
            "extruder": {"temperature": 201.5, "target": 200.0},
            "heater_bed": {"temperature": 60.2, "target": 60.0},
            "print_stats": {"state": "printing", "progress": 0.42, "print_duration": 100.0, "total_duration": 300.0, "filename": "a.gcode"},
            "fan": {"speed": 0.75}
        }"#,
    );
    applied(&mut s, &map);
    assert_eq!(s.nozzle_actual, reading(201.5f64.to_bits()).temperature);
    assert_eq!(s.nozzle_actual, Temperature { whole: 201, above: true });
    assert_eq!(s.nozzle_target, Temperature::degrees(200));
    assert_eq!(s.bed_actual, reading(60.2f64.to_bits()).temperature);
    assert_eq!(s.print_state, 1);
    assert_eq!(s.print_progress, 42);
    assert_eq!(s.print_elapsed_secs, 100);
    assert_eq!(s.print_remain_secs, 200);
    assert_eq!(s.current_file, "a.gcode");
    assert_eq!(s.main_fan_pct, 75);
}

#[test]
fn bridge_handles_runout_and_mesh() {
    let mut s = AppState::default();
    let map = object(
        r#"{
            "runout_sensor": {"sensor": {"runout": true, "enabled": true}},
            "bed_mesh": {"profiles": ["default"]},
            "gcode_move": {"homing_origin": [0.0, 0.0, -0.15]}
        }"#,
    );
    applied(&mut s, &map);
    assert!(s.runout);
    assert!(s.level_ok);
    assert_eq!(s.zoffset_x100, -15);
}

#[test]
fn rpc_request_serializes() {
    let req = RpcRequest {
        id: 7,
        jsonrpc: "2.0",
        method: "printer.gcode.script".into(),
        params: value(r#"{"script": "G28"}"#),
    };
    let s = req.to_text();
    assert!(s.contains("\"id\":7"));
    assert!(s.contains("\"method\":\"printer.gcode.script\""));
    assert_eq!(
        s,
        r#"{"id":7,"jsonrpc":"2.0","method":"printer.gcode.script","params":{"script":"G28"}}"#
    );
}

#[test]
fn updates_touch_what_they_mention() {
    let mut s = AppState { current_file: "old".into(), light: true, ..Default::default() };
    s.moonraker_connected = true;
    let map = object(
        r#"{
            "virtual_sdcard": {"progress": 2},
            "print_stats": {"filename": "", "progress": 0.1, "total_duration": 5},
            "heater_fan": {"speed": 1},
            "output_pin": {"beeper": {"value": 0.6}, "my_light": {"value": 0.5}, "z": {"value": 1}},
            "led": {"a": {"state": "off"}, "b": {"state": "on"}},
            "toolhead": {"x": 1},
            "extruder": 5
        }"#,
    );
    applied(&mut s, &map);
    assert_eq!(s.print_progress, 100);
    assert_eq!(s.current_file, "old");
    assert_eq!(s.print_remain_secs, 5);
    assert_eq!(s.board_fan_pct, 100);
    assert!(s.beep && !s.light && s.breathing && s.sd_ok);
    let again = format!("{:?}", s);
    applied(&mut s, &map);
    assert_eq!(format!("{:?}", s), again);
    applied(&mut s, &object(r#"{"webhooks": {}}"#));
    assert_eq!(format!("{:?}", s), again);
}

#[test]
fn numbers_without_readings_are_passed_over() {
    let mut s = AppState::default();
    let map = object(r#"{"extruder": {"temperature": 30.5}, "output_pin": {"light": {"value": 1}}}"#);
    assert_eq!(numbers(&map), vec![30.5f64.to_bits(), 1.0f64.to_bits()]);
    apply(&mut s, &map, &[]);
    assert_eq!(s.nozzle_actual, Temperature::degrees(0));
    assert!(!s.light);
}

#[test]
fn connecting_subscribes_and_queries() {
    let mut s = AppState::default();
    let (sub, query, event) = MoonrakerWorker::<()>::after_connect(&mut s);
    assert!(s.moonraker_connected);
    assert!(matches!(event, Event::MrConnected));
    let v = value(&sub);
    assert_eq!(v["id"], 0);
    assert_eq!(v["method"], "printer.objects.subscribe");
    let names: Vec<&str> =
        v["params"]["objects"].as_array().unwrap().iter().map(|o| o.as_str().unwrap()).collect();
    assert_eq!(names, SUBSCRIBE_OBJECTS.to_vec());
    assert_eq!(value(&query)["method"], "printer.objects.query");
    assert!(matches!(MoonrakerWorker::<()>::lost(&mut s), Event::MrDisconnected));
    assert!(!s.moonraker_connected);
}

#[test]
fn responses_find_their_requests() {
    let mut w: MoonrakerWorker<&str> = MoonrakerWorker::new();
    assert_eq!(w.send_request(1, "one", true), None);
    assert_eq!(w.send_request(2, "two", false), Some("two"));
    let ok = RpcResponse { id: Some(1), result: Some(Value::from(5)), error: None };
    match w.take_response(Some(ok)) {
        Taken::Answer { waiting, result } => {
            assert_eq!(waiting, "one");
            assert_eq!(result, Ok(Value::from(5)));
        }
        _ => panic!("no answer"),
    }
    let late = RpcResponse { id: Some(1), result: None, error: None };
    assert!(matches!(w.take_response(Some(late)), Taken::Ignored));
    let plain = RpcResponse { id: None, result: None, error: None };
    assert!(matches!(w.take_response(Some(plain)), Taken::NoResponse));
    assert!(matches!(w.take_response(None), Taken::NoResponse));
    w.send_request(3, "three", true);
    let failed = RpcResponse { id: Some(3), result: None, error: Some(value(r#"{"code":-1}"#)) };
    match w.take_response(Some(failed)) {
        Taken::Answer { result, .. } => assert_eq!(result, Err(r#"{"code":-1}"#.to_string())),
        _ => panic!("no answer"),
    }
    w.send_request(4, "four", true);
    let empty = RpcResponse { id: Some(4), result: None, error: None };
    match w.take_response(Some(empty)) {
        Taken::Answer { result, .. } => assert_eq!(result, Err("no result".to_string())),
        _ => panic!("no answer"),
    }
}

#[test]
fn heartbeats_come_every_fifty_rounds() {
    let mut w: MoonrakerWorker<()> = MoonrakerWorker::new();
    for _ in 0..2 {
        for _ in 0..49 {
            assert!(w.beat().is_none());
        }
        let text = w.beat().unwrap();
        assert_eq!(text, r#"{"id":0,"jsonrpc":"2.0","method":"server.info","params":{}}"#);
    }
}

#[test]
fn notifications_are_handled() {
    let mut s = AppState::default();
    let n = RpcNotification {
        method: "notify_status_update".into(),
        params: Some(value(r#"[{"extruder": {"temperature": 50}}, 1.5]"#)),
    };
    let table: Vec<Reading> = update_numbers(&n).into_iter().map(reading).collect();
    assert!(matches!(handle_notification(&n, &mut s, &table), Some(Event::StatusUpdated)));
    assert_eq!(s.nozzle_actual, Temperature::degrees(50));
    let ready = RpcNotification { method: "notify_klippy_ready".into(), params: None };
    assert!(update_numbers(&ready).is_empty());
    assert!(matches!(handle_notification(&ready, &mut s, &[]), Some(Event::MrConnected)));
    assert!(s.moonraker_connected);
    let gone = RpcNotification { method: "notify_klippy_disconnected".into(), params: None };
    assert!(matches!(handle_notification(&gone, &mut s, &[]), Some(Event::MrDisconnected)));
    assert!(!s.moonraker_connected);
    let other = RpcNotification { method: "notify_gcode_response".into(), params: None };
    assert!(handle_notification(&other, &mut s, &[]).is_none());
}

#[test]
fn rounds_of_the_worker() {
    let mut s = AppState::default();
    let mut w: MoonrakerWorker<u8> = MoonrakerWorker::new();
    assert!(matches!(w.turn(true, &mut s), (LinkAction::Connect, None)));
    assert!(matches!(w.turn(false, &mut s), (LinkAction::Wait(3000), None)));
    assert!(matches!(w.turn(true, &mut s), (LinkAction::Connect, None)));
    match w.turn(true, &mut s) {
        (LinkAction::Watch { subscribe, query }, Some(Event::MrConnected)) => {
            assert_eq!(value(&subscribe)["method"], "printer.objects.subscribe");
            assert_eq!(value(&query)["method"], "printer.objects.query");
        }
        other => panic!("{:?}", other),
    }
    assert!(s.moonraker_connected);
    for round in 1..50 {
        assert!(matches!(w.turn(true, &mut s), (LinkAction::SendQueued, None)));
        assert!(matches!(w.turn(true, &mut s), (LinkAction::Read, None)));
        assert!(matches!(w.turn(true, &mut s), (LinkAction::Wait(200), None)), "round {}", round);
    }
    assert!(matches!(w.turn(true, &mut s), (LinkAction::SendQueued, None)));
    assert!(matches!(w.turn(true, &mut s), (LinkAction::Read, None)));
    match w.turn(true, &mut s) {
        (LinkAction::Beat(text), None) => assert_eq!(
            value(&text),
            value(r#"{"id":0,"jsonrpc":"2.0","method":"server.info","params":{}}"#)
        ),
        other => panic!("{:?}", other),
    }
    let lost = w.turn(false, &mut s);
    assert!(matches!(lost, (LinkAction::Wait(200), Some(Event::MrDisconnected))));
    assert!(!s.moonraker_connected);
    assert!(matches!(w.turn(true, &mut s), (LinkAction::Connect, None)));
}

#[test]
fn broken_reads_reconnect() {
    let mut s = AppState::default();
    let mut w: MoonrakerWorker<u8> = MoonrakerWorker::new();
    for ok in [true, true, true, true] {
        w.turn(ok, &mut s);
    }
    assert!(s.moonraker_connected);
    let lost = w.turn(false, &mut s);
    assert!(matches!(lost, (LinkAction::Wait(200), Some(Event::MrDisconnected))));
    assert!(!s.moonraker_connected);
    assert!(matches!(w.turn(true, &mut s), (LinkAction::Connect, None)));
}

#[test]
fn frames_are_responses_first() {
    let mut s = AppState::default();
    let mut w: MoonrakerWorker<u8> = MoonrakerWorker::new();
    assert!(w.send_request(5, 9, true).is_none());
    let ready = || Some(RpcNotification { method: "notify_klippy_ready".into(), params: None });
    let response = |id| Some(RpcResponse { id, result: Some(value("1")), error: None });
    match w.handle_frame(response(Some(5)), ready(), &mut s, &[]) {
        (Taken::Answer { waiting, result }, None) => {
            assert_eq!((waiting, result), (9, Ok(value("1"))))
        }
        _ => panic!("no answer"),
    }
    assert!(!s.moonraker_connected);
    assert!(matches!(
        w.handle_frame(response(Some(5)), ready(), &mut s, &[]),
        (Taken::Ignored, None)
    ));
    assert!(matches!(
        w.handle_frame(response(None), ready(), &mut s, &[]),
        (Taken::NoResponse, Some(Event::MrConnected))
    ));
    assert!(s.moonraker_connected);
    assert!(matches!(w.handle_frame(None, None, &mut s, &[]), (Taken::NoResponse, None)));
}
