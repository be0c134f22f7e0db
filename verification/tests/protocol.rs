use mqtt_client::app_state::{AppState, Temperature};
use mqtt_client::config::DeviceConfig;
use mqtt_client::protocol::{DownlinkMsg, UplinkMsg, KIND_GCODE};
use serde_json::Value;

fn device() -> DeviceConfig {
    DeviceConfig {
        id: "G9".into(),
        mb: "MB".into(),
        sf1: "1".into(),
        sf2: "2".into(),
        wf: "W".into(),
        lang: 0,
    }
}

#[test]
fn build_login() {
    let d = device();
    let v: Value = serde_json::from_slice(&UplinkMsg::login(&d, "192.168.1.1", 42)).unwrap();
    assert_eq!(v["type"], "login");
    assert_eq!(v["id"], "G9");
    assert_eq!(v["ip"], "192.168.1.1");
    assert_eq!(v["ts"], 42);
}

#[test]
fn build_status_hardware() {
    let s = AppState {
        runout: true,
        beep: false,
        light: true,
        breathing: false,
        sd_ok: true,
        level_ok: false,
        door_open: true,
        ..Default::default()
    };
    let v: Value = serde_json::from_slice(&UplinkMsg::status_hardware("G9", &s, 7)).unwrap();
    assert_eq!(v["id"], "G9");
    assert_eq!(v["runout"], 1);
    assert_eq!(v["Breathing"], 0);
    assert_eq!(v["sd"], 1);
    assert_eq!(v["door"], 1);
}

#[test]
fn build_status_print_hms() {
    let s = AppState {
        print_state: 1,
        print_elapsed_secs: 3661,
        print_remain_secs: 61,
        print_progress: 50,
        current_file: "x.gcode".into(),
        zoffset_x100: -15,
        ..Default::default()
    };
    let v: Value = serde_json::from_slice(&UplinkMsg::status_print("G9", &s, 0)).unwrap();
    assert_eq!(v["id"], "G9");
    assert_eq!(v["printState"], 1);
    assert_eq!(v["printElapsedTime"]["hour"], 1);
    assert_eq!(v["printElapsedTime"]["min"], 1);
    assert_eq!(v["printElapsedTime"]["sec"], 1);
    assert_eq!(v["printRemainTime"]["sec"], 1);
    assert_eq!(v["zOffset"], -15);
    assert_eq!(v["currentPrintFile"], "x.gcode");
}

#[test]
fn build_file_list_reply() {
    let files = vec![("a.gcode".to_string(), 100u64), ("b.gcode".to_string(), 200u64)];
    let v: Value =
        serde_json::from_slice(&UplinkMsg::file_list_reply("G9", 2, 0, &files, 3)).unwrap();
    assert_eq!(v["id"], "G9");
    assert_eq!(v["fileTotal"], 2);
    assert_eq!(v["fileIndex"], 0);
    assert_eq!(v["fileList"][0]["fileName"], "a.gcode");
}

#[test]
fn login_packet_byte_for_byte() {
    let bytes = UplinkMsg::login(&device(), "1.2.3.4", 42);
    assert_eq!(
        String::from_utf8(bytes).unwrap(),
        r#"{"id":"G9","ip":"1.2.3.4","lang":0,"mb":"MB","sf1":"1","sf2":"2","ts":42,"type":"login","wf":"W"}"#
    );
}

#[test]
fn other_packets() {
    let alarm: Value = serde_json::from_slice(&UplinkMsg::alarm("G9", 3, "hot", 1)).unwrap();
    assert_eq!((&alarm["type"], &alarm["errType"]), (&Value::from("alarm"), &Value::from(3)));
    assert_eq!(alarm["errMsg"], "hot");
    let g: Value = serde_json::from_slice(&UplinkMsg::gcode_reply("G9", "M115", "OK", 1)).unwrap();
    assert_eq!((&g["cmdType"], &g["execResult"]), (&Value::from("M115"), &Value::from("OK")));
    let d: Value = serde_json::from_slice(&UplinkMsg::download_report(
        "G9",
        "download_begin",
        "a",
        1,
        "ERROR",
        2,
        5,
    ))
    .unwrap();
    assert_eq!(d["type"], "download_begin");
    assert_eq!(d["transState"], "ERROR");
    assert_eq!(d["errCode"], 2);
    let u: Value = serde_json::from_slice(&UplinkMsg::device_unbind("G9", 5)).unwrap();
    assert_eq!(u["type"], "device_unbind");
    let q: Value = serde_json::from_slice(&UplinkMsg::upgrade_query("G9", 5)).unwrap();
    assert_eq!(q["type"], "upgrade_query");
}

#[test]
fn temperatures_and_levelling() {
    let s = AppState {
        nozzle_actual: Temperature { whole: 201, above: true },
        bed_actual: Temperature { whole: -3, above: false },
        main_fan_pct: 75,
        leveling_point: 4,
        ..Default::default()
    };
    let t: Value = serde_json::from_slice(&UplinkMsg::status_temp_fan("G9", &s, 1)).unwrap();
    assert_eq!(t["type"], "status_temp_fan");
    assert_eq!(t["nozzleActualTemp"], 201);
    assert_eq!(t["bedActualTemp"], -3);
    assert_eq!(t["mainFanSpeed"], 75);
    let l: Value = serde_json::from_slice(&UplinkMsg::status_level("G9", &s, 1)).unwrap();
    assert_eq!(l["type"], "status_level");
    assert_eq!(l["levelingPoint"], 4);
}

#[test]
fn packets_from_the_cloud_start_empty() {
    let m = DownlinkMsg::default();
    assert_eq!(m.kind, "");
    assert!(m.url.is_none() && m.bind_state.is_none());
    assert_eq!(KIND_GCODE, "gcode");
}

#[test]
fn protocol_errors_have_messages() {
    assert_eq!(mqtt_client::protocol::ProtocolError("eof".into()).message(), "protocol: eof");
}
