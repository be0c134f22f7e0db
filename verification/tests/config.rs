use mqtt_client::blufi::BluFiConfig;
use mqtt_client::config::{
    board_serial, config_path, default_device_id, device_id_from_serial, filled_device_id,
    AppConfig, ConfigError, DeviceConfig, DownloadConfig, MoonrakerConfig, MqttConfig, UdsConfig,
    PLACEHOLDER_DEVICE_ID,
};

fn example() -> AppConfig {
    let text = r#"
[device]
id = "G1234"
mb = "MB_V2"
sf1 = "V1.0"
sf2 = "V1.0"
wf = "MY_WIFI"
lang = 0

[mqtt]
broker = "127.0.0.1"
port = 1883
keepalive_secs = 60
clean_session = false

[moonraker]
host = "127.0.0.1"
port = 7125

[download]
dir = "/mnt/udisk"
"#;
    let t: toml::Table = toml::from_str(text).expect("parse");
    let get = |section: &str, key: &str| t[section][key].clone();
    let text_of = |section: &str, key: &str| get(section, key).as_str().unwrap().to_string();
    AppConfig {
        device: DeviceConfig {
            id: text_of("device", "id"),
            mb: text_of("device", "mb"),
            sf1: text_of("device", "sf1"),
            sf2: text_of("device", "sf2"),
            wf: text_of("device", "wf"),
            lang: get("device", "lang").as_integer().unwrap() as u8,
        },
        mqtt: MqttConfig {
            broker: text_of("mqtt", "broker"),
            port: get("mqtt", "port").as_integer().unwrap() as u16,
            keepalive_secs: get("mqtt", "keepalive_secs").as_integer().unwrap() as u16,
            clean_session: get("mqtt", "clean_session").as_bool().unwrap(),
            username: None,
            password: None,
        },
        moonraker: MoonrakerConfig {
            host: text_of("moonraker", "host"),
            port: get("moonraker", "port").as_integer().unwrap() as u16,
        },
        download: DownloadConfig { dir: text_of("download", "dir"), ..Default::default() },
        blufi: BluFiConfig::default(),
        uds: UdsConfig::default(),
    }
}

#[test]
fn parse_example_config() {
    let cfg = example();
    assert_eq!(cfg.device.id, "G1234");
    assert!(!cfg.mqtt.clean_session);
    assert_eq!(cfg.moonraker.port, 7125);
    assert_eq!(cfg.up_topic(), "GT/MXS/UP/G1234");
    assert_eq!(cfg.down_topic(), "GT/MXS/DOWN/G1234");
    assert_eq!(cfg.lwt_topic(), "GT/MXS/LWT/G1234");
    assert!(cfg.validate().is_ok());
}

#[test]
fn reject_empty_device_id() {
    let cfg = AppConfig {
        device: DeviceConfig {
            id: "".into(),
            mb: "".into(),
            sf1: "".into(),
            sf2: "".into(),
            wf: "".into(),
            lang: 0,
        },
        mqtt: MqttConfig::default(),
        moonraker: MoonrakerConfig::default(),
        download: DownloadConfig::default(),
        blufi: BluFiConfig::default(),
        uds: UdsConfig::default(),
    };
    assert!(cfg.validate().is_err());
}

#[test]
fn device_id_from_serial_ok() {
    assert_eq!(device_id_from_serial("e33700a6620dfddc"), "Ge33700a6620dfddc");
    assert_eq!(device_id_from_serial(" e33700a6620dfddc "), "Ge33700a6620dfddc");
    for serial in [None, Some("e33700a6620dfddc")] {
        let id = default_device_id(serial);
        assert!(id.starts_with('G') && id.len() >= 2);
        assert!(id.len() <= 64);
    }
}

#[test]
fn default_config_is_valid() {
    let cfg = AppConfig::default();
    assert!(cfg.validate().is_ok(), "default config must pass validation");
    assert_eq!(cfg.device.id, PLACEHOLDER_DEVICE_ID);
    assert_eq!(cfg.mqtt.port, 1883);
    assert_eq!(cfg.download.max_file_bytes, 512 * 1024 * 1024);
    assert_eq!(cfg.uds.socket_path, "/run/mqtt-client/ui.sock");
    assert!(cfg.blufi.enabled);
}

#[test]
fn validation_messages() {
    let mut cfg = example();
    cfg.download.chunk_size = 0;
    let ConfigError::Invalid(m) = cfg.validate().unwrap_err();
    assert_eq!(m, "download.chunk_size 非法");
    cfg.mqtt.port = 0;
    let ConfigError::Invalid(m) = cfg.validate().unwrap_err();
    assert_eq!(m, "mqtt.port / keepalive_secs 非法");
    cfg.device.id = "x".repeat(65);
    let e = cfg.validate().unwrap_err();
    let shown = e.message();
    let ConfigError::Invalid(m) = e;
    assert_eq!(m, "device.id 必须为非空且 ≤64 字符");
    assert!(shown.contains(&m));
}

#[test]
fn serial_numbers_are_found() {
    let cpuinfo = "processor : 0\nSerial\t\t: \nSerial\t\t: e33700a6620dfddc\r\n";
    assert_eq!(board_serial(cpuinfo), Some("e33700a6620dfddc".to_string()));
    assert_eq!(board_serial("model : x\n"), None);
    assert_eq!(default_device_id(Some("ab")), "Gab");
    assert_eq!(default_device_id(None), "G000000000000");
}

#[test]
fn placeholder_ids_are_filled() {
    assert_eq!(filled_device_id("", Some("ab")), Some("Gab".to_string()));
    assert_eq!(filled_device_id("G000000000000", Some("ab")), Some("Gab".to_string()));
    assert_eq!(filled_device_id("G1", Some("ab")), None);
    assert_eq!(filled_device_id("", None), None);
}

#[test]
fn config_path_precedence() {
    let a = Some("a".to_string());
    let e = Some("e".to_string());
    assert_eq!(config_path(a.clone(), e.clone()), "a");
    assert_eq!(config_path(None, e), "e");
    assert_eq!(config_path(None, None), "config/mqtt-client.toml");
}

#[test]
fn session_settings() {
    let mut cfg = example();
    assert_eq!(cfg.mqtt_username(), "G1234");
    cfg.mqtt.username = Some("u".into());
    assert_eq!(cfg.mqtt_username(), "u");
    cfg.mqtt.broker = "[::1]".into();
    assert_eq!(cfg.broker_host(), "::1");
    assert_eq!(cfg.moonraker_ws_url(), "ws://127.0.0.1:7125/websocket");
}
