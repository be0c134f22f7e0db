use mqtt_client::blufi::codec::{
    encode_connect_state, encode_scan_list, encode_scan_list_fitting, encode_version,
    parse_provisioning, CodecError, ScanItem, FAILED_MSG, RECEIVED_MSG,
};

#[test]
fn parse_basic() {
    let p = parse_provisioning(b"SSID:home,PWD:12345678\r").unwrap();
    assert_eq!(p.ssid, "home");
    assert_eq!(p.pwd, "12345678");
    assert!(p.ip.is_none());
}

#[test]
fn parse_empty_pwd_open_network() {
    let p = parse_provisioning(b"SSID:open,PWD:").unwrap();
    assert_eq!(p.ssid, "open");
    assert_eq!(p.pwd, "");
}

#[test]
fn parse_ssid_with_space() {
    let p = parse_provisioning(b"SSID:My WiFi,PWD:ab cd").unwrap();
    assert_eq!(p.ssid, "My WiFi");
    assert_eq!(p.pwd, "ab cd");
}

#[test]
fn parse_full_fields() {
    let p = parse_provisioning(b"SSID:s,PWD:p,IP:1.2.3.4,PORT:8883").unwrap();
    assert_eq!(p.ip, Some("1.2.3.4".to_string()));
    assert_eq!(p.port, Some(8883));
}

#[test]
fn parse_missing_ssid_is_error() {
    assert!(parse_provisioning(b"PWD:x").is_err());
}

#[test]
fn scan_list_encode() {
    let items = vec![ScanItem { ssid: "A".into(), rssi: -50 }];
    assert_eq!(encode_scan_list(&items), vec![2, 206, b'A']);
}

#[test]
fn connect_state_encode() {
    assert_eq!(encode_connect_state(0x00), vec![1, 0]);
    assert_eq!(encode_connect_state(0x01), vec![1, 1]);
}

#[test]
fn connect_state_is_minimal_two_bytes() {
    assert_eq!(encode_connect_state(0x00).len(), 2);
}

#[test]
fn scan_list_fitting_truncates() {
    let items = vec![
        ScanItem { ssid: "A".into(), rssi: -30 },
        ScanItem { ssid: "BB".into(), rssi: -40 },
        ScanItem { ssid: "CCC".into(), rssi: -50 },
    ];
    let d = encode_scan_list_fitting(&items, 6);
    assert_eq!(d, vec![2, (-30i8) as u8, b'A']);
    let d2 = encode_scan_list_fitting(&items, 7);
    assert_eq!(d2, vec![2, (-30i8) as u8, b'A', 3, (-40i8) as u8, b'B', b'B']);
    let d3 = encode_scan_list_fitting(&items, 255);
    assert_eq!(d3, encode_scan_list(&items));
}

#[test]
fn fitting_keeps_one_network_at_least() {
    let items = vec![
        ScanItem { ssid: "long name".into(), rssi: 1 },
        ScanItem { ssid: "b".into(), rssi: 0 },
    ];
    let d = encode_scan_list_fitting(&items, 3);
    assert_eq!(d.len(), 11);
    assert_eq!(&d[..2], &[10, 1]);
    assert!(encode_scan_list_fitting(&[], 3).is_empty());
}

#[test]
fn names_count_in_bytes() {
    let items = vec![ScanItem { ssid: "\u{e9}".into(), rssi: -1 }];
    assert_eq!(encode_scan_list(&items), vec![3, 255, 0xc3, 0xa9]);
}

#[test]
fn version_is_two_bytes() {
    assert_eq!(encode_version(1, 3), vec![1, 3]);
}

#[test]
fn provisioning_errors() {
    assert!(matches!(parse_provisioning(b"PWD:x"), Err(CodecError::MissingField("SSID"))));
    assert!(matches!(parse_provisioning(b"SSID:x"), Err(CodecError::MissingField("PWD"))));
    assert!(matches!(
        parse_provisioning(b"SSID:x,PWD:y,PORT:70000"),
        Err(CodecError::InvalidPort)
    ));
    assert!(matches!(parse_provisioning(b"PORT:a"), Err(CodecError::InvalidPort)));
    assert!(matches!(parse_provisioning(&[0xff, 0xfe]), Err(CodecError::Utf8(_))));
    assert_eq!(CodecError::MissingField("PWD").message(), "missing field: PWD");
    assert_eq!(CodecError::InvalidPort.message(), "invalid port");
    let broken = parse_provisioning(b"SSID:\xff").unwrap_err();
    assert_eq!(broken.message(), "utf8: invalid utf-8 sequence of 1 bytes from index 5");
}

#[test]
fn provisioning_details() {
    let p = parse_provisioning("SSID:a,x,SSID:caf\u{e9} ,PWD: p,PORT:+80\r\n".as_bytes()).unwrap();
    assert_eq!(p.ssid, "caf\u{e9}");
    assert_eq!(p.pwd, " p");
    assert_eq!(p.port, Some(80));
    let lower = parse_provisioning(b"ssid:a,SSID:b,PWD:c").unwrap();
    assert_eq!(lower.ssid, "b");
}

#[test]
fn provisioning_reads_back_what_was_sent() {
    for end in ["", "\r", " \r\n"] {
        let data = format!("SSID:{},PWD:{}{}", "net 1", "a:b;c", end);
        let p = parse_provisioning(data.as_bytes()).unwrap();
        assert_eq!((p.ssid.as_str(), p.pwd.as_str()), ("net 1", "a:b;c"));
    }
}

#[test]
fn messages_to_the_app() {
    assert_eq!(RECEIVED_MSG, "Received SSID and password");
    assert_eq!(FAILED_MSG, "Wifi connection failed");
}
