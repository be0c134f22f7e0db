use mqtt_client::blufi::frame::{
    checksum, make_ack, split_for_tx, split_type, type_byte, BluFiFrame, FragmentAssembler,
    FrameError, PKG_CTRL, PKG_DATA,
};
use mqtt_client::blufi::{fc, ftype};

#[test]
fn type_byte_conversion() {
    assert_eq!(type_byte(PKG_CTRL, ftype::GET_WIFI_LIST), 0x24);
    assert_eq!(type_byte(PKG_DATA, ftype::CUSTOM_DATA), 0x4D);
    assert_eq!(split_type(0x24), (PKG_CTRL, ftype::GET_WIFI_LIST));
    assert_eq!(split_type(0x4D), (PKG_DATA, ftype::CUSTOM_DATA));
}

#[test]
fn encode_decode_roundtrip() {
    let f = BluFiFrame::new(PKG_DATA, ftype::WIFI_LIST, fc::DIRECTION, 7, b"hello".to_vec());
    let bytes = f.encode();
    let d = BluFiFrame::decode(&bytes).unwrap();
    assert_eq!(d.pkg_type, PKG_DATA);
    assert_eq!(d.subtype, ftype::WIFI_LIST);
    assert_eq!(d.sequence, 7);
    assert_eq!(d.data, b"hello");
}

#[test]
fn fragment_reassemble() {
    let payload: Vec<u8> = (1u8..=10).collect();
    let frames = split_for_tx(PKG_DATA, ftype::WIFI_LIST, fc::DIRECTION, 1, &payload, 5);
    assert!(frames.len() >= 2);
    assert!(frames[0].frame_ctrl & fc::FRAGMENTED != 0);
    let mut assembler = FragmentAssembler::new();
    let mut result = None;
    for fr in &frames {
        if let Ok(Some(p)) = assembler.feed(fr) {
            result = Some(p);
        }
    }
    assert_eq!(result, Some(payload));
}

#[test]
fn fragment_large_payload_respects_u8_len() {
    let payload: Vec<u8> = (0u8..=255).cycle().take(600).collect();
    let frames = split_for_tx(PKG_DATA, ftype::WIFI_LIST, fc::DIRECTION, 1, &payload, 514);
    assert!(frames.len() >= 3, "600 字节应分多片");
    for f in &frames {
        assert!(f.data.len() <= 255, "每片 data 必须 ≤ 255");
        let enc = f.encode();
        assert_eq!(
            enc[3] as usize,
            f.data.len(),
            "data_len 字段(enc[3])不得与真实 data 长度不一致"
        );
    }
    let mut assembler = FragmentAssembler::new();
    let mut result = None;
    for fr in &frames {
        if let Ok(Some(p)) = assembler.feed(fr) {
            result = Some(p);
        }
    }
    assert_eq!(result, Some(payload));
}

#[test]
fn ack_frame_well_formed() {
    let ack = make_ack(0x2A);
    assert_eq!(ack.pkg_type, PKG_CTRL);
    assert_eq!(ack.subtype, ftype::ACK);
    assert_eq!(ack.data, vec![0x2A]);
    assert!(ack.frame_ctrl & fc::DIRECTION != 0);
}

#[test]
fn checksum_round_trip_and_errors() {
    let f = BluFiFrame::new(PKG_DATA, ftype::CUSTOM_DATA, fc::HAS_CHECKSUM, 9, vec![1, 2, 3]);
    let mut bytes = f.encode();
    assert_eq!(bytes.len(), 9);
    assert_eq!(BluFiFrame::decode(&bytes).unwrap().data, vec![1, 2, 3]);
    let calc = checksum(9, 3, &[1, 2, 3]);
    bytes[7] ^= 0xff;
    match BluFiFrame::decode(&bytes) {
        Err(FrameError::ChecksumMismatch { got, calc: c }) => {
            assert_eq!(c, calc);
            assert_ne!(got, calc);
        }
        other => panic!("{:?}", other),
    }
    assert!(matches!(BluFiFrame::decode(&[1, 2, 3]), Err(FrameError::TooShort)));
    assert!(matches!(
        BluFiFrame::decode(&[0x4D, 0, 1, 5, 1, 2]),
        Err(FrameError::LenMismatch { expect: 5, actual: 2 })
    ));
}

#[test]
fn encoding_what_was_decoded_gives_the_bytes_back() {
    let raw = vec![0x4D, 0x08, 3, 2, 10, 11];
    let f = BluFiFrame::decode(&raw).unwrap();
    assert!(f.needs_ack());
    assert_eq!(f.type_byte(), 0x4D);
    assert_eq!(f.encode(), raw);
}

#[test]
fn frame_numbers_wrap() {
    let payload = vec![7u8; 20];
    let frames = split_for_tx(PKG_DATA, ftype::WIFI_LIST, fc::DIRECTION, 254, &payload, 8);
    let numbers: Vec<u8> = frames.iter().map(|f| f.sequence).collect();
    assert_eq!(numbers, vec![254, 255, 0]);
    assert!(frames[1].frame_ctrl & fc::FRAGMENTED == 0);
}

#[test]
fn short_fragment_is_an_error() {
    let mut assembler = FragmentAssembler::default();
    let f = BluFiFrame::new(PKG_DATA, ftype::WIFI_LIST, fc::FRAGMENTED, 0, vec![1]);
    assert!(matches!(assembler.feed(&f), Err(FrameError::TooShort)));
}
