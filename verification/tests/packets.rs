use mqtt_client::mqtt::client::{LastWill, MqttVersion};
use mqtt_client::mqtt::error::{MqttError, ProtocolError};
use mqtt_client::mqtt::packet::{
    decode, ConnAck, Connect, DecodePacket, Disconnect, EncodePacket, MqttPacket, PingReq, Property,
    PubAck, Publish, QoS, SubAck, Subscribe,
};
use mqtt_client::mqtt::transport::ErrorPlaceHolder;
use mqtt_client::mqtt::util::{
    read_properties, read_utf8_string, read_variable_byte_integer, write_properties,
    write_utf8_string, write_variable_byte_integer, write_variable_byte_integer_len,
};

fn message(qos: QoS, packet_id: Option<u16>) -> Publish<'static> {
    Publish {
        topic: "a/\u{e9}",
        qos,
        retain: true,
        payload: b"hi",
        packet_id,
        properties: heapless::Vec::new(),
    }
}

#[test]
fn lengths_are_written_and_read() {
    for (n, bytes) in [
        (0usize, vec![0u8]),
        (127, vec![127]),
        (128, vec![0x80, 1]),
        (16_383, vec![0xff, 0x7f]),
        (268_435_455, vec![0xff, 0xff, 0xff, 0x7f]),
    ] {
        let mut buf = [0u8; 6];
        let mut cursor = 0;
        write_variable_byte_integer(&mut cursor, &mut buf, n).unwrap();
        assert_eq!(&buf[..cursor], &bytes[..]);
        let mut read = 0;
        assert_eq!(read_variable_byte_integer(&mut read, &buf).unwrap(), n);
        assert_eq!(read, cursor);
        let mut other = [0u8; 6];
        assert_eq!(write_variable_byte_integer_len(&mut other, n).unwrap(), cursor);
        assert_eq!(other, buf);
    }
}

#[test]
fn broken_lengths_are_refused() {
    let mut cursor = 0;
    assert!(read_variable_byte_integer(&mut cursor, &[0x80, 0x80, 0x80, 0x80, 1]).is_err());
    let mut cursor = 0;
    assert!(read_variable_byte_integer(&mut cursor, &[0x80]).is_err());
    let mut cursor = 0;
    assert!(write_variable_byte_integer(&mut cursor, &mut [0u8; 1], 300).is_err());
}

#[test]
fn texts_are_written_and_read() {
    let mut buf = [0u8; 8];
    assert_eq!(write_utf8_string(&mut buf, "a\u{e9}").unwrap(), 5);
    assert_eq!(&buf[..5], &[0, 3, b'a', 0xc3, 0xa9]);
    let mut cursor = 0;
    assert_eq!(read_utf8_string(&mut cursor, &buf).unwrap(), "a\u{e9}");
    assert_eq!(cursor, 5);
    assert!(matches!(write_utf8_string(&mut [0u8; 2], "a"), Err(MqttError::BufferTooSmall)));
    let mut cursor = 0;
    assert!(matches!(
        read_utf8_string(&mut cursor, &[0, 1, 0xff]),
        Err(MqttError::Protocol(ProtocolError::InvalidUtf8String))
    ));
    let mut cursor = 0;
    assert!(matches!(
        read_utf8_string(&mut cursor, &[0, 9, b'a']),
        Err(MqttError::Protocol(ProtocolError::MalformedPacket))
    ));
}

#[test]
fn properties_are_written_and_read() {
    let mut buf = [0u8; 16];
    let mut cursor = 0;
    write_properties(&mut cursor, &mut buf, &[]).unwrap();
    assert_eq!((cursor, buf[0]), (1, 0));
    let mut cursor = 0;
    let read = read_properties(&mut cursor, &buf).unwrap();
    assert!(read.is_empty());
    assert_eq!(cursor, 1);
    let mut buf = [0u8; 16];
    let mut cursor = 2;
    let props = [Property { id: 1, data: &[9] }, Property { id: 37, data: &[0] }];
    write_properties(&mut cursor, &mut buf, &props).unwrap();
    assert_eq!((cursor, &buf[2..7]), (7, &[4u8, 1, 9, 37, 0][..]));
    let mut cursor = 2;
    let read = read_properties(&mut cursor, &buf).unwrap();
    assert_eq!(read.len(), 2);
    assert_eq!((read[0].id, read[0].data, read[1].id, read[1].data), (1, &[9u8][..], 37, &[0u8][..]));
    assert_eq!(cursor, 7);
}

#[test]
fn published_messages_round_trip() {
    for (qos, id) in [
        (QoS::AtMostOnce, None),
        (QoS::AtLeastOnce, Some(7)),
        (QoS::ExactlyOnce, Some(0x1234)),
    ] {
        let mut buf = [0u8; 64];
        let n = message(qos, id).encode(&mut buf, MqttVersion::V3).unwrap();
        let d = Publish::decode(&buf[..n], MqttVersion::V3).unwrap();
        assert_eq!((d.topic, d.qos, d.retain), ("a/\u{e9}", qos, true));
        assert_eq!((d.payload, d.packet_id), (&b"hi"[..], id));
    }
}

#[test]
fn a_published_message_byte_for_byte() {
    let mut buf = [0xAAu8; 32];
    let n = message(QoS::AtLeastOnce, Some(0x0102)).encode(&mut buf, MqttVersion::V3).unwrap();
    assert_eq!(&buf[..n], &[0x33, 10, 0, 4, b'a', b'/', 0xc3, 0xa9, 1, 2, b'h', b'i']);
    let small = message(QoS::AtMostOnce, None).encode(&mut [0u8; 6], MqttVersion::V3);
    assert_eq!(small.unwrap_err(), MqttError::BufferTooSmall);
}

#[test]
fn connecting_byte_for_byte() {
    let will = LastWill { topic: "w", payload: b"", qos: QoS::AtLeastOnce, retain: false };
    let c = Connect::with_credentials("id", 60, false, Some("u"), Some(b"p"), Some(will));
    let mut buf = [0u8; 64];
    let n = c.encode(&mut buf, MqttVersion::V3).unwrap();
    assert_eq!(&buf[..2], &[0x10, (n - 2) as u8]);
    assert_eq!(&buf[2..8], &[0, 4, b'M', b'Q', b'T', b'T']);
    assert_eq!(&buf[10..12], &[0, 60]);
    assert_eq!(&buf[12..16], &[0, 2, b'i', b'd']);
    assert_eq!(&buf[16..21], &[0, 1, b'w', 0, 0]);
    assert_eq!(&buf[21..n], &[0, 1, b'u', 0, 1, b'p']);
    let plain = Connect::new("id", 60, true);
    assert!(plain.username.is_none() && plain.will.is_none() && plain.properties.is_empty());
}

#[test]
fn acknowledged_connections() {
    let a = ConnAck::decode(&[0x20, 2, 1, 5], MqttVersion::V3).unwrap();
    assert!(a.session_present);
    assert_eq!(a.reason_code, 5);
    let b = ConnAck::decode(&[0x20, 3, 0, 0, 0], MqttVersion::V5).unwrap();
    assert!(!b.session_present && b.properties.is_empty());
}

#[test]
fn subscriptions() {
    let s = Subscribe::new(9, "t", QoS::AtLeastOnce);
    assert_eq!(s.topics.as_slice(), &[("t", QoS::AtLeastOnce)]);
    let mut buf = [0u8; 32];
    let n = s.encode(&mut buf, MqttVersion::V3).unwrap();
    assert_eq!(&buf[..n], &[0x82, 6, 0, 9, 0, 1, b't', 1]);
    let a = SubAck::decode(&[0x90, 4, 0, 9, 1, 0x80], MqttVersion::V3).unwrap();
    assert_eq!(a.packet_id, 9);
    assert_eq!(a.reason_codes.as_slice(), &[1, 0x80]);
    let many = [0x90, 12, 0, 9, 0, 1, 2, 3, 4, 5, 6, 7, 8, 9];
    let full = SubAck::decode(&many, MqttVersion::V3).unwrap();
    assert_eq!(full.reason_codes.as_slice(), &[0, 1, 2, 3, 4, 5, 6, 7]);
}

#[test]
fn short_packets() {
    let mut buf = [9u8; 4];
    assert_eq!(PingReq.encode(&mut buf, MqttVersion::V3).unwrap(), 2);
    assert_eq!(buf, [0xC0, 0, 9, 9]);
    let d = Disconnect { reason_code: 0, properties: heapless::Vec::new() };
    assert_eq!(d.encode(&mut buf, MqttVersion::V3).unwrap(), 2);
    assert_eq!(&buf[..2], &[0xE0, 0]);
    assert_eq!(PingReq.encode(&mut [0u8; 1], MqttVersion::V3).unwrap_err(), MqttError::BufferTooSmall);
    assert_eq!(PubAck::decode(&[0x40, 2, 0, 1], MqttVersion::V3).unwrap().packet_id, 0);
}

fn kind(buf: &[u8]) -> Result<Option<MqttPacket<'_>>, MqttError<ErrorPlaceHolder>> {
    decode::<ErrorPlaceHolder>(buf, MqttVersion::V3)
}

#[test]
fn packets_are_told_apart() {
    assert!(kind(&[]).unwrap().is_none());
    assert!(matches!(kind(&[0x20, 2, 0, 0]).unwrap(), Some(MqttPacket::ConnAck(_))));
    assert!(matches!(kind(&[0x30, 3, 0, 1, b'a']).unwrap(), Some(MqttPacket::Publish(_))));
    assert!(matches!(kind(&[0x40, 2, 0, 1]).unwrap(), Some(MqttPacket::PubAck(_))));
    assert!(matches!(kind(&[0x90, 3, 0, 1, 0]).unwrap(), Some(MqttPacket::SubAck(_))));
    assert!(matches!(kind(&[0xC0, 0]).unwrap(), Some(MqttPacket::PingReq)));
    assert!(matches!(kind(&[0xD0, 0]).unwrap(), Some(MqttPacket::PingResp)));
    assert!(matches!(kind(&[0xE0, 0]).unwrap(), Some(MqttPacket::Disconnect(_))));
    match kind(&[0xF0, 0]) {
        Err(e) => assert_eq!(e, MqttError::Protocol(ProtocolError::InvalidPacketType(15))),
        Ok(_) => panic!("no such packet"),
    }
    match kind(&[0x36, 3, 0, 1, b'a']) {
        Err(e) => assert_eq!(e, MqttError::Protocol(ProtocolError::MalformedPacket)),
        Ok(_) => panic!("no such quality"),
    }
}

#[test]
fn qualities_have_codes() {
    for q in [QoS::AtMostOnce, QoS::AtLeastOnce, QoS::ExactlyOnce] {
        assert_eq!(QoS::from_code(q.code()), Some(q));
    }
    assert_eq!(QoS::from_code(3), None);
    assert_eq!(Property { id: 1, data: b"x" }.id, 1);
    let e: MqttError<ErrorPlaceHolder> = MqttError::BufferTooSmall;
    assert_eq!(e.cast_transport_error::<ErrorPlaceHolder>(), MqttError::BufferTooSmall);
}
