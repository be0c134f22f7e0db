use mqtt_client::blufi::codec::{ScanItem, RECEIVED_MSG};
use mqtt_client::blufi::frame::{split_for_tx, BluFiFrame, FragmentAssembler, PKG_CTRL, PKG_DATA};
use mqtt_client::blufi::worker::{after_poll, BluFiWorker, Need, Polled, SEQ_AFTER_VERSION};
use mqtt_client::blufi::{
    fc, ftype, BleLink, BleLinkError, BluFiConfig, BluFiState, BlufiCmd, BlufiEvent, SecurityMode,
    StubBleLink,
};

struct ReconnectLink {
    sent: Vec<Vec<u8>>,
    new_session: bool,
}

impl BleLink for ReconnectLink {
    fn send(&mut self, bytes: &[u8]) -> Result<(), BleLinkError> {
        self.sent.push(bytes.to_vec());
        Ok(())
    }
    fn try_recv(&mut self) -> Result<Option<Vec<u8>>, BleLinkError> {
        Ok(None)
    }
    fn take_new_session(&mut self) -> bool {
        let was = self.new_session;
        self.new_session = false;
        was
    }
}

fn worker_at(cfg: BluFiConfig, seq_out: u8) -> BluFiWorker {
    BluFiWorker {
        cfg,
        assembler: FragmentAssembler::new(),
        seq_out,
        state: BluFiState::WaitApp,
    }
}

#[test]
fn worker_handles_custom_data() {
    let mut link = StubBleLink::new();
    let prov_raw = b"SSID:testnet,PWD:secret123";
    let frame = BluFiFrame::new(PKG_DATA, ftype::CUSTOM_DATA, 0, 1, prov_raw.to_vec());
    link.push_incoming(frame.encode());

    let mut w = BluFiWorker::new(BluFiConfig::default());
    let (ev, version) = w.start();
    assert!(matches!(ev, BlufiEvent::EnterConfigMode));
    assert!(link.send(&version).is_ok());
    assert_eq!(version, vec![0x41, 0x04, 0, 2, 1, 0]);

    let bytes = link.try_recv().unwrap().unwrap();
    let r = w.on_app_frame(&bytes);
    assert!(r.ack.is_none());
    assert_eq!(r.burst.frames.len(), 3);
    assert_eq!(r.burst.pause_ms, 500);
    assert_eq!(&r.burst.frames[0][4..], RECEIVED_MSG.as_bytes());
    assert_eq!(w.state, BluFiState::Connecting);
    match r.need {
        Need::Connect { ssid, pwd } => {
            assert_eq!((ssid.as_str(), pwd.as_deref()), ("testnet", Some("secret123")))
        }
        other => panic!("{:?}", other),
    }
    assert!(link.try_recv().unwrap().is_none());
    assert!(!link.take_new_session());
}

#[test]
fn reconnect_resets_tx_sequence() {
    let mut link = ReconnectLink { sent: Vec::new(), new_session: false };
    let mut ctx = worker_at(BluFiConfig::default(), 5);

    ctx.handle_new_session(link.take_new_session());
    assert_eq!(ctx.seq_out, 5);

    link.new_session = true;
    ctx.handle_new_session(link.take_new_session());
    assert_eq!(ctx.seq_out, SEQ_AFTER_VERSION);

    let bytes = ctx.send_frame(PKG_DATA, ftype::CUSTOM_DATA, fc::DIRECTION, b"x");
    link.send(&bytes).unwrap();
    let frame = link.sent.last().expect("应发出一帧");
    assert_eq!(frame[2], 1, "重连后第一帧 seq 应为 1，实际 {}", frame[2]);
}

#[test]
fn repeat_frames_increment_sequence() {
    let mut cfg = BluFiConfig::default();
    cfg.ack_repeat = 3;
    cfg.ack_interval_ms = 0;
    let mut ctx = worker_at(cfg, 5);

    let sent = ctx.send_repeat(ftype::CUSTOM_DATA, RECEIVED_MSG.as_bytes()).frames;
    assert_eq!(sent.len(), 3, "应连发 3 帧");
    assert_eq!(sent[0][2], 5);
    assert_eq!(sent[1][2], 6, "seq 必须递增，重复 seq 会被库丢弃");
    assert_eq!(sent[2][2], 7);
    assert_eq!(ctx.seq_out, 8, "3 帧后 seq 应为 8");
}

#[test]
fn bluetooth_name_format() {
    let cfg = BluFiConfig::default();
    assert_eq!(cfg.bluetooth_name("M1S", "Ge33700a6620dfddc"), "M1S-Ge33700a6620dfddc");
    let cfg2 = BluFiConfig { name_prefix: "M2".into(), ..Default::default() };
    assert_eq!(cfg2.bluetooth_name("M1S", "Ge33700a6620dfddc"), "M2-Ge33700a6620dfddc");
    assert_eq!(cfg.local_name("G1"), "G1");
    assert_eq!(cfg2.local_name("G1"), "M2-G1");
}

#[test]
fn repeats_happen_at_least_once_and_wrap() {
    let cfg = BluFiConfig { ack_repeat: 0, ..Default::default() };
    let mut w = worker_at(cfg, 255);
    let sent = w.send_repeat(ftype::CUSTOM_DATA, b"a").frames;
    assert_eq!(sent.len(), 1);
    assert_eq!(w.seq_out, 0);
}

#[test]
fn acknowledgements_and_garbage() {
    let mut w = worker_at(BluFiConfig::default(), 9);
    let f = BluFiFrame::new(PKG_CTRL, ftype::NEGOTIATE, fc::NEED_ACK, 33, vec![0]);
    let r = w.on_app_frame(&f.encode());
    assert_eq!(r.ack, Some(vec![0x00, 0x04, 0, 1, 33]));
    assert!(matches!(r.need, Need::Nothing));
    assert_eq!(w.seq_out, 9);
    let g = w.on_app_frame(&[1, 2]);
    assert!(g.ack.is_none() && g.burst.frames.is_empty());
}

#[test]
fn scans_are_answered() {
    let mut w = worker_at(BluFiConfig::default(), 1);
    let f = BluFiFrame::new(PKG_CTRL, ftype::GET_WIFI_LIST, 0, 0, vec![]);
    assert!(matches!(w.on_app_frame(&f.encode()).need, Need::Scan));
    assert_eq!(w.state, BluFiState::Scanning);
    let found = vec![
        ScanItem { ssid: "a".into(), rssi: -80 },
        ScanItem { ssid: "b".into(), rssi: -40 },
        ScanItem { ssid: "c".into(), rssi: -80 },
        ScanItem { ssid: "d".into(), rssi: -60 },
    ];
    let b = w.scan_done(Some(found));
    assert_eq!(w.state, BluFiState::WaitApp);
    assert_eq!(b.frames.len(), 1);
    let names: Vec<u8> = b.frames[0][4..].chunks(3).map(|e| e[2]).collect();
    assert_eq!(names, b"bdac".to_vec());
    assert_eq!(w.seq_out, 2);
    let failed = w.scan_done(None);
    assert_eq!(failed.frames, vec![vec![0x49, 0x04, 2, 1, 0x0b]]);
}

#[test]
fn long_lists_go_out_in_fragments() {
    let found: Vec<ScanItem> =
        (0..40).map(|n| ScanItem { ssid: format!("network-{:02}", n), rssi: -n }).collect();
    let mut w = worker_at(BluFiConfig::default(), 10);
    let b = w.scan_done(Some(found.clone()));
    assert_eq!(b.frames.len(), 2);
    let numbers: Vec<u8> = b.frames.iter().map(|f| f[2]).collect();
    assert_eq!(numbers, vec![10, 11]);
    assert_eq!(w.seq_out, 12);
    let cfg = BluFiConfig { scan_single_frame_bytes: 255, ..Default::default() };
    let mut single = worker_at(cfg, 10);
    let b = single.scan_done(Some(found));
    assert_eq!(b.frames.len(), 1);
    assert!(b.frames[0].len() <= 259);
}

#[test]
fn bad_provisioning_fails_once() {
    let mut w = worker_at(BluFiConfig::default(), 4);
    let f = BluFiFrame::new(PKG_DATA, ftype::CUSTOM_DATA, 0, 0, b"PWD:x".to_vec());
    let r = w.on_app_frame(&f.encode());
    assert!(matches!(r.need, Need::Nothing));
    assert_eq!(r.burst.frames.len(), 1);
    assert_eq!(&r.burst.frames[0][4..], b"Wifi connection failed");
    assert_eq!((w.seq_out, w.state), (5, BluFiState::WaitApp));
}

#[test]
fn joining_is_reported() {
    let mut w = worker_at(BluFiConfig::default(), 4);
    let (b, ev) = w.connect_done("net", None);
    assert_eq!(b.frames, vec![vec![0x3d, 0x04, 4, 2, 1, 0]]);
    assert!(matches!(ev, BlufiEvent::WifiConnected { ssid } if ssid == "net"));
    assert_eq!(w.state, BluFiState::Finish);
    let (b, ev) = w.connect_done("net", Some("timeout"));
    assert_eq!(b.frames.len(), 3);
    assert_eq!(b.pause_ms, 500);
    assert!(matches!(ev, BlufiEvent::WifiFailed { reason } if reason == "timeout"));
    assert_eq!((w.state, w.seq_out), (BluFiState::Failed, 8));
}

#[test]
fn new_sessions_forget_fragments() {
    let mut w = worker_at(BluFiConfig::default(), 40);
    let first = BluFiFrame::new(PKG_DATA, ftype::CUSTOM_DATA, fc::FRAGMENTED, 0, vec![9, 0, 1]);
    assert!(matches!(w.on_app_frame(&first.encode()).need, Need::Nothing));
    w.handle_new_session(true);
    let whole = BluFiFrame::new(PKG_DATA, ftype::CUSTOM_DATA, 0, 0, b"SSID:a,PWD:".to_vec());
    let r = w.on_app_frame(&whole.encode());
    assert!(matches!(r.need, Need::Connect { pwd: None, .. }));
    assert_eq!(r.burst.frames[0][2], 1);
}

#[test]
fn security_modes() {
    for m in [SecurityMode::Plain, SecurityMode::Crc16, SecurityMode::Aes, SecurityMode::DhAes] {
        assert_eq!(SecurityMode::from_str(m.as_str()), m);
    }
    assert_eq!(SecurityMode::from_str("DHAES"), SecurityMode::DhAes);
    assert_eq!(SecurityMode::from_str("?"), SecurityMode::Plain);
    let cfg = BluFiConfig { security: "Crc16".into(), ..Default::default() };
    assert_eq!(cfg.security_mode(), SecurityMode::Crc16);
    assert_eq!(SecurityMode::default(), SecurityMode::Plain);
}

#[test]
fn link_errors_have_messages() {
    assert_eq!(BleLinkError::Send("x".into()).message(), "send: x");
    assert_eq!(BleLinkError::Recv("y".into()).message(), "recv: y");
    assert_eq!(BleLinkError::Closed.message(), "closed");
}

#[test]
fn fragments_are_one_message() {
    let raw = b"SSID:testnet,PWD:secret123";
    for max_payload in [3usize, 7, 25, 26, 200] {
        let frames =
            split_for_tx(PKG_DATA, ftype::CUSTOM_DATA, fc::NEED_ACK, 4, raw, max_payload);
        let mut w = worker_at(BluFiConfig::default(), 1);
        for (i, f) in frames.iter().enumerate() {
            let r = w.on_app_frame(&f.encode());
            assert_eq!(r.ack, Some(vec![0x00, 0x04, 0, 1, 4 + i as u8]));
            if i + 1 < frames.len() {
                assert!(matches!(r.need, Need::Nothing));
                assert!(r.burst.frames.is_empty());
            } else {
                match r.need {
                    Need::Connect { ssid, pwd } => assert_eq!(
                        (ssid.as_str(), pwd.as_deref()),
                        ("testnet", Some("secret123"))
                    ),
                    other => panic!("{:?}", other),
                }
            }
        }
    }
}

#[test]
fn orders_to_the_worker() {
    assert!(matches!(after_poll(Polled::Nothing), (true, None)));
    assert!(matches!(after_poll(Polled::Order(BlufiCmd::StartConfig)), (true, None)));
    assert!(matches!(after_poll(Polled::Closed), (false, None)));
    assert!(matches!(
        after_poll(Polled::Order(BlufiCmd::StopConfig)),
        (false, Some(BlufiEvent::ExitConfigMode))
    ));
}
