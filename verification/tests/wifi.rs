use mqtt_client::blufi::codec::ScanItem;
use mqtt_client::blufi::wifi::{
    extract_ip, find_network_id, is_fail, merge_scan_items, parse_scan_results, run, run_checked,
    CmdOutcome, ConnectRun, ScanRun, ScanStage, Stage, WifiError, WifiManager, WifiStatus,
};
use mqtt_client::blufi::BluFiConfig;

fn manager() -> WifiManager {
    WifiManager::new(&BluFiConfig::default())
}

fn pairs(items: &[ScanItem]) -> Vec<(String, i8)> {
    items.iter().map(|i| (i.ssid.clone(), i.rssi)).collect()
}

#[test]
fn run_checked_treats_fail_as_error() {
    assert!(is_fail("FAIL\n"));
    assert!(is_fail("OK\nFAIL\n"));
    assert!(!is_fail("OK\n"));
    assert!(!is_fail("0\n"));
}

#[test]
fn failures_name_their_command() {
    let args = vec!["save_config".to_string(), "now".to_string()];
    let e = run_checked(&args, Ok(" fail \n".to_string())).unwrap_err();
    assert_eq!(e.message(), "cmd failed (-1): save_config now -> fail");
    assert_eq!(run_checked(&args, Ok("OK\n".to_string())).unwrap(), "OK\n");
    let busy = run_checked(&args, Ok("FAIL-BUSY\n".to_string())).unwrap_err();
    assert_eq!(busy.message(), "cmd failed (-1): save_config now -> FAIL-BUSY");
    assert!(is_fail("FAILED") && is_fail("Fail") && !is_fail("failed"));
    assert!(matches!(run_checked(&args, Err(WifiError::Timeout)), Err(WifiError::Timeout)));
}

#[test]
fn outcomes_of_commands() {
    let denied = CmdOutcome::NotStarted { denied: true, message: "m".into() };
    assert_eq!(run(denied).unwrap_err().message(), "permission: m");
    let missing = CmdOutcome::NotStarted { denied: false, message: "m".into() };
    assert_eq!(run(missing).unwrap_err().message(), "cmd failed (-1): m");
    let failed = CmdOutcome::Failed { code: Some(255), stderr: "e".into() };
    assert_eq!(run(failed).unwrap_err().message(), "cmd failed (255): e");
    let killed = CmdOutcome::Failed { code: None, stderr: "".into() };
    assert_eq!(run(killed).unwrap_err().message(), "cmd failed (-1): ");
    assert_eq!(run(CmdOutcome::Ended { stdout: "o".into() }).unwrap(), "o");
    assert_eq!(WifiError::NoInterface.message(), "no interface");
    assert_eq!(WifiError::Parse("p".into()).message(), "parse: p");
    assert_eq!(WifiError::Timeout.message(), "timeout");
    assert_eq!(WifiError::CmdFailed(i32::MIN, "".into()).message(), "cmd failed (-2147483648): ");
}

#[test]
fn addresses_are_found() {
    assert_eq!(extract_ip("a=b\nip_address= 10.0.0.2 \r\n"), Some("10.0.0.2".to_string()));
    assert_eq!(extract_ip("ip_address=\nip_address=1.1.1.1"), Some("1.1.1.1".to_string()));
    assert_eq!(extract_ip("wpa_state=COMPLETED\n"), None);
}

#[test]
fn networks_are_found() {
    let list = "network id / ssid / bssid / flags\n0\thome\tany\t[CURRENT]\nx\twork\tany\n 2 \twork\tany\n";
    assert_eq!(find_network_id(list, "home"), Some(0));
    assert_eq!(find_network_id(list, "work"), Some(2));
    assert_eq!(find_network_id(list, "none"), None);
    assert_eq!(find_network_id("0\thome\n", "home"), None);
}

#[test]
fn scan_results_are_read() {
    let lines = [
        "aa:bb\t2412\t-40\t[WPA2]\thome",
        "aa:bb\t2412\t-200\t[WPA2]\tfar\tnet ",
        "aa:bb\t2412\t-50\t[WPA2]\t",
        "aa:bb\t2412\t-50\t[WPA2]",
    ];
    let items = parse_scan_results(&lines);
    assert_eq!(pairs(&items), vec![("home".to_string(), -40), ("far\tnet".to_string(), 0)]);
}

#[test]
fn merging_keeps_the_strongest() {
    let item = |s: &str, r: i8| ScanItem { ssid: s.to_string(), rssi: r };
    let mut acc = vec![item("a", -70)];
    merge_scan_items(&mut acc, &[item("b", -30), item("a", -60), item("b", -90)]);
    assert_eq!(pairs(&acc), vec![("a".to_string(), -60), ("b".to_string(), -30)]);
}

const SCAN_HEAD: &str = "bssid / frequency / signal level / flags / ssid\n";

#[test]
fn scans_are_read_three_times() {
    let mut scan = ScanRun::new(false, 5000);
    assert_eq!((scan.args(), scan.pause_ms()), (vec!["scan".to_string()], 5000));
    scan.step(Err(WifiError::Timeout)).unwrap();
    let outputs = [
        format!("{}x\t1\t-70\t[]\ta\n", SCAN_HEAD),
        SCAN_HEAD.to_string(),
        format!("{}x\t1\t-60\t[]\ta\nx\t1\t-1\t[]\tb\n", SCAN_HEAD),
    ];
    for out in outputs {
        assert_eq!(scan.stage, ScanStage::Read);
        assert_eq!((scan.args(), scan.pause_ms()), (vec!["scan_results".to_string()], 500));
        scan.step(Ok(out)).unwrap();
    }
    assert_eq!(scan.stage, ScanStage::Done);
    assert!(scan.args().is_empty());
    assert_eq!(pairs(&scan.found), vec![("a".to_string(), -60), ("b".to_string(), -1)]);
    let mut broken = ScanRun::new(false, 0);
    broken.step(Ok(String::new())).unwrap();
    assert!(matches!(broken.step(Err(WifiError::Timeout)), Err(WifiError::Timeout)));
}

#[test]
fn scans_come_back_to_the_network() {
    let mut scan = ScanRun::new(true, 4000);
    let mut commands: Vec<String> = Vec::new();
    let mut pauses = 0;
    while scan.stage != ScanStage::Done {
        commands.push(scan.args().join(" "));
        pauses += scan.pause_ms();
        scan.step(Ok(SCAN_HEAD.to_string())).unwrap();
    }
    let all = ["disconnect", "scan", "scan_results", "scan_results", "scan_results", "reconnect", ""];
    assert_eq!(commands, all);
    assert_eq!(pauses, 500 + 4000 + 3 * 500);
}

#[test]
fn states_of_the_interface() {
    let m = manager();
    assert!(m.probe(Ok("wpa_state=SCANNING".into())).is_ok());
    assert!(matches!(m.probe(Ok("".into())), Err(WifiError::NoInterface)));
    match m.status(Ok("ip_address=1.2.3.4\n".into())).unwrap() {
        WifiStatus::Connected { ip: Some(ip) } => assert_eq!(ip, "1.2.3.4"),
        other => panic!("{:?}", other),
    }
    assert!(matches!(
        m.status(Ok("wpa_state=COMPLETED\n".into())).unwrap(),
        WifiStatus::Connected { ip: None }
    ));
    assert!(matches!(m.status(Ok("".into())).unwrap(), WifiStatus::Disconnected));
    assert!(m.status(Err(WifiError::NoInterface)).is_err());
    assert!(m.is_connected(Ok("wpa_state=COMPLETED".into())));
    assert!(!m.is_connected(Err(WifiError::Timeout)));
}

#[test]
fn commands_name_the_interface() {
    let m = manager();
    assert_eq!(m.trigger_scan(), vec!["-i", "wlan0", "scan"]);
    assert_eq!(m.remove_network(12), vec!["-i", "wlan0", "remove_network", "12"]);
    assert_eq!(m.dhcp_args(), vec!["-i", "wlan0", "-p", "/var/run/udhcpc.wlan0.pid"]);
    assert_eq!(m.dhcp_pattern(), "udhcpc.*wlan0");
    assert_eq!(m.list_networks_text(Ok("x".into())), "x");
    assert_eq!(m.list_networks_text(Err(WifiError::Timeout)), "<读取失败: timeout>");
}

#[test]
fn scans_may_leave_the_network() {
    let mut m = manager();
    assert_eq!(m.scan_plan(true), (true, 4000));
    assert_eq!(m.scan_plan(false), (false, 5000));
    m.scan_timeout_ms = 100;
    assert_eq!(m.scan_plan(true), (true, 100));
    m.scan_disconnect_fallback = false;
    assert_eq!(m.scan_plan(true), (false, 100));
}

#[test]
fn joining_a_known_network() {
    let list = "head\n3\thome\tany\t\n";
    let mut run = ConnectRun::new("home", Some("secret"));
    let mut seen = Vec::new();
    while run.stage != Stage::Joined {
        seen.push(run.args().join(" "));
        let out = match run.stage {
            Stage::Find | Stage::FindAgain => list,
            Stage::Poll => "ip_address=10.0.0.5\n",
            _ => "OK\n",
        };
        run.step(Ok(out.to_string()), false).unwrap();
    }
    assert_eq!(
        seen,
        vec![
            "list_networks",
            "set_network 3 ssid \"home\"",
            "set_network 3 psk \"secret\"",
            "enable_network 3",
            "save_config",
            "reconfigure",
            "list_networks",
            "select_network 3",
            "",
            "status",
        ]
    );
}

#[test]
fn joining_a_new_open_network() {
    let mut run = ConnectRun::new("cafe", None);
    run.step(Ok("head\n".into()), false).unwrap();
    assert_eq!(run.stage, Stage::Add);
    assert_eq!(run.step(Ok("FAIL\n".into()), false).unwrap_err().message(), "parse: add_network: FAIL\n");
    run.step(Ok("7\n".into()), false).unwrap();
    run.step(Ok("OK".into()), false).unwrap();
    assert_eq!(run.args(), vec!["set_network", "7", "key_mgmt", "NONE"]);
    run.step(Ok("OK".into()), false).unwrap();
    run.step(Ok("OK".into()), false).unwrap();
    assert_eq!(run.stage, Stage::Save);
    let e = run.step(Ok("FAIL\n".into()), false).unwrap_err();
    assert_eq!(e.message(), "cmd failed (-1): save_config -> FAIL");
    assert_eq!(run.stage, Stage::Save);
}

#[test]
fn waiting_for_an_address_is_limited() {
    let mut run = ConnectRun::new("x", None);
    run.stage = Stage::FindAgain;
    run.step(Ok("head\n".into()), false).unwrap();
    assert_eq!(run.stage, Stage::Dhcp);
    run.step(Ok(String::new()), false).unwrap();
    run.step(Err(WifiError::Timeout), false).unwrap();
    assert_eq!(run.stage, Stage::Poll);
    assert!(matches!(run.step(Ok("".into()), true), Err(WifiError::Timeout)));
    run.step(Ok("ip_address=1.1.1.1".into()), true).unwrap();
    assert_eq!(run.stage, Stage::Joined);
}
