use mqtt_client::config::DownloadConfig;
use mqtt_client::downlink::{
    call_result, download_reply, exec_gcode, expand_tilde, gcode_root, handle,
    handle_ui, join_path, list_files, list_files_call, plan_download, roots_call, safe_name,
    starts_with_root, DownlinkCmd, DownloadPlan, GcodeStep, Transfer, TransferOutcome, TransferStep, UiCmd, UiReply, Work,
};
use mqtt_client::state::Event;
use serde_json::Value;

fn value(text: &str) -> Value {
    serde_json::from_str(text).unwrap()
}

#[test]
fn dl_cmd_type_matches() {
    let c = DownlinkCmd::Gcode { cmd_type: "G28".into(), raw: "G28".into() };
    match c {
        DownlinkCmd::Gcode { cmd_type, raw } => {
            assert_eq!(cmd_type, "G28");
            assert_eq!(raw, "G28");
        }
        _ => panic!("wrong variant"),
    }
}

fn called(raw: &str) -> (String, Value, u64, String, String) {
    match exec_gcode(raw) {
        GcodeStep::Call { call, on_ok, on_err } => (
            call.method.to_string(),
            call.params,
            call.timeout_secs,
            on_ok.to_string(),
            on_err.to_string(),
        ),
        other => panic!("{:?}", other),
    }
}

#[test]
fn gcode_becomes_calls() {
    let (method, params, secs, ok, err) = called("G28");
    assert_eq!(method, "printer.gcode.script");
    assert_eq!(params, value(r#"{"script":"G28"}"#));
    assert_eq!((secs, ok.as_str(), err.as_str()), (30, "OK", "ERR: "));
    let (method, params, ..) = called("G29");
    assert_eq!(method, "printer.gcode.script");
    assert_eq!(params, value(r#"{"script":"BED_MESH_CALIBRATE"}"#));
    let (method, params, secs, ok, err) = called("M32 a.gcode");
    assert_eq!(method, "printer.print.start");
    assert_eq!(params, value(r#"{"filename":"a.gcode"}"#));
    assert_eq!((secs, ok.as_str(), err.as_str()), (10, "File selected OK", "File open failed: "));
    let (method, params, secs, ..) = called("M25");
    assert_eq!((method.as_str(), secs), ("printer.print.pause", 10));
    assert_eq!(params, value("{}"));
    let (method, params, ..) = called("M30 a.gcode");
    assert_eq!(method, "server.files.delete_file");
    assert_eq!(params, value(r#"{"path":"a.gcode"}"#));
    assert!(matches!(exec_gcode("M20"), GcodeStep::ListFiles));
    assert!(matches!(exec_gcode(" "), GcodeStep::Reply(s) if s == "OK"));
    assert!(matches!(exec_gcode("M28 x"), GcodeStep::Reply(s) if s == "ERR: unsupported: M28 x"));
}

#[test]
fn results_of_calls() {
    assert_eq!(call_result("OK", "ERR: ", None), "OK");
    assert_eq!(call_result("OK", "ERR: ", Some("boom")), "ERR: boom");
}

#[test]
fn files_and_roots_are_asked_for() {
    let files = list_files_call();
    assert_eq!((files.method, files.timeout_secs), ("server.files.list", 5));
    assert_eq!(files.params, value(r#"{"root":"gcodes"}"#));
    let roots = roots_call();
    assert_eq!((roots.method, roots.timeout_secs), ("server.files.roots", 5));
    assert_eq!(roots.params, value("{}"));
}

#[test]
fn file_lists_are_read() {
    let v = value(r#"[{"path":"a.gcode","size":5},{"path":""},{"size":1},{"path":"b","size":-1},3]"#);
    assert_eq!(list_files(&v), vec![("a.gcode".to_string(), 5), ("b".to_string(), 0)]);
    assert!(list_files(&value("{}")).is_empty());
}

#[test]
fn gcode_root_is_found() {
    let v = value(r#"[{"name":"config","path":"/c"},{"name":"gcodes","path":"/g"}]"#);
    assert_eq!(gcode_root(&v), Some("/g".to_string()));
    assert_eq!(gcode_root(&value(r#"[{"name":"x"}]"#)), None);
    assert_eq!(gcode_root(&value("null")), None);
}

#[test]
fn names_are_stripped_of_directories() {
    assert_eq!(safe_name("a/b\\c.gcode"), "c.gcode");
    assert_eq!(safe_name("c.gcode"), "c.gcode");
    assert_eq!(safe_name("a/"), "");
    assert_eq!(safe_name("../../etc/passwd"), "passwd");
}

#[test]
fn tilde_is_the_home_directory() {
    assert_eq!(expand_tilde("~/x", Some("/root")), "/root/x");
    assert_eq!(expand_tilde("~/x", None), "~/x");
    assert_eq!(expand_tilde("/~/x", Some("/root")), "/~/x");
}

#[test]
fn roots_count_whole_components() {
    assert!(starts_with_root("/a/b/c", "/a/b"));
    assert!(starts_with_root("/a//./b/", "/a/b"));
    assert!(!starts_with_root("/a/bc", "/a/b"));
    assert!(!starts_with_root("a/b", "/a"));
    assert!(starts_with_root("/a", ""));
    assert!(!starts_with_root("/a", "./a"));
    for (dir, root) in [("/x/y", "/x"), ("/x", "/x/y"), ("./x", "x"), ("x/.", "x"), ("/", "/")] {
        assert_eq!(starts_with_root(dir, root), std::path::Path::new(dir).starts_with(root));
    }
}

#[test]
fn paths_are_joined() {
    assert_eq!(join_path("/a", "b"), "/a/b");
    assert_eq!(join_path("/a/", "b"), "/a/b");
    assert_eq!(join_path("", "b"), "b");
}

#[test]
fn downloads_are_planned() {
    let cfg = DownloadConfig { dir: "~/g".into(), ..DownloadConfig::default() };
    let p = plan_download(&cfg, Some("/h"), 0, "x/a.gcode", Some("http://u")).unwrap();
    assert_eq!((p.dir.as_str(), p.dest.as_str()), ("/h/g", "/h/g/a.gcode"));
    assert_eq!(p.url, "http://u");
    for file_type in [1, 2, 3, 255] {
        assert_eq!(plan_download(&cfg, None, file_type, "fw.bin", Some("u")).unwrap_err(), 4);
    }
    assert_eq!(plan_download(&cfg, None, 0, "a", None).unwrap_err(), 1);
    assert_eq!(plan_download(&cfg, None, 0, "a", Some("")).unwrap_err(), 1);
    assert_eq!(plan_download(&cfg, None, 0, "a/", Some("u")).unwrap_err(), 1);
    assert_eq!(plan_download(&cfg, None, 1, "a/", Some("u")).unwrap_err(), 1);
    assert_eq!(plan_download(&cfg, None, 1, "a", None).unwrap_err(), 1);
}

fn plan() -> DownloadPlan {
    DownloadPlan {
        url: "http://u".into(),
        dir: "/g/sub".into(),
        dest: "/g/sub/a.gcode".into(),
    }
}

fn after(max: u64, outcomes: Vec<TransferOutcome>) -> Transfer {
    let p = plan();
    let mut t = Transfer::new(max);
    for o in outcomes {
        t.on(&p, o);
    }
    t
}

#[test]
fn transfers_go_through_their_steps() {
    let p = plan();
    let mut t = Transfer::new(10);
    let steps = [
        (TransferStep::AskRoot, TransferOutcome::Root(Some("/g".into()))),
        (TransferStep::MakeDir, TransferOutcome::Done),
        (TransferStep::Request, TransferOutcome::Done),
        (TransferStep::Create, TransferOutcome::Done),
        (TransferStep::Read, TransferOutcome::Chunk(4)),
        (TransferStep::Write, TransferOutcome::Done),
        (TransferStep::Read, TransferOutcome::Chunk(6)),
        (TransferStep::Write, TransferOutcome::Done),
        (TransferStep::Read, TransferOutcome::Chunk(0)),
        (TransferStep::Flush, TransferOutcome::Done),
    ];
    for (step, outcome) in steps {
        assert_eq!(t.step, step);
        t.on(&p, outcome);
    }
    assert_eq!(t.step, TransferStep::Over { err_code: 0, remove: false });
    assert_eq!(t.total, 10);
}

fn done() -> TransferOutcome {
    TransferOutcome::Done
}

fn over(err_code: u8, remove: bool) -> TransferStep {
    TransferStep::Over { err_code, remove }
}

#[test]
fn transfers_stop_where_a_step_fails() {
    let elsewhere = vec![TransferOutcome::Root(Some("/other".into()))];
    assert_eq!(after(10, elsewhere).step, over(2, false));
    let unknown = || TransferOutcome::Root(None);
    assert_eq!(after(10, vec![]).step, TransferStep::AskRoot);
    assert_eq!(after(10, vec![unknown()]).step, TransferStep::MakeDir);
    assert_eq!(after(10, vec![unknown(), TransferOutcome::Failed]).step, over(2, false));
    assert_eq!(after(10, vec![unknown(), done(), TransferOutcome::Failed]).step, over(1, false));
    let uncreated = vec![unknown(), done(), done(), TransferOutcome::Failed];
    assert_eq!(after(10, uncreated).step, over(2, false));
    let begun = || vec![unknown(), done(), done(), done()];
    let mut broken = begun();
    broken.push(TransferOutcome::Failed);
    assert_eq!(after(10, broken).step, over(3, true));
    let mut too_long = begun();
    too_long.push(TransferOutcome::Chunk(11));
    let t = after(10, too_long);
    assert_eq!((t.step, t.total), (over(3, true), 0));
    let mut unwritten = begun();
    unwritten.push(TransferOutcome::Chunk(10));
    unwritten.push(TransferOutcome::Failed);
    assert_eq!(after(10, unwritten).step, over(2, true));
    let mut unflushed = begun();
    unflushed.push(TransferOutcome::Chunk(0));
    unflushed.push(TransferOutcome::Failed);
    assert_eq!(after(10, unflushed).step, over(2, true));
}

#[test]
fn download_replies() {
    match download_reply(0, Some("/a/b")) {
        UiReply::Done(v) => assert_eq!(v, value(r#"{"err_code":0,"dest":"/a/b"}"#)),
        other => panic!("{:?}", other),
    }
    match download_reply(0, None) {
        UiReply::Done(v) => assert_eq!(v, value(r#"{"err_code":0}"#)),
        other => panic!("{:?}", other),
    }
    match download_reply(12, None) {
        UiReply::Failed(e) => assert_eq!(e, "download failed: code 12"),
        other => panic!("{:?}", other),
    }
}

#[test]
fn commands_become_work() {
    match handle(DownlinkCmd::ServerUnbind) {
        Work::Report(Event::GcodeResult { cmd_type, result }) => {
            assert_eq!((cmd_type.as_str(), result.as_str()), ("server_unbind", "OK"))
        }
        other => panic!("{:?}", other),
    }
    match handle(DownlinkCmd::DeleteFile { file_name: "a".into() }) {
        Work::Gcode { cmd_type, step: GcodeStep::Call { call, .. } } => {
            assert_eq!(cmd_type, "M30");
            assert_eq!(call.params, value(r#"{"path":"a"}"#));
        }
        other => panic!("{:?}", other),
    }
    assert!(matches!(handle(DownlinkCmd::ListFiles), Work::ListFiles));
    let d = DownlinkCmd::DownloadBegin {
        file_type: 1,
        file_name: "f".into(),
        url: Some("u".into()),
        server_ip: None,
    };
    assert!(matches!(handle(d), Work::Download { file_type: 1, url: Some(_), .. }));
}

#[test]
fn requests_of_the_user_interface() {
    let (e, r) = handle_ui(&UiCmd::Unbind, 3);
    assert!(matches!(e, Event::UiUnbind));
    match r {
        Some(UiReply::Done(v)) => assert_eq!(v, value(r#"{"ok":true}"#)),
        other => panic!("{:?}", other),
    }
    let (e, r) = handle_ui(&UiCmd::UpgradeQuery, 3);
    assert!(matches!(e, Event::UpgradeQueryRequested { ticket: Some(3) }));
    assert!(r.is_none());
    let d = UiCmd::Download { file_type: 0, file_name: "a".into(), url: None };
    let (e, r) = handle_ui(&d, 3);
    assert!(matches!(e, Event::DownloadStarted { file_type: 0, .. }));
    assert!(r.is_none());
}
