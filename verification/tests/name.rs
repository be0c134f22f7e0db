use mqtt_client::blufi::name::{
    is_name_assignment, next_backoff, read_main_conf_name, resolve_local_name, sync_main_conf,
};

#[test]
fn names_are_read() {
    let conf = "# Name = no\n[General]\n Name = \"M1S-G1\"  \nName = second\n";
    assert_eq!(read_main_conf_name(conf), Some("M1S-G1".to_string()));
    assert_eq!(read_main_conf_name("Name=x\r\n"), Some("x".to_string()));
    assert_eq!(read_main_conf_name("Name =\nNamed = y\nname = z\n"), None);
}

#[test]
fn name_lines() {
    assert!(is_name_assignment("Name = a"));
    assert!(is_name_assignment("  NAME\t= a"));
    assert!(is_name_assignment("name="));
    assert!(!is_name_assignment("# Name = a"));
    assert!(!is_name_assignment("Names = a"));
    assert!(!is_name_assignment("Nam"));
}

#[test]
fn configurations_are_kept_in_step() {
    assert_eq!(
        sync_main_conf("[General]\nName = old\nName = other\n", "new"),
        "[General]\nName = new\nName = other\n"
    );
    assert_eq!(
        sync_main_conf("a\n [General] \r\nb", "new"),
        "a\n [General] \nName = new\nb\n"
    );
    assert_eq!(sync_main_conf("a", "new"), "a\n[General]\nName = new\n");
    assert_eq!(sync_main_conf("a\n", "new"), "a\n[General]\nName = new\n");
    assert_eq!(sync_main_conf("", "new"), "\n[General]\nName = new\n");
}

#[test]
fn synced_names_are_read_back() {
    for conf in ["", "x\n", "[General]\n#Name = a\n", "name = b\nName = c", "[Policy]\r\n"] {
        let out = sync_main_conf(conf, "M1S-Ge33700a6620dfddc");
        assert_eq!(read_main_conf_name(&out), Some("M1S-Ge33700a6620dfddc".to_string()));
    }
}

#[test]
fn the_best_name_wins() {
    let conf = Some("Name = conf\n");
    assert_eq!(resolve_local_name(Some("alias"), Some("host"), conf, "f"), "alias");
    assert_eq!(resolve_local_name(Some("alias"), None, conf, "f"), "alias");
    assert_eq!(resolve_local_name(Some("host"), Some("host"), conf, "f"), "conf");
    assert_eq!(resolve_local_name(Some(""), Some("host"), None, "f"), "f");
    assert_eq!(resolve_local_name(None, None, Some("x"), "f"), "f");
}

#[test]
fn names_are_cut_at_characters() {
    let long = "a".repeat(40);
    assert_eq!(resolve_local_name(None, None, None, &long), "a".repeat(29));
    let wide = "\u{4e2d}".repeat(10);
    assert_eq!(resolve_local_name(None, None, None, &wide), "\u{4e2d}".repeat(9));
    let mixed = format!("{}\u{1f600}", "b".repeat(26));
    assert_eq!(resolve_local_name(None, None, None, &mixed), "b".repeat(26));
    let fits = format!("{}\u{e9}", "b".repeat(27));
    assert_eq!(resolve_local_name(None, None, None, &fits), fits);
}

#[test]
fn backoff_doubles_up_to_a_limit() {
    let mut secs = 1;
    let mut seen = Vec::new();
    for _ in 0..7 {
        seen.push(secs);
        secs = next_backoff(secs);
    }
    assert_eq!(seen, vec![1, 2, 4, 8, 16, 30, 30]);
}
