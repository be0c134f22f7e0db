use mqtt_client::gcode_translator::{translate, GcodeKind};

#[test]
fn translate_leveling() {
    assert_eq!(translate("G29N"), GcodeKind::Leveling);
    assert_eq!(translate("G29 N 5"), GcodeKind::Leveling);
}

#[test]
fn translate_sd_ops() {
    assert_eq!(translate("M20"), GcodeKind::ListFiles);
    assert_eq!(translate("M32 x.gcode"), GcodeKind::PrintStart("x.gcode".into()));
    assert_eq!(translate("M30 x.gcode"), GcodeKind::DeleteFile("x.gcode".into()));
    assert!(matches!(translate("M28 x.gcode"), GcodeKind::Unsupported(_)));
    assert!(matches!(translate("M29"), GcodeKind::Unsupported(_)));
}

#[test]
fn translate_print_ctrl() {
    assert_eq!(translate("M24"), GcodeKind::Resume);
    assert_eq!(translate("M25"), GcodeKind::Pause);
    assert_eq!(translate("M26"), GcodeKind::Cancel);
}

#[test]
fn translate_native() {
    assert_eq!(translate("G28"), GcodeKind::Native("G28".into()));
    assert_eq!(translate("M104 S200"), GcodeKind::Native("M104 S200".into()));
    assert_eq!(translate("M115"), GcodeKind::Native("M115".into()));
    assert_eq!(translate("M23 x.gcode"), GcodeKind::Native("M23 x.gcode".into()));
}

#[test]
fn translate_m30_vs_m300() {
    assert_eq!(translate("M30 a.gcode"), GcodeKind::DeleteFile("a.gcode".into()));
    assert_eq!(translate("M300 S1000 P200"), GcodeKind::Native("M300 S1000 P200".into()));
}

#[test]
fn translate_empty() {
    assert_eq!(translate("  "), GcodeKind::Empty);
}

#[test]
fn translate_edges() {
    assert_eq!(translate(" g29 "), GcodeKind::Leveling);
    assert_eq!(translate("m32 \"a b.gcode\""), GcodeKind::PrintStart("a".into()));
    assert_eq!(translate("M032<x.gcode>"), GcodeKind::PrintStart("x.gcode".into()));
    assert_eq!(translate("M"), GcodeKind::Native("M".into()));
    assert_eq!(translate("M99999999999"), GcodeKind::Native("M99999999999".into()));
    assert_eq!(translate("M30"), GcodeKind::DeleteFile("".into()));
    assert_eq!(translate("M28 f"), GcodeKind::Unsupported("M28 f".into()));
}
