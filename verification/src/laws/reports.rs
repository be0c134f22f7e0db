//! What the packets to the cloud say.

use crate::app_state::AppStateView;
use crate::config::DeviceConfig;
use crate::json;
use crate::json::Doc;
use crate::protocol;
use vstd::prelude::*;

verus! {

/// What a packet has under a key.
pub open spec fn says(d: Doc, key: Seq<char>, value: Doc) -> bool {
    d matches Doc::Object(e) && json::lookup(e, key) == Some(value)
}

/// A number as JSON holds it: one below zero has a sign.
pub open spec fn whole_number(n: int) -> Doc {
    if n < 0 {
        Doc::Negative(n as i64)
    } else {
        Doc::Unsigned(n as u64)
    }
}

/// A time of `secs` seconds as hours, minutes and seconds.
pub open spec fn says_time(d: Doc, secs: u64) -> bool {
    exists|h: u64, m: u64, s: u64|
        {
            &&& #[trigger] says(d, "hour"@, Doc::Unsigned(h))
            &&& #[trigger] says(d, "min"@, Doc::Unsigned(m))
            &&& #[trigger] says(d, "sec"@, Doc::Unsigned(s))
            &&& m < 60
            &&& s < 60
            &&& h * 3600 + m * 60 + s == secs
        }
}

/// A field that no later one replaces is found in the object.
pub proof fn lemma_field_found(fields: Seq<(Seq<char>, Doc)>, i: int)
    requires
        0 <= i < fields.len(),
        forall|j: int| i < j < fields.len() ==> (#[trigger] fields[j]).0 != fields[i].0,
    ensures
        json::lookup(json::collected(fields), fields[i].0) == Some(fields[i].1),
    decreases fields.len(),
{
    let front = fields.drop_last();
    let last = fields.last();
    json::law_lookup_of_put(json::collected(front), last.0, last.1, fields[i].0);
    if i < fields.len() - 1 {
        assert(front[i] == fields[i]);
        assert forall|j: int| i < j < front.len() implies (#[trigger] front[j]).0 != front[i].0 by {
            assert(fields[j].0 != fields[i].0);
        }
        lemma_field_found(front, i);
    }
}

/// A time is written as hours, minutes below sixty and seconds below sixty that add up to it.
pub proof fn law_time_adds_up(secs: u64)
    ensures
        says_time(protocol::hms_doc(secs), secs),
{
    let f = protocol::hms_fields(secs);
    reveal_strlit("hour");
    reveal_strlit("min");
    reveal_strlit("sec");
    assert("hour"@.len() == 4);
    assert("min"@.len() == 3);
    assert("sec"@.len() == 3);
    assert("min"@[0] == 'm');
    assert("sec"@[0] == 's');
    lemma_field_found(f, 0);
    lemma_field_found(f, 1);
    lemma_field_found(f, 2);
    protocol::law_hms_recomposes(secs);
    let d = protocol::hms_doc(secs);
    let (h, m, s) = protocol::hms(secs);
    assert(says(d, "hour"@, Doc::Unsigned(h)));
    assert(says(d, "min"@, Doc::Unsigned(m)));
    assert(says(d, "sec"@, Doc::Unsigned(s)));
}

/// The login packet names the device, its boards, its software, its address and its language.
pub proof fn law_login_packet(device: DeviceConfig, ip: Seq<char>, ts: u64)
    ensures
        says(protocol::login_doc(device, ip, ts), "type"@, Doc::Text("login"@)),
        says(protocol::login_doc(device, ip, ts), "id"@, Doc::Text(device.id@)),
        says(protocol::login_doc(device, ip, ts), "mb"@, Doc::Text(device.mb@)),
        says(protocol::login_doc(device, ip, ts), "sf1"@, Doc::Text(device.sf1@)),
        says(protocol::login_doc(device, ip, ts), "sf2"@, Doc::Text(device.sf2@)),
        says(protocol::login_doc(device, ip, ts), "wf"@, Doc::Text(device.wf@)),
        says(protocol::login_doc(device, ip, ts), "ip"@, Doc::Text(ip)),
        says(protocol::login_doc(device, ip, ts), "lang"@, Doc::Unsigned(device.lang as u64)),
        says(protocol::login_doc(device, ip, ts), "ts"@, Doc::Unsigned(ts)),
{
    let f = protocol::login_fields(device, ip, ts);
    reveal_strlit("type");
    reveal_strlit("id");
    reveal_strlit("mb");
    reveal_strlit("sf1");
    reveal_strlit("sf2");
    reveal_strlit("wf");
    reveal_strlit("ip");
    reveal_strlit("lang");
    reveal_strlit("ts");
    assert("type"@.len() == 4);
    assert("id"@.len() == 2);
    assert("mb"@.len() == 2);
    assert("sf1"@.len() == 3);
    assert("sf2"@.len() == 3);
    assert("wf"@.len() == 2);
    assert("ip"@.len() == 2);
    assert("lang"@.len() == 4);
    assert("ts"@.len() == 2);
    assert("type"@[0] == 't');
    assert("lang"@[0] == 'l');
    assert("id"@[0] == 'i');
    assert("mb"@[0] == 'm');
    assert("wf"@[0] == 'w');
    assert("id"@[1] == 'd');
    assert("ip"@[1] == 'p');
    assert("ts"@[0] == 't');
    assert("ip"@[0] == 'i');
    assert("sf1"@[2] == '1');
    assert("sf2"@[2] == '2');
    lemma_field_found(f, 0);
    lemma_field_found(f, 1);
    lemma_field_found(f, 2);
    lemma_field_found(f, 3);
    lemma_field_found(f, 4);
    lemma_field_found(f, 5);
    lemma_field_found(f, 6);
    lemma_field_found(f, 7);
    lemma_field_found(f, 8);
}

/// The alarm packet has the kind of the error and its message.
pub proof fn law_alarm_packet(id: Seq<char>, err_type: u8, err_msg: Seq<char>, ts: u64)
    ensures
        says(protocol::alarm_doc(id, err_type, err_msg, ts), "type"@, Doc::Text("alarm"@)),
        says(protocol::alarm_doc(id, err_type, err_msg, ts), "id"@, Doc::Text(id)),
        says(protocol::alarm_doc(id, err_type, err_msg, ts), "errType"@, Doc::Unsigned(err_type as u64)),
        says(protocol::alarm_doc(id, err_type, err_msg, ts), "errMsg"@, Doc::Text(err_msg)),
        says(protocol::alarm_doc(id, err_type, err_msg, ts), "ts"@, Doc::Unsigned(ts)),
{
    let f = protocol::alarm_fields(id, err_type, err_msg, ts);
    reveal_strlit("type");
    reveal_strlit("id");
    reveal_strlit("errType");
    reveal_strlit("errMsg");
    reveal_strlit("ts");
    assert("type"@.len() == 4);
    assert("id"@.len() == 2);
    assert("errType"@.len() == 7);
    assert("errMsg"@.len() == 6);
    assert("ts"@.len() == 2);
    assert("id"@[0] == 'i');
    assert("ts"@[0] == 't');
    lemma_field_found(f, 0);
    lemma_field_found(f, 1);
    lemma_field_found(f, 2);
    lemma_field_found(f, 3);
    lemma_field_found(f, 4);
}

/// The hardware packet says of each sensor and switch, under its own name, whether it is on: 1 or
/// 0.
pub proof fn law_hardware_packet(id: Seq<char>, s: AppStateView, ts: u64)
    ensures
        says(protocol::hardware_doc(id, s, ts), "type"@, Doc::Text("status_hardware"@)),
        says(protocol::hardware_doc(id, s, ts), "id"@, Doc::Text(id)),
        says(protocol::hardware_doc(id, s, ts), "runout"@, Doc::Unsigned(if s.runout { 1u64 } else { 0u64 })),
        says(protocol::hardware_doc(id, s, ts), "beep"@, Doc::Unsigned(if s.beep { 1u64 } else { 0u64 })),
        says(protocol::hardware_doc(id, s, ts), "light"@, Doc::Unsigned(if s.light { 1u64 } else { 0u64 })),
        says(protocol::hardware_doc(id, s, ts), "Breathing"@, Doc::Unsigned(if s.breathing { 1u64 } else { 0u64 })),
        says(protocol::hardware_doc(id, s, ts), "sd"@, Doc::Unsigned(if s.sd_ok { 1u64 } else { 0u64 })),
        says(protocol::hardware_doc(id, s, ts), "level"@, Doc::Unsigned(if s.level_ok { 1u64 } else { 0u64 })),
        says(protocol::hardware_doc(id, s, ts), "door"@, Doc::Unsigned(if s.door_open { 1u64 } else { 0u64 })),
        says(protocol::hardware_doc(id, s, ts), "ts"@, Doc::Unsigned(ts)),
{
    let f = protocol::hardware_fields(id, s, ts);
    reveal_strlit("type");
    reveal_strlit("id");
    reveal_strlit("runout");
    reveal_strlit("beep");
    reveal_strlit("light");
    reveal_strlit("Breathing");
    reveal_strlit("sd");
    reveal_strlit("level");
    reveal_strlit("door");
    reveal_strlit("ts");
    assert("type"@.len() == 4);
    assert("id"@.len() == 2);
    assert("runout"@.len() == 6);
    assert("beep"@.len() == 4);
    assert("light"@.len() == 5);
    assert("Breathing"@.len() == 9);
    assert("sd"@.len() == 2);
    assert("level"@.len() == 5);
    assert("door"@.len() == 4);
    assert("ts"@.len() == 2);
    assert("type"@[0] == 't');
    assert("beep"@[0] == 'b');
    assert("door"@[0] == 'd');
    assert("id"@[0] == 'i');
    assert("sd"@[0] == 's');
    assert("ts"@[0] == 't');
    assert("light"@[1] == 'i');
    assert("level"@[1] == 'e');
    lemma_field_found(f, 0);
    lemma_field_found(f, 1);
    lemma_field_found(f, 2);
    lemma_field_found(f, 3);
    lemma_field_found(f, 4);
    lemma_field_found(f, 5);
    lemma_field_found(f, 6);
    lemma_field_found(f, 7);
    lemma_field_found(f, 8);
    lemma_field_found(f, 9);
}

/// The temperature packet has each temperature in whole degrees and each fan in percent, under its
/// own name.
pub proof fn law_temp_fan_packet(id: Seq<char>, s: AppStateView, ts: u64)
    ensures
        says(protocol::temp_fan_doc(id, s, ts), "type"@, Doc::Text("status_temp_fan"@)),
        says(protocol::temp_fan_doc(id, s, ts), "id"@, Doc::Text(id)),
        says(protocol::temp_fan_doc(id, s, ts), "preheatType"@, Doc::Unsigned(s.preheat_type as u64)),
        says(protocol::temp_fan_doc(id, s, ts), "preheatState"@, Doc::Unsigned(s.preheat_state as u64)),
        says(protocol::temp_fan_doc(id, s, ts), "heatState"@, Doc::Unsigned(s.heat_state as u64)),
        says(protocol::temp_fan_doc(id, s, ts), "nozzleTargetTemp"@, whole_number(s.nozzle_target.whole as int)),
        says(protocol::temp_fan_doc(id, s, ts), "nozzleActualTemp"@, whole_number(s.nozzle_actual.whole as int)),
        says(protocol::temp_fan_doc(id, s, ts), "bedTargetTemp"@, whole_number(s.bed_target.whole as int)),
        says(protocol::temp_fan_doc(id, s, ts), "bedActualTemp"@, whole_number(s.bed_actual.whole as int)),
        says(protocol::temp_fan_doc(id, s, ts), "mainFanSpeed"@, Doc::Unsigned(s.main_fan_pct as u64)),
        says(protocol::temp_fan_doc(id, s, ts), "boardFanSpeed"@, Doc::Unsigned(s.board_fan_pct as u64)),
        says(protocol::temp_fan_doc(id, s, ts), "auxFanSpeed"@, Doc::Unsigned(s.aux_fan_pct as u64)),
        says(protocol::temp_fan_doc(id, s, ts), "ts"@, Doc::Unsigned(ts)),
{
    let f = protocol::temp_fan_fields(id, s, ts);
    reveal_strlit("type");
    reveal_strlit("id");
    reveal_strlit("preheatType");
    reveal_strlit("preheatState");
    reveal_strlit("heatState");
    reveal_strlit("nozzleTargetTemp");
    reveal_strlit("nozzleActualTemp");
    reveal_strlit("bedTargetTemp");
    reveal_strlit("bedActualTemp");
    reveal_strlit("mainFanSpeed");
    reveal_strlit("boardFanSpeed");
    reveal_strlit("auxFanSpeed");
    reveal_strlit("ts");
    assert("type"@.len() == 4);
    assert("id"@.len() == 2);
    assert("preheatType"@.len() == 11);
    assert("preheatState"@.len() == 12);
    assert("heatState"@.len() == 9);
    assert("nozzleTargetTemp"@.len() == 16);
    assert("nozzleActualTemp"@.len() == 16);
    assert("bedTargetTemp"@.len() == 13);
    assert("bedActualTemp"@.len() == 13);
    assert("mainFanSpeed"@.len() == 12);
    assert("boardFanSpeed"@.len() == 13);
    assert("auxFanSpeed"@.len() == 11);
    assert("ts"@.len() == 2);
    assert("id"@[0] == 'i');
    assert("ts"@[0] == 't');
    assert("preheatType"@[0] == 'p');
    assert("auxFanSpeed"@[0] == 'a');
    assert("preheatState"@[0] == 'p');
    assert("mainFanSpeed"@[0] == 'm');
    assert("nozzleTargetTemp"@[6] == 'T');
    assert("nozzleActualTemp"@[6] == 'A');
    assert("bedTargetTemp"@[3] == 'T');
    assert("bedActualTemp"@[3] == 'A');
    assert("bedTargetTemp"@[1] == 'e');
    assert("boardFanSpeed"@[1] == 'o');
    assert("bedActualTemp"@[1] == 'e');
    lemma_field_found(f, 0);
    lemma_field_found(f, 1);
    lemma_field_found(f, 2);
    lemma_field_found(f, 3);
    lemma_field_found(f, 4);
    lemma_field_found(f, 5);
    lemma_field_found(f, 6);
    lemma_field_found(f, 7);
    lemma_field_found(f, 8);
    lemma_field_found(f, 9);
    lemma_field_found(f, 10);
    lemma_field_found(f, 11);
    lemma_field_found(f, 12);
}

/// The levelling packet has the state of levelling, the present point and the count of points.
pub proof fn law_level_packet(id: Seq<char>, s: AppStateView, ts: u64)
    ensures
        says(protocol::level_doc(id, s, ts), "type"@, Doc::Text("status_level"@)),
        says(protocol::level_doc(id, s, ts), "id"@, Doc::Text(id)),
        says(protocol::level_doc(id, s, ts), "levelingStatus"@, Doc::Unsigned(s.leveling_status as u64)),
        says(protocol::level_doc(id, s, ts), "levelingPoint"@, Doc::Unsigned(s.leveling_point as u64)),
        says(protocol::level_doc(id, s, ts), "levelingTotalPoints"@, Doc::Unsigned(s.leveling_total as u64)),
        says(protocol::level_doc(id, s, ts), "ts"@, Doc::Unsigned(ts)),
{
    let f = protocol::level_fields(id, s, ts);
    reveal_strlit("type");
    reveal_strlit("id");
    reveal_strlit("levelingStatus");
    reveal_strlit("levelingPoint");
    reveal_strlit("levelingTotalPoints");
    reveal_strlit("ts");
    assert("type"@.len() == 4);
    assert("id"@.len() == 2);
    assert("levelingStatus"@.len() == 14);
    assert("levelingPoint"@.len() == 13);
    assert("levelingTotalPoints"@.len() == 19);
    assert("ts"@.len() == 2);
    assert("id"@[0] == 'i');
    assert("ts"@[0] == 't');
    lemma_field_found(f, 0);
    lemma_field_found(f, 1);
    lemma_field_found(f, 2);
    lemma_field_found(f, 3);
    lemma_field_found(f, 4);
    lemma_field_found(f, 5);
}

/// The print packet has the state of the print, the height of the origin, the progress, the file,
/// and the time that has passed and that is left.
pub proof fn law_print_packet(id: Seq<char>, s: AppStateView, ts: u64)
    ensures
        says(protocol::print_doc(id, s, ts), "type"@, Doc::Text("status_print"@)),
        says(protocol::print_doc(id, s, ts), "id"@, Doc::Text(id)),
        says(protocol::print_doc(id, s, ts), "printState"@, Doc::Unsigned(s.print_state as u64)),
        says(protocol::print_doc(id, s, ts), "zOffset"@, whole_number(s.zoffset_x100 as int)),
        says(protocol::print_doc(id, s, ts), "printProgress"@, Doc::Unsigned(s.print_progress as u64)),
        (protocol::print_doc(id, s, ts) matches Doc::Object(e) && json::lookup(e, "printElapsedTime"@) is Some && says_time(
            json::lookup(e, "printElapsedTime"@)->0,
            s.print_elapsed_secs,
        )),
        (protocol::print_doc(id, s, ts) matches Doc::Object(e) && json::lookup(e, "printRemainTime"@) is Some && says_time(
            json::lookup(e, "printRemainTime"@)->0,
            s.print_remain_secs,
        )),
        says(protocol::print_doc(id, s, ts), "currentPrintFile"@, Doc::Text(s.current_file)),
        says(protocol::print_doc(id, s, ts), "ts"@, Doc::Unsigned(ts)),
{
    let f = protocol::print_fields(id, s, ts);
    reveal_strlit("type");
    reveal_strlit("id");
    reveal_strlit("printState");
    reveal_strlit("zOffset");
    reveal_strlit("printProgress");
    reveal_strlit("printElapsedTime");
    reveal_strlit("printRemainTime");
    reveal_strlit("currentPrintFile");
    reveal_strlit("ts");
    assert("type"@.len() == 4);
    assert("id"@.len() == 2);
    assert("printState"@.len() == 10);
    assert("zOffset"@.len() == 7);
    assert("printProgress"@.len() == 13);
    assert("printElapsedTime"@.len() == 16);
    assert("printRemainTime"@.len() == 15);
    assert("currentPrintFile"@.len() == 16);
    assert("ts"@.len() == 2);
    assert("id"@[0] == 'i');
    assert("ts"@[0] == 't');
    assert("printElapsedTime"@[0] == 'p');
    assert("currentPrintFile"@[0] == 'c');
    lemma_field_found(f, 0);
    lemma_field_found(f, 1);
    lemma_field_found(f, 2);
    lemma_field_found(f, 3);
    lemma_field_found(f, 4);
    lemma_field_found(f, 5);
    lemma_field_found(f, 6);
    lemma_field_found(f, 7);
    lemma_field_found(f, 8);
    law_time_adds_up(s.print_elapsed_secs);
    law_time_adds_up(s.print_remain_secs);
}

/// The packet of a command's result has the command as it came and its result.
pub proof fn law_gcode_packet(id: Seq<char>, cmd_type: Seq<char>, result: Seq<char>, ts: u64)
    ensures
        says(protocol::gcode_doc(id, cmd_type, result, ts), "type"@, Doc::Text("gcode"@)),
        says(protocol::gcode_doc(id, cmd_type, result, ts), "id"@, Doc::Text(id)),
        says(protocol::gcode_doc(id, cmd_type, result, ts), "cmdType"@, Doc::Text(cmd_type)),
        says(protocol::gcode_doc(id, cmd_type, result, ts), "execResult"@, Doc::Text(result)),
        says(protocol::gcode_doc(id, cmd_type, result, ts), "ts"@, Doc::Unsigned(ts)),
{
    let f = protocol::gcode_fields(id, cmd_type, result, ts);
    reveal_strlit("type");
    reveal_strlit("id");
    reveal_strlit("cmdType");
    reveal_strlit("execResult");
    reveal_strlit("ts");
    assert("type"@.len() == 4);
    assert("id"@.len() == 2);
    assert("cmdType"@.len() == 7);
    assert("execResult"@.len() == 10);
    assert("ts"@.len() == 2);
    assert("id"@[0] == 'i');
    assert("ts"@[0] == 't');
    lemma_field_found(f, 0);
    lemma_field_found(f, 1);
    lemma_field_found(f, 2);
    lemma_field_found(f, 3);
    lemma_field_found(f, 4);
}

/// The packet of a download has the file, its type, how the transfer stands, and the error code.
pub proof fn law_download_packet(id: Seq<char>, kind: Seq<char>, name: Seq<char>, file_type: u8, state: Seq<char>, code: u8, ts: u64)
    ensures
        says(protocol::download_doc(id, kind, name, file_type, state, code, ts), "type"@, Doc::Text(kind)),
        says(protocol::download_doc(id, kind, name, file_type, state, code, ts), "id"@, Doc::Text(id)),
        says(protocol::download_doc(id, kind, name, file_type, state, code, ts), "fileName"@, Doc::Text(name)),
        says(protocol::download_doc(id, kind, name, file_type, state, code, ts), "fileType"@, Doc::Unsigned(file_type as u64)),
        says(protocol::download_doc(id, kind, name, file_type, state, code, ts), "transState"@, Doc::Text(state)),
        says(protocol::download_doc(id, kind, name, file_type, state, code, ts), "errCode"@, Doc::Unsigned(code as u64)),
        says(protocol::download_doc(id, kind, name, file_type, state, code, ts), "ts"@, Doc::Unsigned(ts)),
{
    let f = protocol::download_fields(id, kind, name, file_type, state, code, ts);
    reveal_strlit("type");
    reveal_strlit("id");
    reveal_strlit("fileName");
    reveal_strlit("fileType");
    reveal_strlit("transState");
    reveal_strlit("errCode");
    reveal_strlit("ts");
    assert("type"@.len() == 4);
    assert("id"@.len() == 2);
    assert("fileName"@.len() == 8);
    assert("fileType"@.len() == 8);
    assert("transState"@.len() == 10);
    assert("errCode"@.len() == 7);
    assert("ts"@.len() == 2);
    assert("id"@[0] == 'i');
    assert("ts"@[0] == 't');
    assert("fileName"@[4] == 'N');
    assert("fileType"@[4] == 'T');
    lemma_field_found(f, 0);
    lemma_field_found(f, 1);
    lemma_field_found(f, 2);
    lemma_field_found(f, 3);
    lemma_field_found(f, 4);
    lemma_field_found(f, 5);
    lemma_field_found(f, 6);
}

/// A packet of nothing but its kind has the device and the time.
pub proof fn law_bare_packet(kind: Seq<char>, id: Seq<char>, ts: u64)
    ensures
        says(protocol::bare_doc(kind, id, ts), "type"@, Doc::Text(kind)),
        says(protocol::bare_doc(kind, id, ts), "id"@, Doc::Text(id)),
        says(protocol::bare_doc(kind, id, ts), "ts"@, Doc::Unsigned(ts)),
{
    let f = protocol::bare_fields(kind, id, ts);
    reveal_strlit("type");
    reveal_strlit("id");
    reveal_strlit("ts");
    assert("type"@.len() == 4);
    assert("id"@.len() == 2);
    assert("ts"@.len() == 2);
    assert("id"@[0] == 'i');
    assert("ts"@[0] == 't');
    lemma_field_found(f, 0);
    lemma_field_found(f, 1);
    lemma_field_found(f, 2);
}

/// A file of a list has its name and its size.
pub proof fn law_file_packet(name: Seq<char>, size: u64)
    ensures
        says(protocol::file_doc((name, size)), "fileName"@, Doc::Text(name)),
        says(protocol::file_doc((name, size)), "fileSize"@, Doc::Unsigned(size)),
{
    let f = protocol::file_fields((name, size));
    reveal_strlit("fileName");
    reveal_strlit("fileSize");
    assert("fileName"@.len() == 8);
    assert("fileSize"@.len() == 8);
    assert("fileName"@[4] == 'N');
    assert("fileSize"@[4] == 'S');
    lemma_field_found(f, 0);
    lemma_field_found(f, 1);
}

/// A part of the list of files has the count of all files, its own number, and its files in order.
pub proof fn law_file_list_packet(id: Seq<char>, total: usize, index: usize, files: Seq<(Seq<char>, u64)>, ts: u64)
    ensures
        says(protocol::file_list_doc(id, total, index, files, ts), "type"@, Doc::Text("file_list"@)),
        says(protocol::file_list_doc(id, total, index, files, ts), "id"@, Doc::Text(id)),
        says(protocol::file_list_doc(id, total, index, files, ts), "fileTotal"@, Doc::Unsigned(total as u64)),
        says(protocol::file_list_doc(id, total, index, files, ts), "fileIndex"@, Doc::Unsigned(index as u64)),
        (protocol::file_list_doc(id, total, index, files, ts) matches Doc::Object(e) && {
            let list = json::lookup(e, "fileList"@);
            &&& list is Some
            &&& list->0 is List
            &&& list->0->List_0.len() == files.len()
            &&& forall|i: int|
                0 <= i < files.len() ==> says(
                    #[trigger] list->0->List_0[i],
                    "fileName"@,
                    Doc::Text(files[i].0),
                ) && says(list->0->List_0[i], "fileSize"@, Doc::Unsigned(files[i].1))
        }),
        says(protocol::file_list_doc(id, total, index, files, ts), "ts"@, Doc::Unsigned(ts)),
{
    let f = protocol::file_list_fields(id, total, index, files, ts);
    reveal_strlit("type");
    reveal_strlit("id");
    reveal_strlit("fileTotal");
    reveal_strlit("fileIndex");
    reveal_strlit("fileList");
    reveal_strlit("ts");
    assert("type"@.len() == 4);
    assert("id"@.len() == 2);
    assert("fileTotal"@.len() == 9);
    assert("fileIndex"@.len() == 9);
    assert("fileList"@.len() == 8);
    assert("ts"@.len() == 2);
    assert("id"@[0] == 'i');
    assert("ts"@[0] == 't');
    assert("fileTotal"@[4] == 'T');
    assert("fileIndex"@[4] == 'I');
    lemma_field_found(f, 0);
    lemma_field_found(f, 1);
    lemma_field_found(f, 2);
    lemma_field_found(f, 3);
    lemma_field_found(f, 4);
    lemma_field_found(f, 5);
    let list = f[4].1->List_0;
    assert forall|i: int| 0 <= i < files.len() implies says(
        #[trigger] list[i],
        "fileName"@,
        Doc::Text(files[i].0),
    ) && says(list[i], "fileSize"@, Doc::Unsigned(files[i].1)) by {
        law_file_packet(files[i].0, files[i].1);
    }
}

} // verus!
