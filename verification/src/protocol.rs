//! The device protocol: the packets to the cloud, and the fields of those from it.
//!
//! Packets are JSON objects. Times are seconds since 1970.

use crate::app_state::{AppState, AppStateView};
use crate::config::DeviceConfig;
use crate::json;
use crate::json::{Doc, Fields};
use crate::text;
use serde_json::Value;
use vstd::prelude::*;

verus! {

/// A packet that cannot be understood.
#[derive(Debug)]
pub struct ProtocolError(pub String);

impl ProtocolError {
    /// The message to show.
    pub fn message(&self) -> (m: String)
        ensures
            m@ == "protocol: "@ + self.0@,
    {
        text::join("protocol: ", self.0.as_str())
    }
}

/// A packet from the cloud. Which fields it has depends on its kind.
#[derive(Debug, Clone)]
pub struct DownlinkMsg {
    pub kind: String,
    pub id: Option<String>,
    pub ts: Option<u64>,
    pub bind_state: Option<u8>,
    pub account: Option<String>,
    pub gcode_cmd: Option<String>,
    pub file_type: Option<u8>,
    pub server_ip: Option<String>,
    pub file_name: Option<String>,
    pub url: Option<String>,
    pub ack_state: Option<String>,
    pub mcu_file: Option<String>,
    pub esp_file: Option<String>,
}

/// An optional text by its contents; nothing is the empty text.
pub open spec fn text_or_empty(o: Option<String>) -> Seq<char> {
    match o {
        Some(s) => s@,
        None => Seq::empty(),
    }
}

/// An optional text by its contents.
pub open spec fn opt_text(o: Option<String>) -> Option<Seq<char>> {
    match o {
        Some(s) => Some(s@),
        None => None,
    }
}

/// The contents of an optional text; nothing is the empty text.
pub fn or_empty(o: &Option<String>) -> (s: String)
    ensures
        s@ == text_or_empty(*o),
{
    match o {
        Some(s) => s.as_str().to_owned(),
        None => String::new(),
    }
}

/// A copy of an optional text.
pub fn copy_text(o: &Option<String>) -> (r: Option<String>)
    ensures
        opt_text(r) == opt_text(*o),
{
    match o {
        Some(s) => Some(s.as_str().to_owned()),
        None => None,
    }
}

impl Default for DownlinkMsg {
    fn default() -> (m: Self)
        ensures
            m.kind@ == Seq::<char>::empty(),
            m.id is None,
            m.ts is None,
            m.bind_state is None,
            m.account is None,
            m.gcode_cmd is None,
            m.file_type is None,
            m.server_ip is None,
            m.file_name is None,
            m.url is None,
            m.ack_state is None,
            m.mcu_file is None,
            m.esp_file is None,
    {
        DownlinkMsg {
            kind: String::new(),
            id: None,
            ts: None,
            bind_state: None,
            account: None,
            gcode_cmd: None,
            file_type: None,
            server_ip: None,
            file_name: None,
            url: None,
            ack_state: None,
            mcu_file: None,
            esp_file: None,
        }
    }
}

pub const KIND_LOGIN_REPLY: &'static str = "login";

pub const KIND_STATUS_QUERY: &'static str = "status_query";

pub const KIND_GCODE: &'static str = "gcode";

pub const KIND_DOWNLOAD_BEGIN: &'static str = "download_begin";

pub const KIND_DOWNLOAD_END_ACK: &'static str = "download_end";

pub const KIND_UPGRADE_QUERY: &'static str = "upgrade_query";

pub const KIND_FILE_LIST: &'static str = "file_list";

pub const KIND_SERVER_UNBIND: &'static str = "server_unbind";

pub const KIND_DEVICE_UNBIND_REPLY: &'static str = "device_unbind";

/// Hours, minutes and seconds of a duration.
pub open spec fn hms(total_secs: u64) -> (u64, u64, u64) {
    (total_secs / 3600, total_secs % 3600 / 60, total_secs % 60)
}

fn split_hms(total_secs: u64) -> (t: (u64, u64, u64))
    ensures
        t == hms(total_secs),
{
    (total_secs / 3600, (total_secs % 3600) / 60, total_secs % 60)
}

/// Hours, minutes and seconds make up the duration, and minutes and seconds stay below sixty.
pub proof fn law_hms_recomposes(total_secs: u64)
    ensures
        hms(total_secs).0 * 3600 + hms(total_secs).1 * 60 + hms(total_secs).2 == total_secs,
        hms(total_secs).1 < 60,
        hms(total_secs).2 < 60,
{
    let rest = total_secs as int % 3600;
    vstd::arithmetic::div_mod::lemma_mod_mod(total_secs as int, 60, 60);
    assert(rest % 60 == total_secs as int % 60);
    assert(rest / 60 * 60 + rest % 60 == rest);
}

/// The fields of [`login_doc`].
pub open spec fn login_fields(device: DeviceConfig, ip: Seq<char>, ts: u64) -> Seq<(Seq<char>, Doc)> {
    seq![
        ("type"@, Doc::Text("login"@)),
        ("id"@, Doc::Text(device.id@)),
        ("mb"@, Doc::Text(device.mb@)),
        ("sf1"@, Doc::Text(device.sf1@)),
        ("sf2"@, Doc::Text(device.sf2@)),
        ("wf"@, Doc::Text(device.wf@)),
        ("ip"@, Doc::Text(ip)),
        ("lang"@, Doc::Unsigned(device.lang as u64)),
        ("ts"@, Doc::Unsigned(ts)),
    ]
}

/// The login packet.
pub open spec fn login_doc(device: DeviceConfig, ip: Seq<char>, ts: u64) -> Doc {
    json::object_of(login_fields(device, ip, ts))
}

/// The fields of [`alarm_doc`].
pub open spec fn alarm_fields(id: Seq<char>, err_type: u8, err_msg: Seq<char>, ts: u64) -> Seq<(Seq<char>, Doc)> {
    seq![
        ("type"@, Doc::Text("alarm"@)),
        ("id"@, Doc::Text(id)),
        ("errType"@, Doc::Unsigned(err_type as u64)),
        ("errMsg"@, Doc::Text(err_msg)),
        ("ts"@, Doc::Unsigned(ts)),
    ]
}

/// An alarm packet.
pub open spec fn alarm_doc(id: Seq<char>, err_type: u8, err_msg: Seq<char>, ts: u64) -> Doc {
    json::object_of(alarm_fields(id, err_type, err_msg, ts))
}

/// The fields of [`hardware_doc`].
pub open spec fn hardware_fields(id: Seq<char>, s: AppStateView, ts: u64) -> Seq<(Seq<char>, Doc)> {
    seq![
        ("type"@, Doc::Text("status_hardware"@)),
        ("id"@, Doc::Text(id)),
        ("runout"@, json::bit_doc(s.runout)),
        ("beep"@, json::bit_doc(s.beep)),
        ("light"@, json::bit_doc(s.light)),
        ("Breathing"@, json::bit_doc(s.breathing)),
        ("sd"@, json::bit_doc(s.sd_ok)),
        ("level"@, json::bit_doc(s.level_ok)),
        ("door"@, json::bit_doc(s.door_open)),
        ("ts"@, Doc::Unsigned(ts)),
    ]
}

/// The hardware part of a status report.
pub open spec fn hardware_doc(id: Seq<char>, s: AppStateView, ts: u64) -> Doc {
    json::object_of(hardware_fields(id, s, ts))
}

/// The fields of [`temp_fan_doc`].
pub open spec fn temp_fan_fields(id: Seq<char>, s: AppStateView, ts: u64) -> Seq<(Seq<char>, Doc)> {
    seq![
        ("type"@, Doc::Text("status_temp_fan"@)),
        ("id"@, Doc::Text(id)),
        ("preheatType"@, Doc::Unsigned(s.preheat_type as u64)),
        ("preheatState"@, Doc::Unsigned(s.preheat_state as u64)),
        ("heatState"@, Doc::Unsigned(s.heat_state as u64)),
        ("nozzleTargetTemp"@, json::integer_doc(s.nozzle_target.whole as int)),
        ("nozzleActualTemp"@, json::integer_doc(s.nozzle_actual.whole as int)),
        ("bedTargetTemp"@, json::integer_doc(s.bed_target.whole as int)),
        ("bedActualTemp"@, json::integer_doc(s.bed_actual.whole as int)),
        ("mainFanSpeed"@, Doc::Unsigned(s.main_fan_pct as u64)),
        ("boardFanSpeed"@, Doc::Unsigned(s.board_fan_pct as u64)),
        ("auxFanSpeed"@, Doc::Unsigned(s.aux_fan_pct as u64)),
        ("ts"@, Doc::Unsigned(ts)),
    ]
}

/// The temperature and fan part of a status report.
pub open spec fn temp_fan_doc(id: Seq<char>, s: AppStateView, ts: u64) -> Doc {
    json::object_of(temp_fan_fields(id, s, ts))
}

/// The fields of [`level_doc`].
pub open spec fn level_fields(id: Seq<char>, s: AppStateView, ts: u64) -> Seq<(Seq<char>, Doc)> {
    seq![
        ("type"@, Doc::Text("status_level"@)),
        ("id"@, Doc::Text(id)),
        ("levelingStatus"@, Doc::Unsigned(s.leveling_status as u64)),
        ("levelingPoint"@, Doc::Unsigned(s.leveling_point as u64)),
        ("levelingTotalPoints"@, Doc::Unsigned(s.leveling_total as u64)),
        ("ts"@, Doc::Unsigned(ts)),
    ]
}

/// The levelling part of a status report.
pub open spec fn level_doc(id: Seq<char>, s: AppStateView, ts: u64) -> Doc {
    json::object_of(level_fields(id, s, ts))
}

/// The fields of [`hms_doc`].
pub open spec fn hms_fields(total_secs: u64) -> Seq<(Seq<char>, Doc)> {
    seq![
        ("hour"@, Doc::Unsigned(hms(total_secs).0)),
        ("min"@, Doc::Unsigned(hms(total_secs).1)),
        ("sec"@, Doc::Unsigned(hms(total_secs).2)),
    ]
}

/// A duration in a status report.
pub open spec fn hms_doc(total_secs: u64) -> Doc {
    json::object_of(hms_fields(total_secs))
}

/// The fields of [`print_doc`].
pub open spec fn print_fields(id: Seq<char>, s: AppStateView, ts: u64) -> Seq<(Seq<char>, Doc)> {
    seq![
        ("type"@, Doc::Text("status_print"@)),
        ("id"@, Doc::Text(id)),
        ("printState"@, Doc::Unsigned(s.print_state as u64)),
        ("zOffset"@, json::integer_doc(s.zoffset_x100 as int)),
        ("printProgress"@, Doc::Unsigned(s.print_progress as u64)),
        ("printElapsedTime"@, hms_doc(s.print_elapsed_secs)),
        ("printRemainTime"@, hms_doc(s.print_remain_secs)),
        ("currentPrintFile"@, Doc::Text(s.current_file)),
        ("ts"@, Doc::Unsigned(ts)),
    ]
}

/// The printing part of a status report.
pub open spec fn print_doc(id: Seq<char>, s: AppStateView, ts: u64) -> Doc {
    json::object_of(print_fields(id, s, ts))
}

/// The fields of [`gcode_doc`].
pub open spec fn gcode_fields(
    id: Seq<char>,
    cmd_type: Seq<char>,
    exec_result: Seq<char>,
    ts: u64,
) -> Seq<(Seq<char>, Doc)> {
    seq![
        ("type"@, Doc::Text("gcode"@)),
        ("id"@, Doc::Text(id)),
        ("cmdType"@, Doc::Text(cmd_type)),
        ("execResult"@, Doc::Text(exec_result)),
        ("ts"@, Doc::Unsigned(ts)),
    ]
}

/// The result of a G-code command.
pub open spec fn gcode_doc(
    id: Seq<char>,
    cmd_type: Seq<char>,
    exec_result: Seq<char>,
    ts: u64,
) -> Doc {
    json::object_of(gcode_fields(id, cmd_type, exec_result, ts))
}

/// The fields of [`download_doc`].
pub open spec fn download_fields(
    id: Seq<char>,
    kind: Seq<char>,
    file_name: Seq<char>,
    file_type: u8,
    trans_state: Seq<char>,
    err_code: u8,
    ts: u64,
) -> Seq<(Seq<char>, Doc)> {
    seq![
        ("type"@, Doc::Text(kind)),
        ("id"@, Doc::Text(id)),
        ("fileName"@, Doc::Text(file_name)),
        ("fileType"@, Doc::Unsigned(file_type as u64)),
        ("transState"@, Doc::Text(trans_state)),
        ("errCode"@, Doc::Unsigned(err_code as u64)),
        ("ts"@, Doc::Unsigned(ts)),
    ]
}

/// The beginning or the end of a download.
pub open spec fn download_doc(
    id: Seq<char>,
    kind: Seq<char>,
    file_name: Seq<char>,
    file_type: u8,
    trans_state: Seq<char>,
    err_code: u8,
    ts: u64,
) -> Doc {
    json::object_of(download_fields(id, kind, file_name, file_type, trans_state, err_code, ts))
}

/// The fields of [`bare_doc`].
pub open spec fn bare_fields(kind: Seq<char>, id: Seq<char>, ts: u64) -> Seq<(Seq<char>, Doc)> {
    seq![("type"@, Doc::Text(kind)), ("id"@, Doc::Text(id)), ("ts"@, Doc::Unsigned(ts))]
}

/// A packet of nothing but its kind.
pub open spec fn bare_doc(kind: Seq<char>, id: Seq<char>, ts: u64) -> Doc {
    json::object_of(bare_fields(kind, id, ts))
}

/// The fields of [`file_doc`].
pub open spec fn file_fields(f: (Seq<char>, u64)) -> Seq<(Seq<char>, Doc)> {
    seq![("fileName"@, Doc::Text(f.0)), ("fileSize"@, Doc::Unsigned(f.1))]
}

/// One file of a list.
pub open spec fn file_doc(f: (Seq<char>, u64)) -> Doc {
    json::object_of(file_fields(f))
}

/// The contents of a list of files.
pub open spec fn file_views(files: Seq<(String, u64)>) -> Seq<(Seq<char>, u64)> {
    files.map_values(|f: (String, u64)| (f.0@, f.1))
}

/// The fields of [`file_list_doc`].
pub open spec fn file_list_fields(
    id: Seq<char>,
    file_total: usize,
    file_index: usize,
    files: Seq<(Seq<char>, u64)>,
    ts: u64,
) -> Seq<(Seq<char>, Doc)> {
    seq![
        ("type"@, Doc::Text("file_list"@)),
        ("id"@, Doc::Text(id)),
        ("fileTotal"@, Doc::Unsigned(file_total as u64)),
        ("fileIndex"@, Doc::Unsigned(file_index as u64)),
        ("fileList"@, Doc::List(files.map_values(|f: (Seq<char>, u64)| file_doc(f)))),
        ("ts"@, Doc::Unsigned(ts)),
    ]
}

/// A part of the list of files.
pub open spec fn file_list_doc(
    id: Seq<char>,
    file_total: usize,
    file_index: usize,
    files: Seq<(Seq<char>, u64)>,
    ts: u64,
) -> Doc {
    json::object_of(file_list_fields(id, file_total, file_index, files, ts))
}

fn hms_value(total_secs: u64) -> (v: Value)
    ensures
        json::document(v) == hms_doc(total_secs),
{
    let (h, m, s) = split_hms(total_secs);
    let mut f: Fields = Fields::new();
    f.unsigned("hour", h);
    f.unsigned("min", m);
    f.unsigned("sec", s);
    assert(f@ =~= hms_fields(total_secs));
    f.finish()
}

fn file_value(name: &str, size: u64) -> (v: Value)
    ensures
        json::document(v) == file_doc((name@, size)),
{
    let mut f: Fields = Fields::new();
    f.text("fileName", name);
    f.unsigned("fileSize", size);
    assert(f@ =~= file_fields((name@, size)));
    f.finish()
}

/// Builds the packets to the cloud.
pub struct UplinkMsg;

impl UplinkMsg {
    /// The device logs in.
    pub fn login(device: &DeviceConfig, ip: &str, ts: u64) -> (bytes: Vec<u8>)
        ensures
            bytes@ == json::rendered(login_doc(*device, ip@, ts)),
    {
        let mut f: Fields = Fields::new();
        f.text("type", "login");
        f.text("id", device.id.as_str());
        f.text("mb", device.mb.as_str());
        f.text("sf1", device.sf1.as_str());
        f.text("sf2", device.sf2.as_str());
        f.text("wf", device.wf.as_str());
        f.text("ip", ip);
        f.unsigned("lang", device.lang as u64);
        f.unsigned("ts", ts);
        assert(f@ =~= login_fields(*device, ip@, ts));
        json::to_bytes(&f.finish())
    }

    /// The device reports a hardware alarm.
    pub fn alarm(id: &str, err_type: u8, err_msg: &str, ts: u64) -> (bytes: Vec<u8>)
        ensures
            bytes@ == json::rendered(alarm_doc(id@, err_type, err_msg@, ts)),
    {
        let mut f: Fields = Fields::new();
        f.text("type", "alarm");
        f.text("id", id);
        f.unsigned("errType", err_type as u64);
        f.text("errMsg", err_msg);
        f.unsigned("ts", ts);
        assert(f@ =~= alarm_fields(id@, err_type, err_msg@, ts));
        json::to_bytes(&f.finish())
    }

    /// The state of the hardware.
    #[verifier::rlimit(50)]
    pub fn status_hardware(id: &str, s: &AppState, ts: u64) -> (bytes: Vec<u8>)
        ensures
            bytes@ == json::rendered(hardware_doc(id@, s@, ts)),
    {
        let mut f: Fields = Fields::new();
        f.text("type", "status_hardware");
        f.text("id", id);
        f.bit("runout", s.runout);
        f.bit("beep", s.beep);
        f.bit("light", s.light);
        f.bit("Breathing", s.breathing);
        f.bit("sd", s.sd_ok);
        f.bit("level", s.level_ok);
        f.bit("door", s.door_open);
        f.unsigned("ts", ts);
        assert(f@ =~= hardware_fields(id@, s@, ts));
        json::to_bytes(&f.finish())
    }

    /// Temperatures and fans.
    pub fn status_temp_fan(id: &str, s: &AppState, ts: u64) -> (bytes: Vec<u8>)
        ensures
            bytes@ == json::rendered(temp_fan_doc(id@, s@, ts)),
    {
        let mut f: Fields = Fields::new();
        f.text("type", "status_temp_fan");
        f.text("id", id);
        f.unsigned("preheatType", s.preheat_type as u64);
        f.unsigned("preheatState", s.preheat_state as u64);
        f.unsigned("heatState", s.heat_state as u64);
        f.integer("nozzleTargetTemp", s.nozzle_target.whole);
        f.integer("nozzleActualTemp", s.nozzle_actual.whole);
        f.integer("bedTargetTemp", s.bed_target.whole);
        f.integer("bedActualTemp", s.bed_actual.whole);
        f.unsigned("mainFanSpeed", s.main_fan_pct as u64);
        f.unsigned("boardFanSpeed", s.board_fan_pct as u64);
        f.unsigned("auxFanSpeed", s.aux_fan_pct as u64);
        f.unsigned("ts", ts);
        assert(f@ =~= temp_fan_fields(id@, s@, ts));
        json::to_bytes(&f.finish())
    }

    /// The state of bed levelling.
    pub fn status_level(id: &str, s: &AppState, ts: u64) -> (bytes: Vec<u8>)
        ensures
            bytes@ == json::rendered(level_doc(id@, s@, ts)),
    {
        let mut f: Fields = Fields::new();
        f.text("type", "status_level");
        f.text("id", id);
        f.unsigned("levelingStatus", s.leveling_status as u64);
        f.unsigned("levelingPoint", s.leveling_point as u64);
        f.unsigned("levelingTotalPoints", s.leveling_total as u64);
        f.unsigned("ts", ts);
        assert(f@ =~= level_fields(id@, s@, ts));
        json::to_bytes(&f.finish())
    }

    /// The state of the print.
    pub fn status_print(id: &str, s: &AppState, ts: u64) -> (bytes: Vec<u8>)
        ensures
            bytes@ == json::rendered(print_doc(id@, s@, ts)),
    {
        let mut f: Fields = Fields::new();
        f.text("type", "status_print");
        f.text("id", id);
        f.unsigned("printState", s.print_state as u64);
        f.integer("zOffset", s.zoffset_x100 as i64);
        f.unsigned("printProgress", s.print_progress as u64);
        f.value("printElapsedTime", hms_value(s.print_elapsed_secs));
        f.value("printRemainTime", hms_value(s.print_remain_secs));
        f.text("currentPrintFile", s.current_file.as_str());
        f.unsigned("ts", ts);
        assert(f@ =~= print_fields(id@, s@, ts));
        json::to_bytes(&f.finish())
    }

    /// The result of a G-code command.
    pub fn gcode_reply(id: &str, cmd_type: &str, exec_result: &str, ts: u64) -> (bytes: Vec<u8>)
        ensures
            bytes@ == json::rendered(gcode_doc(id@, cmd_type@, exec_result@, ts)),
    {
        let mut f: Fields = Fields::new();
        f.text("type", "gcode");
        f.text("id", id);
        f.text("cmdType", cmd_type);
        f.text("execResult", exec_result);
        f.unsigned("ts", ts);
        assert(f@ =~= gcode_fields(id@, cmd_type@, exec_result@, ts));
        json::to_bytes(&f.finish())
    }

    /// A download begins, or has ended.
    pub fn download_report(
        id: &str,
        kind: &str,
        file_name: &str,
        file_type: u8,
        trans_state: &str,
        err_code: u8,
        ts: u64,
    ) -> (bytes: Vec<u8>)
        ensures
            bytes@ == json::rendered(
                download_doc(
                    id@,
                    kind@,
                    file_name@,
                    file_type,
                    trans_state@,
                    err_code,
                    ts,
                ),
            ),
    {
        let mut f: Fields = Fields::new();
        f.text("type", kind);
        f.text("id", id);
        f.text("fileName", file_name);
        f.unsigned("fileType", file_type as u64);
        f.text("transState", trans_state);
        f.unsigned("errCode", err_code as u64);
        f.unsigned("ts", ts);
        assert(f@ =~= download_fields(id@, kind@, file_name@, file_type, trans_state@, err_code, ts));
        json::to_bytes(&f.finish())
    }

    /// The device asks to be unbound.
    pub fn device_unbind(id: &str, ts: u64) -> (bytes: Vec<u8>)
        ensures
            bytes@ == json::rendered(bare_doc("device_unbind"@, id@, ts)),
    {
        let mut f: Fields = Fields::new();
        f.text("type", "device_unbind");
        f.text("id", id);
        f.unsigned("ts", ts);
        assert(f@ =~= bare_fields("device_unbind"@, id@, ts));
        json::to_bytes(&f.finish())
    }

    /// One part of the list of files; the parts are numbered from 0.
    pub fn file_list_reply(
        id: &str,
        file_total: usize,
        file_index: usize,
        files: &[(String, u64)],
        ts: u64,
    ) -> (bytes: Vec<u8>)
        ensures
            bytes@ == json::rendered(
                file_list_doc(id@, file_total, file_index, file_views(files@), ts),
            ),
    {
        let mut list: Vec<Value> = Vec::new();
        let ghost docs = file_views(files@).map_values(|f: (Seq<char>, u64)| file_doc(f));
        let mut i: usize = 0;
        while i < files.len()
            invariant
                i <= files@.len(),
                docs == file_views(files@).map_values(|f: (Seq<char>, u64)| file_doc(f)),
                list@.len() == i,
                forall|k: int| 0 <= k < i ==> json::document(#[trigger] list@[k]) == docs[k],
            decreases files@.len() - i,
        {
            list.push(file_value(files[i].0.as_str(), files[i].1));
            i += 1;
        }
        assert(json::documents(list@) =~= docs);
        let mut f: Fields = Fields::new();
        f.text("type", "file_list");
        f.text("id", id);
        f.unsigned("fileTotal", file_total as u64);
        f.unsigned("fileIndex", file_index as u64);
        f.value("fileList", json::list_value(list));
        f.unsigned("ts", ts);
        assert(f@ =~= file_list_fields(id@, file_total, file_index, file_views(files@), ts));
        json::to_bytes(&f.finish())
    }

    /// The device asks for new firmware.
    pub fn upgrade_query(id: &str, ts: u64) -> (bytes: Vec<u8>)
        ensures
            bytes@ == json::rendered(bare_doc("upgrade_query"@, id@, ts)),
    {
        let mut f: Fields = Fields::new();
        f.text("type", "upgrade_query");
        f.text("id", id);
        f.unsigned("ts", ts);
        assert(f@ =~= bare_fields("upgrade_query"@, id@, ts));
        json::to_bytes(&f.finish())
    }
}

} // verus!
