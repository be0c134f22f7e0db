//! What the laws speak of is what the functions of the library do.

use crate::app_state::AppState;
use crate::blufi::frame::{BluFiFrame, FragmentAssembler, FrameError};
use crate::blufi::wifi::{ConnectRun, ScanRun, WifiError};
use crate::blufi::worker::{BluFiWorker, Reaction};
use crate::blufi::{frame, wifi, worker};
use crate::config::{DeviceConfig, DownloadConfig};
use crate::downlink;
use crate::downlink::{
    DownlinkCmd, DownloadPlan, GcodeStep, PlanView, RpcCall, Transfer, TransferOutcome, Work,
};
use crate::json;
use crate::laws::commands;
use crate::modules;
use crate::modules::{Answer, AppModule, Desk, Room, TickResult};
use crate::moonraker::state_bridge;
use crate::moonraker::state_bridge::Reading;
use crate::protocol;
use crate::protocol::{DownlinkMsg, UplinkMsg};
use crate::runtime::module::Interval;
use crate::state;
use crate::state::{Event, FifoItem, UiState, UplinkFifo};
use crate::text;
use serde_json::{Map as JsonMap, Value};
use vstd::prelude::*;

verus! {

/// A command of the cloud is carried out as [`commands`] has it.
pub proof fn law_commands_are_carried_out(
    raw: &str,
    s: GcodeStep,
    cmd: DownlinkCmd,
    w: Work,
    list: RpcCall,
    roots: RpcCall,
)
    ensures
        call_ensures(downlink::exec_gcode, (raw,), s) ==> s@ == commands::carried_out(raw@),
        call_ensures(downlink::handle, (cmd,), w) ==> downlink::work_for(cmd@, w),
        call_ensures(downlink::list_files_call, (), list) ==> list@ == downlink::list_files_view(),
        call_ensures(downlink::roots_call, (), roots) ==> roots@ == downlink::roots_view(),
{
}

/// A status update is applied as [`crate::laws::printer`] has it.
pub proof fn law_updates_are_applied(
    s: &mut AppState,
    map: &JsonMap<String, Value>,
    readings: &[Reading],
)
    requires
        call_ensures(state_bridge::apply, (s, map, readings), ()),
    ensures
        final(s)@ == state_bridge::applied(old(s)@, json::entries(*map), readings@),
{
}

/// A printer is busy as [`crate::laws::printer`] has it.
pub proof fn law_busy_printer(s: &AppState, b: bool)
    requires
        call_ensures(AppState::is_busy, (s,), b),
    ensures
        b == s@.busy(),
{
}

/// Events are handled as [`crate::laws::session`] has it.
pub proof fn law_events_are_handled(
    m: &mut AppModule,
    ev: Event,
    printer: &mut AppState,
    ui: &mut UiState,
    now: u64,
    answer: Option<Answer>,
)
    requires
        old(m).well_formed(),
        old(m).mods.upgrade.query_seq < u64::MAX,
        call_ensures(AppModule::handle_event, (m, ev, printer, ui, now), answer),
    ensures
        modules::event_handled(
            Room { desk: old(m)@, ui: old(ui)@, printer: old(printer)@ },
            old(m).cfg.device.id@,
            ev,
            now,
        ) == (
            Room { desk: final(m)@, ui: final(ui)@, printer: final(printer)@ },
            modules::opt_answer(answer),
        ),
{
}

/// Packets of the cloud are handled as [`crate::laws::session`] has it.
pub proof fn law_packets_are_handled(
    m: &mut AppModule,
    msg: &DownlinkMsg,
    ui: &mut UiState,
    now: u64,
    r: (Option<DownlinkCmd>, Option<Answer>),
)
    requires
        old(m).well_formed(),
        call_ensures(AppModule::handle_downlink, (m, msg, ui, now), r),
    ensures
        modules::downlinked(old(m)@, old(ui)@, old(m).cfg.device.id@, *msg, now) == (modules::Reaction {
            desk: final(m)@,
            ui: final(ui)@,
            cmd: modules::opt_cmd(r.0),
            answer: modules::opt_answer(r.1),
        }),
{
}

/// A tick handles the events one after the other and then publishes as [`crate::laws::session`] has
/// it; the next one follows after half a second.
pub proof fn law_ticks(
    m: &mut AppModule,
    events: Vec<Event>,
    printer: &mut AppState,
    ui: &mut UiState,
    ip: &str,
    now: u64,
    r: TickResult,
)
    requires
        old(m).well_formed(),
        old(m).mods.upgrade.query_seq + events@.len() <= u64::MAX,
        call_ensures(AppModule::on_tick, (m, events, printer, ui, ip, now), r),
    ensures
        ({
            let start = Room { desk: old(m)@, ui: old(ui)@, printer: old(printer)@ };
            let (room, answers) = modules::events_handled(
                start,
                old(m).cfg.device.id@,
                events@,
                now,
            );
            let t = modules::ticked(room.desk, old(m).cfg, room.printer, ip@, now);
            &&& final(m)@ == t.desk
            &&& modules::packet_views(r.packets@) == t.out
            &&& final(ui)@ == room.ui
            &&& final(printer)@ == room.printer
            &&& modules::answer_views(r.answers@) == answers
            &&& r.next == (Interval { millis: 500 })
        }),
{
}

/// A session begins with a login, on the topic of the device; the user interface sees the cloud
/// connected.
pub proof fn law_start(m: &mut AppModule, ui: &mut UiState, ip: &str, now: u64, packet: Vec<u8>)
    requires
        call_ensures(AppModule::on_start, (m, ui, ip, now), packet),
    ensures
        packet@ == json::rendered(protocol::login_doc(old(m).cfg.device, ip@, now)),
        final(m)@ == (Desk { conn: old(m)@.conn.connected(now).login_sent(now), ..old(m)@ }),
        final(ui)@ == (state::UiView { cloud_connected: true, ..old(ui)@ }),
{
}

/// A module subscribes to the topic of the packets to its device, and is to be asked for packets
/// where some wait or a report is wanted.
pub proof fn law_topic_and_urgency(m: &AppModule, topic: String, b: bool)
    requires
        call_ensures(AppModule::register, (m,), topic),
        call_ensures(AppModule::needs_immediate_publish, (m,), b),
    ensures
        topic@ == "GT/MXS/DOWN/"@ + m.cfg.device.id@,
        b <==> m@.force_publish || m@.queue.len() > 0,
{
}

/// A download that was accepted and could not be handed on is taken back, and reported as ERROR with
/// code 1.
pub proof fn law_lost_command(m: &mut AppModule, cmd: &DownlinkCmd, ui: &mut UiState, now: u64)
    requires
        old(m).well_formed(),
        old(m)@.queue.len() < 10,
        call_ensures(AppModule::command_lost, (m, cmd, ui, now), ()),
    ensures
        cmd@ matches downlink::CmdView::DownloadBegin { file_type, file_name, .. } ==> {
            &&& !final(ui)@.downloading
            &&& final(m)@.mods.active_download is None
            &&& final(m)@.queue.len() == old(m)@.queue.len() + 1
            &&& final(m)@.queue.last().payload == json::rendered(
                protocol::download_doc(
                    old(m).cfg.device.id@,
                    "download_begin"@,
                    file_name,
                    file_type,
                    "ERROR"@,
                    1,
                    now,
                ),
            )
        },
        !(cmd@ is DownloadBegin) ==> final(m)@ == old(m)@ && final(ui)@ == old(ui)@,
{
}

/// The packets to the cloud are the documents that [`crate::laws::reports`] describes.
pub proof fn law_packets_are_the_documents(
    device: &DeviceConfig,
    s: &AppState,
    id: &str,
    a: &str,
    b: &str,
    c: &str,
    n: u8,
    k: u8,
    ts: u64,
    total: usize,
    index: usize,
    files: &[(String, u64)],
    bytes: Vec<u8>,
)
    ensures
        call_ensures(UplinkMsg::login, (device, a, ts), bytes) ==> bytes@ == json::rendered(
            protocol::login_doc(*device, a@, ts),
        ),
        call_ensures(UplinkMsg::alarm, (id, n, a, ts), bytes) ==> bytes@ == json::rendered(
            protocol::alarm_doc(id@, n, a@, ts),
        ),
        call_ensures(UplinkMsg::status_hardware, (id, s, ts), bytes) ==> bytes@ == json::rendered(
            protocol::hardware_doc(id@, s@, ts),
        ),
        call_ensures(UplinkMsg::status_temp_fan, (id, s, ts), bytes) ==> bytes@ == json::rendered(
            protocol::temp_fan_doc(id@, s@, ts),
        ),
        call_ensures(UplinkMsg::status_level, (id, s, ts), bytes) ==> bytes@ == json::rendered(
            protocol::level_doc(id@, s@, ts),
        ),
        call_ensures(UplinkMsg::status_print, (id, s, ts), bytes) ==> bytes@ == json::rendered(
            protocol::print_doc(id@, s@, ts),
        ),
        call_ensures(UplinkMsg::gcode_reply, (id, a, b, ts), bytes) ==> bytes@ == json::rendered(
            protocol::gcode_doc(id@, a@, b@, ts),
        ),
        call_ensures(UplinkMsg::download_report, (id, a, b, n, c, k, ts), bytes) ==> bytes@
            == json::rendered(protocol::download_doc(id@, a@, b@, n, c@, k, ts)),
        call_ensures(UplinkMsg::device_unbind, (id, ts), bytes) ==> bytes@ == json::rendered(
            protocol::bare_doc("device_unbind"@, id@, ts),
        ),
        call_ensures(UplinkMsg::upgrade_query, (id, ts), bytes) ==> bytes@ == json::rendered(
            protocol::bare_doc("upgrade_query"@, id@, ts),
        ),
        call_ensures(UplinkMsg::file_list_reply, (id, total, index, files, ts), bytes) ==> bytes@
            == json::rendered(
            protocol::file_list_doc(id@, total, index, protocol::file_views(files@), ts),
        ),
{
}

/// A download is planned and goes on as [`crate::laws::downloads`] has it.
pub proof fn law_downloads_are_run(
    cfg: &DownloadConfig,
    home: Option<&str>,
    file_type: u8,
    name: &str,
    url: Option<&str>,
    r: Result<DownloadPlan, u8>,
    max: u64,
    first: Transfer,
    t: &mut Transfer,
    plan: &DownloadPlan,
    o: TransferOutcome,
)
    requires
        old(t).total <= old(t).max,
    ensures
        call_ensures(downlink::plan_download, (cfg, home, file_type, name, url), r)
            ==> downlink::planned(
            cfg.dir@,
            text::opt_str(home),
            file_type,
            name@,
            text::opt_str(url),
        ) == match r {
            Ok(p) => Ok::<PlanView, u8>(p@),
            Err(e) => Err(e),
        },
        call_ensures(Transfer::new, (max,), first) ==> first == (Transfer {
            step: downlink::TransferStep::AskRoot,
            total: 0,
            max,
        }),
        call_ensures(Transfer::on, (t, plan, o), ()) ==> *final(t) == downlink::transferred(
            plan@,
            *old(t),
            o,
        ),
{
}

/// A network is joined as [`crate::laws::joining`] has it.
pub proof fn law_networks_are_joined(
    ssid: &str,
    pwd: Option<&str>,
    new: ConnectRun,
    run: &mut ConnectRun,
    args: Vec<String>,
    out: Result<String, WifiError>,
    expired: bool,
    r: Result<(), WifiError>,
)
    ensures
        call_ensures(ConnectRun::new, (ssid, pwd), new) ==> new@ == (wifi::RunView {
            ssid: ssid@,
            pwd: text::opt_str(pwd),
            id: 0,
            stage: wifi::Stage::Find,
        }),
        call_ensures(ConnectRun::args, (&new,), args) ==> wifi::string_views(args@) == new@.args(),
        call_ensures(ConnectRun::step, (run, out, expired), r) ==> match old(run)@.stepped(
            wifi::output_view(out),
            expired,
        ) {
            Ok(v) => r is Ok && final(run)@ == v,
            Err(f) => r matches Err(e) && e@ == f && final(run)@ == old(run)@,
        },
{
}

/// A scan runs as [`crate::laws::wireless`] has it.
pub proof fn law_scans_are_run(
    away: bool,
    wait_ms: u64,
    new: ScanRun,
    args: Vec<String>,
    ms: u64,
    run: &mut ScanRun,
    out: Result<String, WifiError>,
    r: Result<(), WifiError>,
)
    requires
        old(run)@.well_formed(),
    ensures
        call_ensures(ScanRun::new, (away, wait_ms), new) ==> new@.away == away && new@.wait_ms
            == wait_ms && new@.reads == 0 && new@.found.len() == 0 && new@.stage == if away {
            wifi::ScanStage::Leave
        } else {
            wifi::ScanStage::Trigger
        },
        call_ensures(ScanRun::args, (&new,), args) ==> wifi::string_views(args@) == new@.args(),
        call_ensures(ScanRun::pause_ms, (&new,), ms) ==> ms == new@.pause_ms(),
        call_ensures(ScanRun::step, (run, out), r) ==> match old(run)@.stepped(
            wifi::output_view(out),
        ) {
            Ok(v) => r is Ok && final(run)@ == v,
            Err(f) => r matches Err(e) && e@ == f && final(run)@ == old(run)@,
        },
{
}

/// Frames are encoded, decoded and put together, and those of the app handled, as
/// [`crate::laws::provisioning`] has it.
pub proof fn law_frames_are_handled(
    f: &BluFiFrame,
    bytes: Vec<u8>,
    raw: &[u8],
    d: Result<BluFiFrame, FrameError>,
    a: &mut FragmentAssembler,
    p: Result<Option<Vec<u8>>, FrameError>,
    w: &mut BluFiWorker,
    r: Reaction,
)
    ensures
        call_ensures(BluFiFrame::encode, (f,), bytes) ==> bytes@ == frame::wire(f@),
        call_ensures(BluFiFrame::decode, (raw,), d) ==> match d {
            Ok(g) => frame::decoded(raw@) == Ok::<frame::FrameView, FrameError>(g@),
            Err(e) => frame::decoded(raw@) == Err::<frame::FrameView, FrameError>(e),
        },
        call_ensures(FragmentAssembler::feed, (a, f), p) ==> final(a)@ == frame::fed(old(a)@, f@).0
            && frame::payload_view(p) == frame::fed(old(a)@, f@).1,
        call_ensures(BluFiWorker::on_app_frame, (w, raw), r) ==> (final(w)@, r@)
            == worker::frame_handled(old(w)@, old(w).cfg, raw@),
{
}

/// A packet that is queued gets in where there is room, or where it is more urgent than one that
/// waits; it comes last. What leaves is never less urgent than what stays.
pub proof fn law_queue(f: &mut UplinkFifo, item: FifoItem)
    requires
        old(f).well_formed(),
        call_ensures(UplinkFifo::push, (f, item), ()),
    ensures
        old(f)@.len() < old(f).capacity_of() ==> final(f)@ == old(f)@.push(item@),
        old(f)@.len() == old(f).capacity_of() && (exists|i: int|
            0 <= i < old(f)@.len() && (#[trigger] old(f)@[i]).priority > item.priority)
            ==> final(f)@.last() == item@ && final(f)@.len() == old(f)@.len(),
        old(f)@.len() == old(f).capacity_of() && (forall|i: int|
            0 <= i < old(f)@.len() ==> (#[trigger] old(f)@[i]).priority <= item.priority)
            ==> final(f)@ == old(f)@,
{
    if old(f)@.len() > 0 {
        state::law_least_urgent_makes_room(old(f)@);
    }
}

/// What is taken from the queue is the first of the most urgent packets, and the others stay in
/// order.
pub proof fn law_queue_gives(f: &mut UplinkFifo, item: Option<FifoItem>)
    requires
        call_ensures(UplinkFifo::pop, (f,), item),
    ensures
        item is None <==> old(f)@.len() == 0,
        item matches Some(i) ==> exists|k: int|
            {
                &&& 0 <= k < old(f)@.len()
                &&& #[trigger] old(f)@[k] == i@
                &&& final(f)@ == old(f)@.remove(k)
                &&& forall|j: int|
                    0 <= j < old(f)@.len() ==> i@.priority <= (#[trigger] old(f)@[j]).priority
                &&& forall|j: int| 0 <= j < k ==> i@.priority < (#[trigger] old(f)@[j]).priority
            },
{
    if old(f)@.len() > 0 {
        state::law_most_urgent_leaves_first(old(f)@);
        let k = state::most_urgent(old(f)@);
        assert(old(f)@[k] == old(f)@[k]);
    }
}

/// A new module has nothing to publish, room for ten packets, and is neither connected nor bound.
pub proof fn law_new_module(cfg: crate::config::AppConfig, m: AppModule)
    requires
        call_ensures(AppModule::new, (cfg,), m),
    ensures
        m.cfg == cfg,
        m@.queue.len() == 0,
        m.fifo.capacity_of() == 10,
        m@.conn.state == state::ConnState::Disconnected,
        !m@.conn.bound,
        !m@.force_publish,
        m@.mods.active_download is None,
{
}

} // verus!
