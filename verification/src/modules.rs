//! The device protocol as a module: logging in, answering the cloud, reporting the printer's
//! state, and publishing what waits in the queue.
//!
//! The module decides; it neither reads the clock nor sends anything. Every method is told the
//! time and what has happened, and returns what is to be published, sent or answered.

use crate::app_state::{AppState, AppStateView};
use crate::config::AppConfig;
use crate::downlink::{CmdView, DownlinkCmd, ReplyView, UiReply};
use crate::json;
use crate::json::{Doc, Fields};
use crate::protocol;
use crate::protocol::{DownlinkMsg, UplinkMsg};
use crate::runtime::module::Interval;
use crate::state;
use crate::state::{
    ConnState, ConnStateMachine, Event, FifoItem, FifoView, UiState, UiView, UplinkFifo,
    MAX_LOGIN_ATTEMPTS, UNBOUND_RETRY_INTERVAL_SECS,
};
use crate::text;
use serde_json::Value;
use vstd::prelude::*;

verus! {

/// How many packets may wait.
pub const UPLINK_FIFO_CAP: usize = 10;

/// The time between two ticks.
pub const TICK_MILLIS: u64 = 500;

/// How often an idle printer reports its state.
pub const STATUS_IDLE_INTERVAL_SECS: u64 = 300;

/// How often a busy printer reports its state.
pub const STATUS_BUSY_INTERVAL_SECS: u64 = 10;

/// The priority of every packet that this module queues.
pub const UPLINK_PRIORITY: u8 = 0;

/// How many files one packet lists.
pub const FILES_PER_PACKET: usize = 10;

/// What is known of the last login.
pub struct LoginModule {
    pub reply_received: bool,
    pub bind_state: u8,
    pub account: String,
}

pub struct StatusModule {
    /// The printer's state has changed.
    pub dirty: bool,
}

pub struct GcodeModule {
    /// The command whose result is awaited.
    pub pending_cmd_type: Option<String>,
}

pub struct DownloadModule {
    /// The running download: file type and file name.
    pub active: Option<(u8, String)>,
}

pub struct UpgradeModule {
    pub last_query_ts: u64,
    /// Who waits for the answer to a firmware query.
    pub pending_reply: Option<u64>,
    /// The number of the last firmware query.
    pub query_seq: u64,
    /// The number of the query that the last answer belongs to; 0 before the first.
    pub result_seq: u64,
}

pub struct FileListModule {
    pub total: usize,
}

pub struct UnbindModule {
    pub pending: bool,
}

pub struct AlarmModule {
    pub last_err_type: u8,
    pub last_ts: u64,
}

/// The parts of the module.
pub struct BizModules {
    pub login: LoginModule,
    pub status: StatusModule,
    pub gcode: GcodeModule,
    pub download: DownloadModule,
    pub upgrade: UpgradeModule,
    pub filelist: FileListModule,
    pub unbind: UnbindModule,
    pub alarm: AlarmModule,
}

/// The contents of the parts of the module.
#[verifier::ext_equal]
pub struct ModsView {
    pub login_replied: bool,
    pub login_bind_state: u8,
    pub login_account: Seq<char>,
    pub status_dirty: bool,
    pub pending_cmd_type: Option<Seq<char>>,
    pub active_download: Option<(u8, Seq<char>)>,
    pub last_query_ts: u64,
    pub pending_reply: Option<u64>,
    pub query_seq: u64,
    pub result_seq: u64,
    pub file_total: usize,
    pub unbind_pending: bool,
    pub alarm_err_type: u8,
    pub alarm_ts: u64,
}

/// A running download by its contents.
pub open spec fn download_view(d: Option<(u8, String)>) -> Option<(u8, Seq<char>)> {
    match d {
        Some((t, n)) => Some((t, n@)),
        None => None,
    }
}

impl View for BizModules {
    type V = ModsView;

    open spec fn view(&self) -> ModsView {
        ModsView {
            login_replied: self.login.reply_received,
            login_bind_state: self.login.bind_state,
            login_account: self.login.account@,
            status_dirty: self.status.dirty,
            pending_cmd_type: protocol::opt_text(self.gcode.pending_cmd_type),
            active_download: download_view(self.download.active),
            last_query_ts: self.upgrade.last_query_ts,
            pending_reply: self.upgrade.pending_reply,
            query_seq: self.upgrade.query_seq,
            result_seq: self.upgrade.result_seq,
            file_total: self.filelist.total,
            unbind_pending: self.unbind.pending,
            alarm_err_type: self.alarm.last_err_type,
            alarm_ts: self.alarm.last_ts,
        }
    }
}

impl ModsView {
    /// Nothing has happened yet.
    pub open spec fn initial() -> ModsView {
        ModsView {
            login_replied: false,
            login_bind_state: 0,
            login_account: Seq::empty(),
            status_dirty: false,
            pending_cmd_type: None,
            active_download: None,
            last_query_ts: 0,
            pending_reply: None,
            query_seq: 0,
            result_seq: 0,
            file_total: 0,
            unbind_pending: false,
            alarm_err_type: 0,
            alarm_ts: 0,
        }
    }
}

impl Default for BizModules {
    fn default() -> (m: Self)
        ensures
            m@ == ModsView::initial(),
    {
        BizModules {
            login: LoginModule { reply_received: false, bind_state: 0, account: String::new() },
            status: StatusModule { dirty: false },
            gcode: GcodeModule { pending_cmd_type: None },
            download: DownloadModule { active: None },
            upgrade: UpgradeModule {
                last_query_ts: 0,
                pending_reply: None,
                query_seq: 0,
                result_seq: 0,
            },
            filelist: FileListModule { total: 0 },
            unbind: UnbindModule { pending: false },
            alarm: AlarmModule { last_err_type: 0, last_ts: 0 },
        }
    }
}

/// An answer for the user interface.
#[derive(Debug)]
pub struct Answer {
    /// Who waits for it.
    pub ticket: u64,
    pub reply: UiReply,
}

/// The contents of an [`Answer`].
#[verifier::ext_equal]
pub struct AnswerView {
    pub ticket: u64,
    pub reply: ReplyView,
}

impl View for Answer {
    type V = AnswerView;

    open spec fn view(&self) -> AnswerView {
        AnswerView { ticket: self.ticket, reply: self.reply@ }
    }
}

/// An optional answer by its contents.
pub open spec fn opt_answer(a: Option<Answer>) -> Option<AnswerView> {
    match a {
        Some(a) => Some(a@),
        None => None,
    }
}

/// An optional command by its contents.
pub open spec fn opt_cmd(c: Option<DownlinkCmd>) -> Option<CmdView> {
    match c {
        Some(c) => Some(c@),
        None => None,
    }
}

/// The protocol module.
pub struct AppModule {
    pub cfg: AppConfig,
    pub conn: ConnStateMachine,
    pub fifo: UplinkFifo,
    pub mods: BizModules,
    /// Something should be published soon.
    pub force_publish: bool,
    /// The queue is to be published although the device is not bound.
    pub force_unbind_publish: bool,
}

/// What changes in an [`AppModule`].
#[verifier::ext_equal]
pub struct Desk {
    pub conn: ConnStateMachine,
    pub queue: Seq<FifoView>,
    pub mods: ModsView,
    pub force_publish: bool,
    pub force_unbind_publish: bool,
}

impl View for AppModule {
    type V = Desk;

    open spec fn view(&self) -> Desk {
        Desk {
            conn: self.conn,
            queue: self.fifo@,
            mods: self.mods@,
            force_publish: self.force_publish,
            force_unbind_publish: self.force_unbind_publish,
        }
    }
}

impl Desk {
    /// One more packet waits.
    pub open spec fn enqueued(self, payload: Seq<u8>) -> Desk {
        Desk {
            queue: state::pushed(
                self.queue,
                UPLINK_FIFO_CAP as int,
                FifoView { priority: UPLINK_PRIORITY, payload },
            ),
            force_publish: true,
            ..self
        }
    }

    /// The parts of a file list wait, ten files in each.
    pub open spec fn files_enqueued(
        self,
        id: Seq<char>,
        total: usize,
        files: Seq<(Seq<char>, u64)>,
        index: nat,
        now: u64,
    ) -> Desk
        decreases files.len(),
    {
        if files.len() == 0 {
            self
        } else {
            let n = if files.len() < 10 {
                files.len() as int
            } else {
                10
            };
            self.enqueued(
                json::rendered(
                    protocol::file_list_doc(id, total, index as usize, files.take(n), now),
                ),
            ).files_enqueued(id, total, files.skip(n), index + 1, now)
        }
    }
}

/// The name of a firmware file as the user interface gets it: none is the empty text.
pub open spec fn firmware_name(name: Seq<char>) -> Seq<char> {
    if name == "NA"@ {
        Seq::empty()
    } else {
        name
    }
}

/// The fields of [`firmware_doc`].
pub open spec fn firmware_fields(
    server_ip: Seq<char>,
    mcu: Seq<char>,
    esp: Seq<char>,
) -> Seq<(Seq<char>, Doc)> {
    seq![
        ("server_ip"@, Doc::Text(server_ip)),
        ("mcu_file"@, Doc::Text(firmware_name(mcu))),
        ("esp_file"@, Doc::Text(firmware_name(esp))),
    ]
}

/// What the user interface is told of firmware.
pub open spec fn firmware_doc(server_ip: Seq<char>, mcu: Seq<char>, esp: Seq<char>) -> Doc {
    json::object_of(firmware_fields(server_ip, mcu, esp))
}

fn firmware_file<'a>(name: &'a str) -> (r: &'a str)
    ensures
        r@ == firmware_name(name@),
{
    proof {
        reveal_strlit("");
    }
    if text::same(name, "NA") {
        assert(""@ =~= Seq::<char>::empty());
        ""
    } else {
        name
    }
}

fn firmware_value(server_ip: &str, mcu: &str, esp: &str) -> (v: Value)
    ensures
        json::document(v) == firmware_doc(server_ip@, mcu@, esp@),
{
    let mut f: Fields = Fields::new();
    f.text("server_ip", server_ip);
    f.text("mcu_file", firmware_file(mcu));
    f.text("esp_file", firmware_file(esp));
    assert(f@ =~= firmware_fields(server_ip@, mcu@, esp@));
    f.finish()
}

/// Everything that an event may change: the module, what the user interface sees, and whether
/// the printer's server is connected.
#[verifier::ext_equal]
pub struct Room {
    pub desk: Desk,
    pub ui: UiView,
    pub printer: AppStateView,
}

/// The error code of a download as the protocol knows it: 0, 1 or 2.
pub open spec fn report_code(err_code: u8) -> u8 {
    if err_code <= 2 {
        err_code
    } else {
        1
    }
}

/// The room after an event, and the answer that the event has for the user interface.
pub open spec fn event_handled(r: Room, id: Seq<char>, ev: Event, now: u64) -> (
    Room,
    Option<AnswerView>,
) {
    match ev {
        Event::StatusUpdated => (
            Room {
                desk: Desk {
                    mods: ModsView { status_dirty: true, ..r.desk.mods },
                    force_publish: true,
                    ..r.desk
                },
                ..r
            },
            None,
        ),
        Event::MrConnected => (
            Room {
                ui: UiView { moonraker_connected: true, ..r.ui },
                printer: AppStateView { moonraker_connected: true, ..r.printer },
                ..r
            },
            None,
        ),
        Event::MrDisconnected => (
            Room {
                ui: UiView { moonraker_connected: false, ..r.ui },
                printer: AppStateView { moonraker_connected: false, ..r.printer },
                ..r
            },
            None,
        ),
        Event::GcodeResult { cmd_type, result } => (
            Room {
                desk: r.desk.enqueued(
                    json::rendered(protocol::gcode_doc(id, cmd_type@, result@, now)),
                ),
                ..r
            },
            None,
        ),
        Event::UpgradeQueryRequested { ticket } => {
            let seq = (r.desk.mods.query_seq + 1) as u64;
            let answered = r.desk.mods.result_seq == seq && ticket is Some;
            let desk = Desk {
                mods: ModsView {
                    query_seq: seq,
                    pending_reply: if answered {
                        None
                    } else {
                        ticket
                    },
                    ..r.desk.mods
                },
                ..r.desk
            };
            (
                Room {
                    desk: desk.enqueued(
                        json::rendered(protocol::bare_doc("upgrade_query"@, id, now)),
                    ),
                    ..r
                },
                if answered {
                    Some(
                        AnswerView {
                            ticket: ticket->0,
                            reply: ReplyView::Done(
                                firmware_doc(
                                    r.ui.firmware_server_ip,
                                    r.ui.firmware_mcu_file,
                                    r.ui.firmware_esp_file,
                                ),
                            ),
                        },
                    )
                } else {
                    None
                },
            )
        },
        Event::DownloadStarted { file_type, file_name } => (
            Room {
                desk: r.desk.enqueued(
                    json::rendered(
                        protocol::download_doc(
                            id,
                            "download_begin"@,
                            file_name@,
                            file_type,
                            "OK"@,
                            0,
                            now,
                        ),
                    ),
                ),
                ..r
            },
            None,
        ),
        Event::DownloadFinished { file_type, file_name, err_code, from_ui } => {
            let code = report_code(err_code);
            let report = json::rendered(
                protocol::download_doc(
                    id,
                    "download_end"@,
                    file_name@,
                    file_type,
                    if code == 0 {
                        "OK"@
                    } else {
                        "ERROR"@
                    },
                    code,
                    now,
                ),
            );
            if from_ui {
                (Room { desk: r.desk.enqueued(report), ..r }, None)
            } else {
                (
                    Room {
                        desk: Desk {
                            mods: ModsView { active_download: None, ..r.desk.mods },
                            ..r.desk
                        }.enqueued(report),
                        ui: UiView { downloading: false, ..r.ui },
                        ..r
                    },
                    None,
                )
            }
        },
        Event::UiUnbind => (
            Room {
                desk: Desk {
                    force_unbind_publish: true,
                    ..r.desk.enqueued(
                        json::rendered(protocol::bare_doc("device_unbind"@, id, now)),
                    )
                },
                ui: UiView { bind_state: 1, account: Seq::empty(), ..r.ui },
                ..r
            },
            None,
        ),
        Event::FileListResult { files } => (
            Room {
                desk: if files@.len() == 0 {
                    r.desk.enqueued(
                        json::rendered(protocol::file_list_doc(id, 0, 0, Seq::empty(), now)),
                    )
                } else {
                    r.desk.files_enqueued(
                        id,
                        files@.len() as usize,
                        protocol::file_views(files@),
                        0,
                        now,
                    )
                },
                ..r
            },
            None,
        ),
        Event::Alarm { err_type, err_msg } => (
            Room {
                desk: r.desk.enqueued(
                    json::rendered(protocol::alarm_doc(id, err_type, err_msg@, now)),
                ),
                ..r
            },
            None,
        ),
    }
}

impl AppModule {
    /// The queue keeps its capacity.
    pub open spec fn well_formed(&self) -> bool {
        self.fifo.well_formed() && self.fifo.capacity_of() == UPLINK_FIFO_CAP
    }

    /// A module that has not connected yet.
    pub fn new(cfg: AppConfig) -> (m: Self)
        ensures
            m.well_formed(),
            m.cfg == cfg,
            m@ == (Desk {
                conn: ConnStateMachine::initial(),
                queue: Seq::empty(),
                mods: ModsView::initial(),
                force_publish: false,
                force_unbind_publish: false,
            }),
    {
        AppModule {
            cfg,
            conn: ConnStateMachine::default(),
            fifo: UplinkFifo::new(UPLINK_FIFO_CAP),
            mods: BizModules::default(),
            force_publish: false,
            force_unbind_publish: false,
        }
    }

    /// Queues a packet.
    pub fn enqueue(&mut self, payload: Vec<u8>)
        requires
            old(self).well_formed(),
        ensures
            final(self).well_formed(),
            final(self).cfg == old(self).cfg,
            final(self)@ == old(self)@.enqueued(payload@),
            final(self).mods == old(self).mods,
    {
        self.fifo.push(FifoItem { priority: UPLINK_PRIORITY, payload });
        self.force_publish = true;
    }

    fn enqueue_files(&mut self, files: &Vec<(String, u64)>, now: u64)
        requires
            old(self).well_formed(),
        ensures
            final(self).well_formed(),
            final(self).cfg == old(self).cfg,
            final(self)@ == if files@.len() == 0 {
                old(self)@.enqueued(
                    json::rendered(
                        protocol::file_list_doc(old(self).cfg.device.id@, 0, 0, Seq::empty(), now),
                    ),
                )
            } else {
                old(self)@.files_enqueued(
                    old(self).cfg.device.id@,
                    files@.len() as usize,
                    protocol::file_views(files@),
                    0,
                    now,
                )
            },
            final(self).mods == old(self).mods,
    {
        let total: usize = files.len();
        let ghost id = self.cfg.device.id@;
        let ghost views = protocol::file_views(files@);
        if total == 0 {
            let payload: Vec<u8> = UplinkMsg::file_list_reply(
                self.cfg.device.id.as_str(),
                0,
                0,
                files.as_slice(),
                now,
            );
            assert(views =~= Seq::<(Seq<char>, u64)>::empty());
            self.enqueue(payload);
            return ;
        }
        let mut start: usize = 0;
        let mut index: usize = 0;
        assert(views.skip(0) =~= views);
        while start < total
            invariant
                self.well_formed(),
                self.cfg == old(self).cfg,
                self.mods == old(self).mods,
                id == self.cfg.device.id@,
                total == files@.len() == views.len(),
                views == protocol::file_views(files@),
                index <= start <= total,
                old(self)@.files_enqueued(id, total, views, 0, now) == self@.files_enqueued(
                    id,
                    total,
                    views.skip(start as int),
                    index as nat,
                    now,
                ),
            decreases total - start,
        {
            let end: usize = if total - start < FILES_PER_PACKET {
                total
            } else {
                start + FILES_PER_PACKET
            };
            let chunk: &[(String, u64)] = vstd::slice::slice_subrange(
                files.as_slice(),
                start,
                end,
            );
            assert(protocol::file_views(chunk@) =~= views.skip(start as int).take(end - start));
            assert(views.skip(start as int).skip(end - start) =~= views.skip(end as int));
            let payload: Vec<u8> = UplinkMsg::file_list_reply(
                self.cfg.device.id.as_str(),
                total,
                index,
                chunk,
                now,
            );
            self.enqueue(payload);
            start = end;
            index += 1;
        }
        assert(views.skip(start as int) =~= Seq::<(Seq<char>, u64)>::empty());
    }

    /// Handles one event.
    #[verifier::rlimit(80)]
    pub fn handle_event(&mut self, ev: Event, printer: &mut AppState, ui: &mut UiState, now: u64) -> (answer:
        Option<Answer>)
        requires
            old(self).well_formed(),
            old(self).mods.upgrade.query_seq < u64::MAX,
        ensures
            final(self).well_formed(),
            final(self).cfg == old(self).cfg,
            final(self).mods.upgrade.query_seq <= old(self).mods.upgrade.query_seq + 1,
            ({
                let (r, a) = event_handled(
                    Room { desk: old(self)@, ui: old(ui)@, printer: old(printer)@ },
                    old(self).cfg.device.id@,
                    ev,
                    now,
                );
                &&& r == (Room { desk: final(self)@, ui: final(ui)@, printer: final(printer)@ })
                &&& opt_answer(answer) == a
            }),
    {
        match ev {
            Event::StatusUpdated => {
                self.mods.status.dirty = true;
                self.force_publish = true;
                None
            },
            Event::MrConnected => {
                printer.moonraker_connected = true;
                ui.moonraker_connected = true;
                None
            },
            Event::MrDisconnected => {
                printer.moonraker_connected = false;
                ui.moonraker_connected = false;
                None
            },
            Event::GcodeResult { cmd_type, result } => {
                let payload: Vec<u8> = UplinkMsg::gcode_reply(
                    self.cfg.device.id.as_str(),
                    cmd_type.as_str(),
                    result.as_str(),
                    now,
                );
                self.enqueue(payload);
                None
            },
            Event::UpgradeQueryRequested { ticket } => {
                self.mods.upgrade.query_seq += 1;
                self.mods.upgrade.pending_reply = ticket;
                let payload: Vec<u8> = UplinkMsg::upgrade_query(self.cfg.device.id.as_str(), now);
                self.enqueue(payload);
                // The cloud may have answered before the query was taken from the events.
                if self.mods.upgrade.result_seq == self.mods.upgrade.query_seq {
                    if let Some(waiting) = ticket {
                        self.mods.upgrade.pending_reply = None;
                        let v: Value = firmware_value(
                            ui.firmware_server_ip.as_str(),
                            ui.firmware_mcu_file.as_str(),
                            ui.firmware_esp_file.as_str(),
                        );
                        return Some(Answer { ticket: waiting, reply: UiReply::Done(v) });
                    }
                }
                None
            },
            Event::DownloadStarted { file_type, file_name } => {
                let payload: Vec<u8> = UplinkMsg::download_report(
                    self.cfg.device.id.as_str(),
                    "download_begin",
                    file_name.as_str(),
                    file_type,
                    "OK",
                    0,
                    now,
                );
                self.enqueue(payload);
                None
            },
            Event::DownloadFinished { file_type, file_name, err_code, from_ui } => {
                if !from_ui {
                    ui.downloading = false;
                    self.mods.download.active = None;
                }
                let code: u8 = if err_code <= 2 {
                    err_code
                } else {
                    1
                };
                let trans_state: &str = if code == 0 {
                    "OK"
                } else {
                    "ERROR"
                };
                let payload: Vec<u8> = UplinkMsg::download_report(
                    self.cfg.device.id.as_str(),
                    "download_end",
                    file_name.as_str(),
                    file_type,
                    trans_state,
                    code,
                    now,
                );
                self.enqueue(payload);
                None
            },
            Event::UiUnbind => {
                let payload: Vec<u8> = UplinkMsg::device_unbind(self.cfg.device.id.as_str(), now);
                self.enqueue(payload);
                self.force_unbind_publish = true;
                ui.bind_state = 1;
                ui.account = String::new();
                None
            },
            Event::FileListResult { files } => {
                self.enqueue_files(&files, now);
                None
            },
            Event::Alarm { err_type, err_msg } => {
                let payload: Vec<u8> = UplinkMsg::alarm(
                    self.cfg.device.id.as_str(),
                    err_type,
                    err_msg.as_str(),
                    now,
                );
                self.enqueue(payload);
                None
            },
        }
    }
}

/// The room after some events, and the answers that they have for the user interface.
pub open spec fn events_handled(r: Room, id: Seq<char>, events: Seq<Event>, now: u64) -> (
    Room,
    Seq<AnswerView>,
)
    decreases events.len(),
{
    if events.len() == 0 {
        (r, Seq::empty())
    } else {
        let (before, answers) = events_handled(r, id, events.drop_last(), now);
        let (after, answer) = event_handled(before, id, events.last(), now);
        (
            after,
            match answer {
                Some(a) => answers.push(a),
                None => answers,
            },
        )
    }
}

/// The contents of a list of answers.
pub open spec fn answer_views(answers: Seq<Answer>) -> Seq<AnswerView> {
    answers.map_values(|a: Answer| a@)
}

/// What follows from a downlink packet.
#[verifier::ext_equal]
pub struct Reaction {
    pub desk: Desk,
    pub ui: UiView,
    /// What the dispatcher is to do.
    pub cmd: Option<CmdView>,
    /// What the user interface is told.
    pub answer: Option<AnswerView>,
}

/// The device is no longer bound, as far as the user interface is told.
pub open spec fn ui_unbound(ui: UiView) -> UiView {
    UiView { bind_state: 1, account: Seq::empty(), ..ui }
}

/// What a downlink packet leads to.
pub open spec fn downlinked(d: Desk, ui: UiView, id: Seq<char>, msg: DownlinkMsg, now: u64) -> Reaction {
    let heard = Desk { conn: d.conn.heard(now), ..d };
    let kind = msg.kind@;
    if kind == "login"@ {
        let bind = match msg.bind_state {
            Some(b) => b,
            None => 0,
        };
        let account = protocol::text_or_empty(msg.account);
        Reaction {
            desk: Desk {
                conn: heard.conn.login_replied(bind, now),
                mods: ModsView {
                    login_replied: true,
                    login_bind_state: bind,
                    login_account: account,
                    ..d.mods
                },
                force_publish: d.force_publish || bind == 0,
                ..d
            },
            ui: UiView { bind_state: bind, account, ..ui },
            cmd: None,
            answer: None,
        }
    } else if kind == "status_query"@ {
        Reaction { desk: Desk { force_publish: true, ..heard }, ui, cmd: None, answer: None }
    } else if kind == "gcode"@ {
        let cmd = protocol::text_or_empty(msg.gcode_cmd);
        Reaction {
            desk: Desk { mods: ModsView { pending_cmd_type: Some(cmd), ..d.mods }, ..heard },
            ui,
            cmd: Some(CmdView::Gcode { cmd_type: cmd, raw: cmd }),
            answer: None,
        }
    } else if kind == "download_begin"@ {
        let file_type = match msg.file_type {
            Some(t) => t,
            None => 0,
        };
        let name = protocol::text_or_empty(msg.file_name);
        if ui.downloading {
            Reaction {
                desk: heard.enqueued(
                    json::rendered(
                        protocol::download_doc(
                            id,
                            "download_begin"@,
                            name,
                            file_type,
                            "ERROR"@,
                            1,
                            now,
                        ),
                    ),
                ),
                ui,
                cmd: None,
                answer: None,
            }
        } else {
            Reaction {
                desk: Desk {
                    mods: ModsView { active_download: Some((file_type, name)), ..d.mods },
                    ..heard
                }.enqueued(
                    json::rendered(
                        protocol::download_doc(
                            id,
                            "download_begin"@,
                            name,
                            file_type,
                            "OK"@,
                            0,
                            now,
                        ),
                    ),
                ),
                ui: UiView { downloading: true, ..ui },
                cmd: Some(
                    CmdView::DownloadBegin {
                        file_type,
                        file_name: name,
                        url: protocol::opt_text(msg.url),
                        server_ip: protocol::opt_text(msg.server_ip),
                    },
                ),
                answer: None,
            }
        }
    } else if kind == "download_end"@ {
        Reaction {
            desk: Desk { mods: ModsView { active_download: None, ..d.mods }, ..heard },
            ui,
            cmd: None,
            answer: None,
        }
    } else if kind == "upgrade_query"@ {
        let ip = protocol::text_or_empty(msg.server_ip);
        let mcu = protocol::text_or_empty(msg.mcu_file);
        let esp = protocol::text_or_empty(msg.esp_file);
        Reaction {
            desk: Desk {
                mods: ModsView {
                    result_seq: d.mods.query_seq,
                    pending_reply: None,
                    ..d.mods
                },
                ..heard
            },
            ui: UiView {
                firmware_server_ip: ip,
                firmware_mcu_file: mcu,
                firmware_esp_file: esp,
                ..ui
            },
            cmd: None,
            answer: match d.mods.pending_reply {
                Some(ticket) => Some(
                    AnswerView { ticket, reply: ReplyView::Done(firmware_doc(ip, mcu, esp)) },
                ),
                None => None,
            },
        }
    } else if kind == "file_list"@ {
        Reaction { desk: heard, ui, cmd: Some(CmdView::ListFiles), answer: None }
    } else if kind == "server_unbind"@ {
        Reaction {
            desk: Desk {
                conn: ConnStateMachine { bound: false, ..heard.conn },
                mods: ModsView { unbind_pending: true, ..d.mods },
                ..d
            },
            ui: ui_unbound(ui),
            cmd: Some(CmdView::ServerUnbind),
            answer: None,
        }
    } else if kind == "device_unbind"@ {
        Reaction {
            desk: Desk {
                conn: ConnStateMachine { bound: false, ..heard.conn },
                mods: ModsView { unbind_pending: false, ..d.mods },
                ..d
            },
            ui: ui_unbound(ui),
            cmd: None,
            answer: None,
        }
    } else {
        Reaction { desk: heard, ui, cmd: None, answer: None }
    }
}

impl AppModule {
    /// Handles the events that have come since the last tick, in order.
    pub fn drain_events(
        &mut self,
        events: Vec<Event>,
        printer: &mut AppState,
        ui: &mut UiState,
        now: u64,
    ) -> (answers: Vec<Answer>)
        requires
            old(self).well_formed(),
            old(self).mods.upgrade.query_seq + events@.len() <= u64::MAX,
        ensures
            final(self).well_formed(),
            final(self).cfg == old(self).cfg,
            final(self).mods.upgrade.query_seq <= old(self).mods.upgrade.query_seq
                + events@.len(),
            ({
                let (r, a) = events_handled(
                    Room { desk: old(self)@, ui: old(ui)@, printer: old(printer)@ },
                    old(self).cfg.device.id@,
                    events@,
                    now,
                );
                &&& r == (Room { desk: final(self)@, ui: final(ui)@, printer: final(printer)@ })
                &&& answer_views(answers@) == a
            }),
    {
        let mut answers: Vec<Answer> = Vec::new();
        let ghost all = events@;
        let ghost id = self.cfg.device.id@;
        let ghost start = Room { desk: self@, ui: ui@, printer: printer@ };
        let ghost first_seq = self.mods.upgrade.query_seq as int;
        assert(all.take(0) =~= Seq::<Event>::empty());
        assert(answer_views(answers@) =~= Seq::<AnswerView>::empty());
        for ev in it: events
            invariant
                it.seq() == all,
                self.well_formed(),
                self.cfg == old(self).cfg,
                id == self.cfg.device.id@,
                self.mods.upgrade.query_seq <= first_seq + it.index(),
                first_seq + all.len() <= u64::MAX,
                events_handled(start, id, all.take(it.index()), now) == (
                    Room { desk: self@, ui: ui@, printer: printer@ },
                    answer_views(answers@),
                ),
        {
            let ghost k = it.index();
            let ghost before = answers@;
            proof {
                assert(all.take(k + 1).drop_last() =~= all.take(k));
                assert(all.take(k + 1).last() == ev);
            }
            if let Some(a) = self.handle_event(ev, printer, ui, now) {
                answers.push(a);
                assert(answer_views(answers@) =~= answer_views(before).push(a@));
            }
        }
        assert(all.take(all.len() as int) =~= all);
        answers
    }

    /// Handles a packet from the cloud: returns what the dispatcher is to do, and what the user
    /// interface is told.
    #[verifier::rlimit(80)]
    pub fn handle_downlink(&mut self, msg: &DownlinkMsg, ui: &mut UiState, now: u64) -> (r: (
        Option<DownlinkCmd>,
        Option<Answer>,
    ))
        requires
            old(self).well_formed(),
        ensures
            final(self).well_formed(),
            final(self).cfg == old(self).cfg,
            downlinked(old(self)@, old(ui)@, old(self).cfg.device.id@, *msg, now) == (Reaction {
                desk: final(self)@,
                ui: final(ui)@,
                cmd: opt_cmd(r.0),
                answer: opt_answer(r.1),
            }),
    {
        self.conn.on_downlink(now);
        let kind: &str = msg.kind.as_str();
        if text::same(kind, "login") {
            let bind: u8 = match msg.bind_state {
                Some(b) => b,
                None => 0,
            };
            self.conn.on_login_reply(bind, now);
            self.mods.login.reply_received = true;
            self.mods.login.bind_state = bind;
            self.mods.login.account = protocol::or_empty(&msg.account);
            ui.bind_state = bind;
            ui.account = protocol::or_empty(&msg.account);
            if bind == 0 {
                self.force_publish = true;
            }
            (None, None)
        } else if text::same(kind, "status_query") {
            self.force_publish = true;
            (None, None)
        } else if text::same(kind, "gcode") {
            let cmd_type: String = protocol::or_empty(&msg.gcode_cmd);
            let raw: String = protocol::or_empty(&msg.gcode_cmd);
            self.mods.gcode.pending_cmd_type = Some(protocol::or_empty(&msg.gcode_cmd));
            (Some(DownlinkCmd::Gcode { cmd_type, raw }), None)
        } else if text::same(kind, "download_begin") {
            (self.begin_download(msg, ui, now), None)
        } else if text::same(kind, "download_end") {
            self.mods.download.active = None;
            (None, None)
        } else if text::same(kind, "upgrade_query") {
            (None, self.firmware_known(msg, ui))
        } else if text::same(kind, "file_list") {
            (Some(DownlinkCmd::ListFiles), None)
        } else if text::same(kind, "server_unbind") {
            self.conn.bound = false;
            self.mods.unbind.pending = true;
            ui.bind_state = 1;
            ui.account = String::new();
            (Some(DownlinkCmd::ServerUnbind), None)
        } else if text::same(kind, "device_unbind") {
            self.conn.bound = false;
            self.mods.unbind.pending = false;
            ui.bind_state = 1;
            ui.account = String::new();
            (None, None)
        } else {
            (None, None)
        }
    }

    /// The cloud asks for a download: it is refused while another one runs.
    fn begin_download(&mut self, msg: &DownlinkMsg, ui: &mut UiState, now: u64) -> (cmd: Option<
        DownlinkCmd,
    >)
        requires
            old(self).well_formed(),
            msg.kind@ == "download_begin"@,
            old(self)@.conn == old(self)@.conn.heard(now),
        ensures
            final(self).well_formed(),
            final(self).cfg == old(self).cfg,
            downlinked(old(self)@, old(ui)@, old(self).cfg.device.id@, *msg, now) == (Reaction {
                desk: final(self)@,
                ui: final(ui)@,
                cmd: opt_cmd(cmd),
                answer: None,
            }),
    {
        proof {
            lemma_kinds_differ();
        }
        let file_type: u8 = match msg.file_type {
            Some(t) => t,
            None => 0,
        };
        let file_name: String = protocol::or_empty(&msg.file_name);
        if ui.downloading {
            let payload: Vec<u8> = UplinkMsg::download_report(
                self.cfg.device.id.as_str(),
                "download_begin",
                file_name.as_str(),
                file_type,
                "ERROR",
                1,
                now,
            );
            self.enqueue(payload);
            return None;
        }
        ui.downloading = true;
        self.mods.download.active = Some((file_type, protocol::or_empty(&msg.file_name)));
        let payload: Vec<u8> = UplinkMsg::download_report(
            self.cfg.device.id.as_str(),
            "download_begin",
            file_name.as_str(),
            file_type,
            "OK",
            0,
            now,
        );
        self.enqueue(payload);
        Some(
            DownlinkCmd::DownloadBegin {
                file_type,
                file_name,
                url: protocol::copy_text(&msg.url),
                server_ip: protocol::copy_text(&msg.server_ip),
            },
        )
    }

    /// The cloud has answered a firmware query.
    fn firmware_known(&mut self, msg: &DownlinkMsg, ui: &mut UiState) -> (answer: Option<Answer>)
        requires
            old(self).well_formed(),
        ensures
            final(self).well_formed(),
            final(self).cfg == old(self).cfg,
            final(self)@ == (Desk {
                mods: ModsView {
                    result_seq: old(self)@.mods.query_seq,
                    pending_reply: None,
                    ..old(self)@.mods
                },
                ..old(self)@
            }),
            final(ui)@ == (UiView {
                firmware_server_ip: protocol::text_or_empty(msg.server_ip),
                firmware_mcu_file: protocol::text_or_empty(msg.mcu_file),
                firmware_esp_file: protocol::text_or_empty(msg.esp_file),
                ..old(ui)@
            }),
            opt_answer(answer) == match old(self)@.mods.pending_reply {
                Some(ticket) => Some(
                    AnswerView {
                        ticket,
                        reply: ReplyView::Done(
                            firmware_doc(
                                protocol::text_or_empty(msg.server_ip),
                                protocol::text_or_empty(msg.mcu_file),
                                protocol::text_or_empty(msg.esp_file),
                            ),
                        ),
                    },
                ),
                None => None,
            },
    {
        let server_ip: String = protocol::or_empty(&msg.server_ip);
        let mcu: String = protocol::or_empty(&msg.mcu_file);
        let esp: String = protocol::or_empty(&msg.esp_file);
        let v: Value = firmware_value(server_ip.as_str(), mcu.as_str(), esp.as_str());
        ui.firmware_server_ip = server_ip;
        ui.firmware_mcu_file = mcu;
        ui.firmware_esp_file = esp;
        self.mods.upgrade.result_seq = self.mods.upgrade.query_seq;
        let waiting: Option<u64> = self.mods.upgrade.pending_reply;
        self.mods.upgrade.pending_reply = None;
        match waiting {
            Some(ticket) => Some(Answer { ticket, reply: UiReply::Done(v) }),
            None => None,
        }
    }
}

/// The kinds of downlink packets are different texts.
proof fn lemma_kinds_differ()
    ensures
        "download_begin"@ != "login"@,
        "download_begin"@ != "status_query"@,
        "download_begin"@ != "gcode"@,
{
    reveal_strlit("download_begin");
    reveal_strlit("login");
    reveal_strlit("status_query");
    reveal_strlit("gcode");
    assert("download_begin"@[0] != "login"@[0]);
    assert("download_begin"@[0] != "status_query"@[0]);
    assert("download_begin"@[0] != "gcode"@[0]);
}

/// What a tick has done so far: the module, and the packets to be published, in order.
#[verifier::ext_equal]
pub struct Tick {
    pub desk: Desk,
    pub out: Seq<Seq<u8>>,
}

/// The login packet of a device.
pub open spec fn login_packet(cfg: AppConfig, ip: Seq<char>, now: u64) -> Seq<u8> {
    json::rendered(protocol::login_doc(cfg.device, ip, now))
}

/// The four packets of a status report.
pub open spec fn status_packets(id: Seq<char>, s: AppStateView, now: u64) -> Seq<Seq<u8>> {
    seq![
        json::rendered(protocol::hardware_doc(id, s, now)),
        json::rendered(protocol::temp_fan_doc(id, s, now)),
        json::rendered(protocol::level_doc(id, s, now)),
        json::rendered(protocol::print_doc(id, s, now)),
    ]
}

/// A login that stays unanswered is repeated; after the last attempt the connection is given up.
pub open spec fn login_step(t: Tick, cfg: AppConfig, ip: Seq<char>, now: u64) -> Tick {
    if !t.desk.conn.login_timed_out(now) {
        t
    } else if t.desk.conn.login_attempts >= MAX_LOGIN_ATTEMPTS {
        Tick { desk: Desk { conn: t.desk.conn.failed(), ..t.desk }, ..t }
    } else {
        Tick {
            desk: Desk { conn: t.desk.conn.login_sent(now), ..t.desk },
            out: t.out.push(login_packet(cfg, ip, now)),
        }
    }
}

/// A device that is not bound repeats its login every few seconds, until it is.
pub open spec fn poll_step(t: Tick, cfg: AppConfig, ip: Seq<char>, now: u64) -> Tick {
    let c = t.desk.conn;
    if c.state == ConnState::Ready && !c.bound && state::elapsed(now, c.last_unbound_retry_ts)
        >= UNBOUND_RETRY_INTERVAL_SECS {
        Tick {
            desk: Desk {
                conn: ConnStateMachine { last_unbound_retry_ts: now, ..c },
                ..t.desk
            },
            out: t.out.push(login_packet(cfg, ip, now)),
        }
    } else {
        t
    }
}

/// Whether a bound device is to report now because the cloud has been silent.
pub open spec fn heartbeat_now(d: Desk, now: u64) -> bool {
    d.conn.bound && d.conn.heartbeat_wanted(now)
}

/// Whether a bound device is to report now because its time has come.
pub open spec fn report_now(d: Desk, s: AppStateView, now: u64) -> bool {
    &&& d.conn.state == ConnState::Ready
    &&& d.conn.bound
    &&& state::elapsed(now, d.conn.last_status_publish_ts) >= if s.busy() {
        STATUS_BUSY_INTERVAL_SECS
    } else {
        STATUS_IDLE_INTERVAL_SECS
    }
}

/// The state is reported.
pub open spec fn reported(t: Tick, id: Seq<char>, s: AppStateView, now: u64) -> Tick {
    Tick {
        desk: Desk {
            conn: ConnStateMachine { last_status_publish_ts: now, ..t.desk.conn },
            ..t.desk
        },
        out: t.out + status_packets(id, s, now),
    }
}

/// The payloads of a queue in the order in which they leave it.
pub open spec fn drained(queue: Seq<FifoView>) -> Seq<Seq<u8>>
    decreases queue.len(),
{
    if queue.len() == 0 {
        Seq::empty()
    } else {
        proof {
            state::law_most_urgent_leaves_first(queue);
        }
        let i = state::most_urgent(queue);
        seq![queue[i].payload] + drained(queue.remove(i))
    }
}

/// The queue is published by a device that is bound, or that asks to be unbound.
pub open spec fn queue_step(t: Tick) -> Tick {
    if t.desk.conn.bound || t.desk.force_unbind_publish {
        Tick {
            desk: Desk {
                queue: Seq::empty(),
                force_publish: false,
                force_unbind_publish: false,
                ..t.desk
            },
            out: t.out + drained(t.desk.queue),
        }
    } else {
        t
    }
}

/// What a tick does once its events have been handled.
pub open spec fn ticked(d: Desk, cfg: AppConfig, s: AppStateView, ip: Seq<char>, now: u64) -> Tick {
    let start = Tick { desk: d, out: Seq::empty() };
    let t = poll_step(login_step(start, cfg, ip, now), cfg, ip, now);
    let id = cfg.device.id@;
    if heartbeat_now(t.desk, now) {
        reported(t, id, s, now)
    } else if report_now(t.desk, s, now) {
        queue_step(reported(t, id, s, now))
    } else {
        queue_step(t)
    }
}

/// The contents of a list of packets.
pub open spec fn packet_views(packets: Seq<Vec<u8>>) -> Seq<Seq<u8>> {
    packets.map_values(|p: Vec<u8>| p@)
}

proof fn lemma_packet_pushed(packets: Seq<Vec<u8>>, p: Vec<u8>)
    ensures
        packet_views(packets.push(p)) == packet_views(packets).push(p@),
{
    assert(packet_views(packets.push(p)) =~= packet_views(packets).push(p@));
}

/// What a tick is to publish, what the user interface is told, and when the next tick is due.
pub struct TickResult {
    /// Packets for the up topic, in order.
    pub packets: Vec<Vec<u8>>,
    pub answers: Vec<Answer>,
    pub next: Interval,
}

impl AppModule {
    /// The command that `handle_downlink` returned could not be handed to the dispatcher: a
    /// download that was accepted is taken back.
    pub fn command_lost(&mut self, cmd: &DownlinkCmd, ui: &mut UiState, now: u64)
        requires
            old(self).well_formed(),
        ensures
            final(self).well_formed(),
            final(self).cfg == old(self).cfg,
            match cmd@ {
                CmdView::DownloadBegin { file_type, file_name, .. } => {
                    &&& final(self)@ == (Desk {
                        mods: ModsView { active_download: None, ..old(self)@.mods },
                        ..old(self)@
                    }).enqueued(
                        json::rendered(
                            protocol::download_doc(
                                old(self).cfg.device.id@,
                                "download_begin"@,
                                file_name,
                                file_type,
                                "ERROR"@,
                                1,
                                now,
                            ),
                        ),
                    )
                    &&& final(ui)@ == (UiView { downloading: false, ..old(ui)@ })
                },
                _ => final(self)@ == old(self)@ && final(ui)@ == old(ui)@,
            },
    {
        if let DownlinkCmd::DownloadBegin { file_type, file_name, .. } = cmd {
            ui.downloading = false;
            self.mods.download.active = None;
            let payload: Vec<u8> = UplinkMsg::download_report(
                self.cfg.device.id.as_str(),
                "download_begin",
                file_name.as_str(),
                *file_type,
                "ERROR",
                1,
                now,
            );
            self.enqueue(payload);
        }
    }

    /// The topic that the module subscribes to.
    pub fn register(&self) -> (topic: String)
        ensures
            topic@ == "GT/MXS/DOWN/"@ + self.cfg.device.id@,
    {
        self.cfg.down_topic()
    }

    /// The session is up: returns the login packet.
    pub fn on_start(&mut self, ui: &mut UiState, ip: &str, now: u64) -> (packet: Vec<u8>)
        ensures
            final(self)@ == (Desk {
                conn: old(self)@.conn.connected(now).login_sent(now),
                ..old(self)@
            }),
            final(self).cfg == old(self).cfg,
            old(self).well_formed() ==> final(self).well_formed(),
            final(ui)@ == (UiView { cloud_connected: true, ..old(ui)@ }),
            packet@ == login_packet(old(self).cfg, ip@, now),
    {
        self.conn.on_connect(now);
        ui.cloud_connected = true;
        let packet: Vec<u8> = UplinkMsg::login(&self.cfg.device, ip, now);
        self.conn.on_login_sent(now);
        packet
    }

    fn repeat_logins(&mut self, ip: &str, now: u64) -> (out: Vec<Vec<u8>>)
        requires
            old(self).well_formed(),
        ensures
            final(self).well_formed(),
            final(self).cfg == old(self).cfg,
            poll_step(
                login_step(
                    Tick { desk: old(self)@, out: Seq::empty() },
                    old(self).cfg,
                    ip@,
                    now,
                ),
                old(self).cfg,
                ip@,
                now,
            ) == (Tick { desk: final(self)@, out: packet_views(out@) }),
    {
        let mut out: Vec<Vec<u8>> = Vec::new();
        assert(packet_views(out@) =~= Seq::<Seq<u8>>::empty());
        if self.conn.login_reply_timeout(now) {
            if self.conn.login_attempts >= MAX_LOGIN_ATTEMPTS {
                self.conn.on_error();
            } else {
                let packet: Vec<u8> = UplinkMsg::login(&self.cfg.device, ip, now);
                proof {
                    lemma_packet_pushed(out@, packet);
                }
                out.push(packet);
                self.conn.on_login_sent(now);
            }
        }
        if self.conn.state == ConnState::Ready && !self.conn.bound && now.saturating_sub(
            self.conn.last_unbound_retry_ts,
        ) >= UNBOUND_RETRY_INTERVAL_SECS {
            let packet: Vec<u8> = UplinkMsg::login(&self.cfg.device, ip, now);
            proof {
                lemma_packet_pushed(out@, packet);
            }
            out.push(packet);
            self.conn.last_unbound_retry_ts = now;
        }
        out
    }

    /// Adds the packets of a status report.
    fn publish_status_packs(&mut self, printer: &AppState, now: u64, out: &mut Vec<Vec<u8>>)
        requires
            old(self).well_formed(),
        ensures
            final(self).well_formed(),
            final(self).cfg == old(self).cfg,
            reported(
                Tick { desk: old(self)@, out: packet_views(old(out)@) },
                old(self).cfg.device.id@,
                printer@,
                now,
            ) == (Tick { desk: final(self)@, out: packet_views(final(out)@) }),
    {
        let id: &str = self.cfg.device.id.as_str();
        let ghost before = out@;
        out.push(UplinkMsg::status_hardware(id, printer, now));
        out.push(UplinkMsg::status_temp_fan(id, printer, now));
        out.push(UplinkMsg::status_level(id, printer, now));
        out.push(UplinkMsg::status_print(id, printer, now));
        assert(packet_views(out@) =~= packet_views(before) + status_packets(
            self.cfg.device.id@,
            printer@,
            now,
        ));
        self.conn.last_status_publish_ts = now;
    }

    /// Adds the packets that wait, the most urgent ones first.
    fn publish_queue(&mut self, out: &mut Vec<Vec<u8>>)
        requires
            old(self).well_formed(),
        ensures
            final(self).well_formed(),
            final(self).cfg == old(self).cfg,
            queue_step(Tick { desk: old(self)@, out: packet_views(old(out)@) }) == (Tick {
                desk: final(self)@,
                out: packet_views(final(out)@),
            }),
    {
        if self.conn.bound || self.force_unbind_publish {
            let ghost all = packet_views(out@) + drained(self.fifo@);
            loop
                invariant
                    self.well_formed(),
                    self.cfg == old(self).cfg,
                    self@ == (Desk { queue: self.fifo@, ..old(self)@ }),
                    packet_views(out@) + drained(self.fifo@) == all,
                ensures
                    self.fifo@.len() == 0,
                decreases self.fifo@.len(),
            {
                let ghost queue = self.fifo@;
                let ghost before = out@;
                match self.fifo.pop() {
                    None => {
                        break;
                    },
                    Some(item) => {
                        proof {
                            let rest = drained(queue.remove(state::most_urgent(queue)));
                            lemma_packet_pushed(before, item.payload);
                            assert(packet_views(before) + (seq![item@.payload] + rest)
                                =~= packet_views(before).push(item@.payload) + rest);
                        }
                        out.push(item.payload);
                    },
                }
            }
            assert(packet_views(out@) + drained(self.fifo@) =~= packet_views(out@));
            assert(self.fifo@ =~= Seq::<FifoView>::empty());
            self.force_publish = false;
            self.force_unbind_publish = false;
        }
    }

    /// What is to be published now.
    pub fn publishes(&mut self, printer: &AppState, ip: &str, now: u64) -> (out: Vec<Vec<u8>>)
        requires
            old(self).well_formed(),
        ensures
            final(self).well_formed(),
            final(self).cfg == old(self).cfg,
            ticked(old(self)@, old(self).cfg, printer@, ip@, now) == (Tick {
                desk: final(self)@,
                out: packet_views(out@),
            }),
    {
        let mut out: Vec<Vec<u8>> = self.repeat_logins(ip, now);
        if self.conn.bound && self.conn.heartbeat_due(now) {
            self.publish_status_packs(printer, now, &mut out);
            return out;
        }
        if self.conn.state == ConnState::Ready && self.conn.bound {
            let interval: u64 = if printer.is_busy() {
                STATUS_BUSY_INTERVAL_SECS
            } else {
                STATUS_IDLE_INTERVAL_SECS
            };
            if now.saturating_sub(self.conn.last_status_publish_ts) >= interval {
                self.publish_status_packs(printer, now, &mut out);
            }
        }
        self.publish_queue(&mut out);
        out
    }

    /// One tick: handles the events, and returns what is to be published.
    pub fn on_tick(
        &mut self,
        events: Vec<Event>,
        printer: &mut AppState,
        ui: &mut UiState,
        ip: &str,
        now: u64,
    ) -> (r: TickResult)
        requires
            old(self).well_formed(),
            old(self).mods.upgrade.query_seq + events@.len() <= u64::MAX,
        ensures
            final(self).well_formed(),
            final(self).cfg == old(self).cfg,
            r.next == (Interval { millis: TICK_MILLIS }),
            ({
                let (room, answers) = events_handled(
                    Room { desk: old(self)@, ui: old(ui)@, printer: old(printer)@ },
                    old(self).cfg.device.id@,
                    events@,
                    now,
                );
                &&& final(ui)@ == room.ui
                &&& final(printer)@ == room.printer
                &&& answer_views(r.answers@) == answers
                &&& ticked(room.desk, old(self).cfg, room.printer, ip@, now) == (Tick {
                    desk: final(self)@,
                    out: packet_views(r.packets@),
                })
            }),
    {
        let answers: Vec<Answer> = self.drain_events(events, printer, ui, now);
        let packets: Vec<Vec<u8>> = self.publishes(printer, ip, now);
        TickResult { packets, answers, next: Interval { millis: TICK_MILLIS } }
    }

    /// Whether something waits to be published.
    pub fn needs_immediate_publish(&self) -> (b: bool)
        ensures
            b == (self@.force_publish || self@.queue.len() > 0),
    {
        self.force_publish || !self.fifo.is_empty()
    }
}

/// A device that is not bound, and does not ask to be unbound, publishes nothing but logins, and
/// keeps its queue.
pub proof fn law_unbound_device_only_logs_in(
    d: Desk,
    cfg: AppConfig,
    s: AppStateView,
    ip: Seq<char>,
    now: u64,
)
    requires
        !d.conn.bound,
        !d.force_unbind_publish,
    ensures
        ({
            let t = ticked(d, cfg, s, ip, now);
            &&& t.desk.queue == d.queue
            &&& forall|i: int|
                0 <= i < t.out.len() ==> #[trigger] t.out[i] == login_packet(cfg, ip, now)
        }),
{
}

/// A device that is not bound repeats its login as soon as five seconds have passed since it last
/// did, and publishes nothing before that.
pub proof fn law_unbound_device_polls(
    d: Desk,
    cfg: AppConfig,
    s: AppStateView,
    ip: Seq<char>,
    now: u64,
)
    requires
        d.conn.state == ConnState::Ready,
        !d.conn.bound,
        !d.force_unbind_publish,
    ensures
        ticked(d, cfg, s, ip, now).out == if state::elapsed(now, d.conn.last_unbound_retry_ts)
            >= UNBOUND_RETRY_INTERVAL_SECS {
            seq![login_packet(cfg, ip, now)]
        } else {
            Seq::empty()
        },
{
    assert(Seq::<Seq<u8>>::empty().push(login_packet(cfg, ip, now)) =~= seq![
        login_packet(cfg, ip, now),
    ]);
}

/// A tick of a bound device that is not a heartbeat leaves nothing in the queue.
pub proof fn law_bound_device_empties_its_queue(
    d: Desk,
    cfg: AppConfig,
    s: AppStateView,
    ip: Seq<char>,
    now: u64,
)
    requires
        d.conn.bound,
        d.conn.state == ConnState::Ready,
        !d.conn.heartbeat_wanted(now),
    ensures
        ticked(d, cfg, s, ip, now).desk.queue.len() == 0,
        !ticked(d, cfg, s, ip, now).desk.force_publish,
{
}

/// Every packet of a queue leaves it.
proof fn lemma_drained_whole(queue: Seq<FifoView>, j: int)
    requires
        0 <= j < queue.len(),
    ensures
        drained(queue).contains(queue[j].payload),
    decreases queue.len(),
{
    state::law_most_urgent_leaves_first(queue);
    let i = state::most_urgent(queue);
    let rest = queue.remove(i);
    assert(drained(queue) == seq![queue[i].payload] + drained(rest));
    if j == i {
        assert(drained(queue)[0] == queue[j].payload);
    } else {
        let k = if j < i {
            j
        } else {
            j - 1
        };
        assert(rest[k] == queue[j]);
        lemma_drained_whole(rest, k);
        let m = choose|m: int|
            0 <= m < drained(rest).len() && drained(rest)[m] == queue[j].payload;
        assert(drained(queue)[m + 1] == queue[j].payload);
    }
}

/// The request of the user interface to unbind the device is published with the next tick that is
/// not a heartbeat, be the device bound or not, unless the queue is full; nothing stays in the
/// queue, and the user interface sees the device unbound at once.
pub proof fn law_unbind_request_is_published(
    r: Room,
    cfg: AppConfig,
    ip: Seq<char>,
    now: u64,
    ev: Event,
)
    requires
        ev is UiUnbind,
        r.desk.queue.len() < UPLINK_FIFO_CAP,
        !(r.desk.conn.bound && r.desk.conn.heartbeat_wanted(now)),
    ensures
        ({
            let after = event_handled(r, cfg.device.id@, ev, now).0;
            let t = ticked(after.desk, cfg, after.printer, ip, now);
            &&& t.out.contains(
                json::rendered(protocol::bare_doc("device_unbind"@, cfg.device.id@, now)),
            )
            &&& t.desk.queue.len() == 0
            &&& after.ui.bind_state == 1
            &&& after.ui.account == Seq::<char>::empty()
        }),
{
    let after = event_handled(r, cfg.device.id@, ev, now).0;
    let queue = after.desk.queue;
    let packet = json::rendered(protocol::bare_doc("device_unbind"@, cfg.device.id@, now));
    let last = queue.len() - 1;
    assert(queue[last].payload == packet);
    lemma_drained_whole(queue, last);
    let t = ticked(after.desk, cfg, after.printer, ip, now);
    let m = choose|m: int| 0 <= m < drained(queue).len() && drained(queue)[m] == packet;
    assert(t.out[t.out.len() - drained(queue).len() + m] == packet);
}

/// Only one download runs at a time: while one does, a request of the cloud is refused with
/// error 1, nothing is sent to the dispatcher, and the running one stays as it is.
pub proof fn law_one_download_at_a_time(d: Desk, ui: UiView, id: Seq<char>, msg: DownlinkMsg, now: u64)
    requires
        msg.kind@ == "download_begin"@,
    ensures
        ({
            let r = downlinked(d, ui, id, msg, now);
            &&& r.ui.downloading
            &&& ui.downloading ==> r.cmd is None && r.desk.mods.active_download
                == d.mods.active_download
            &&& !ui.downloading ==> r.cmd is Some && r.desk.mods.active_download is Some
        }),
{
    lemma_kinds_differ();
}

/// The download that the cloud asked for is over when its end is reported: the next one is
/// accepted.
pub proof fn law_download_end_frees(r: Room, id: Seq<char>, ev: Event, now: u64)
    requires
        ev matches Event::DownloadFinished { from_ui, .. } && !from_ui,
    ensures
        !event_handled(r, id, ev, now).0.ui.downloading,
        event_handled(r, id, ev, now).0.desk.mods.active_download is None,
{
}

/// A firmware query of the user interface is not answered when it is taken from the events, and
/// is answered once, with the names of the cloud's next answer.
pub proof fn law_firmware_query_is_answered(
    r: Room,
    id: Seq<char>,
    ticket: u64,
    msg: DownlinkMsg,
    now: u64,
    query: Event,
)
    requires
        msg.kind@ == "upgrade_query"@,
        query == (Event::UpgradeQueryRequested { ticket: Some(ticket) }),
        r.desk.mods.query_seq < u64::MAX,
        r.desk.mods.result_seq <= r.desk.mods.query_seq,
    ensures
        ({
            let asked = event_handled(r, id, query, now);
            let told = downlinked(asked.0.desk, asked.0.ui, id, msg, now);
            &&& asked.1 is None
            &&& told.answer == Some(
                AnswerView {
                    ticket,
                    reply: ReplyView::Done(
                        firmware_doc(
                            protocol::text_or_empty(msg.server_ip),
                            protocol::text_or_empty(msg.mcu_file),
                            protocol::text_or_empty(msg.esp_file),
                        ),
                    ),
                },
            )
            &&& told.desk.mods.pending_reply is None
        }),
{
    lemma_upgrade_kind();
}

proof fn lemma_upgrade_kind()
    ensures
        "upgrade_query"@ != "login"@,
        "upgrade_query"@ != "status_query"@,
        "upgrade_query"@ != "gcode"@,
        "upgrade_query"@ != "download_begin"@,
        "upgrade_query"@ != "download_end"@,
{
    reveal_strlit("upgrade_query");
    reveal_strlit("login");
    reveal_strlit("status_query");
    reveal_strlit("gcode");
    reveal_strlit("download_begin");
    reveal_strlit("download_end");
    assert("upgrade_query"@[0] == 'u');
    assert("login"@[0] == 'l');
    assert("status_query"@[0] == 's');
    assert("gcode"@[0] == 'g');
    assert("download_begin"@[0] == 'd');
    assert("download_end"@[0] == 'd');
}

} // verus!
