//! What the cloud, the printer and the user interface bring about in a session.

use crate::app_state::AppStateView;
use crate::config::AppConfig;
use crate::downlink::{CmdView, ReplyView};
use crate::json;
use crate::json::Doc;
use crate::laws::reports;
use crate::laws::reports::says;
use crate::modules::{downlinked, event_handled, ticked, Desk, Room};
use crate::protocol;
use crate::protocol::DownlinkMsg;
use crate::state::{ConnState, ConnStateMachine, Event, UiView};
use vstd::prelude::*;

verus! {

/// One more packet waits at the end of the queue, and is to be published soon.
pub open spec fn waits(before: Desk, after: Desk, d: Doc) -> bool {
    &&& after.queue.len() == before.queue.len() + 1
    &&& after.queue.drop_last() == before.queue
    &&& after.queue.last().payload == json::rendered(d)
    &&& after.queue.last().priority == 0
    &&& after.force_publish
}

/// How the transfer of a file stands, and the error code that goes with it.
pub open spec fn transfer_says(d: Doc, state: Seq<char>, code: u64) -> bool {
    says(d, "transState"@, Doc::Text(state)) && says(d, "errCode"@, Doc::Unsigned(code))
}

proof fn lemma_ok_is_no_error()
    ensures
        "OK"@ != "ERROR"@,
{
    reveal_strlit("OK");
    reveal_strlit("ERROR");
    assert("OK"@.len() == 2);
    assert("ERROR"@.len() == 5);
}

proof fn lemma_waits(before: Desk, payload: Seq<u8>)
    requires
        before.queue.len() < 10,
    ensures
        before.enqueued(payload).queue == before.queue.push(
            crate::state::FifoView { priority: 0, payload },
        ),
        before.enqueued(payload).queue.drop_last() == before.queue,
{
    assert(before.enqueued(payload).queue.drop_last() =~= before.queue);
}

/// The end of a download is reported with the file's name and type: as OK with error code 0 exactly
/// where the download's code is 0, and as ERROR with a code other than 0 where it is any other. The
/// codes 1 and 2 go out as they are, higher ones as 1.
pub proof fn law_download_end_is_reported(r: Room, id: Seq<char>, ev: Event, now: u64) -> (d: Doc)
    requires
        ev is DownloadFinished,
        r.desk.queue.len() < 10,
    ensures
        waits(r.desk, event_handled(r, id, ev, now).0.desk, d),
        says(d, "type"@, Doc::Text("download_end"@)),
        says(d, "id"@, Doc::Text(id)),
        says(d, "fileName"@, Doc::Text(ev->DownloadFinished_file_name@)),
        says(d, "fileType"@, Doc::Unsigned(ev->DownloadFinished_file_type as u64)),
        says(d, "ts"@, Doc::Unsigned(now)),
        ev->err_code == 0 <==> transfer_says(d, "OK"@, 0),
        ev->err_code == 0 <==> says(d, "transState"@, Doc::Text("OK"@)),
        ev->err_code != 0 <==> says(d, "transState"@, Doc::Text("ERROR"@)),
        ev->err_code == 0 <==> says(d, "errCode"@, Doc::Unsigned(0)),
        ev->err_code == 1 || ev->err_code == 2 ==> says(
            d,
            "errCode"@,
            Doc::Unsigned(ev->err_code as u64),
        ),
        ev->err_code > 2 ==> says(d, "errCode"@, Doc::Unsigned(1)),
        event_handled(r, id, ev, now).1 is None,
        ev->from_ui ==> event_handled(r, id, ev, now).0.ui == r.ui,
        !ev->from_ui ==> event_handled(r, id, ev, now).0.ui == (UiView {
            downloading: false,
            ..r.ui
        }),
{
    lemma_ok_is_no_error();
    let e = ev->err_code;
    let code: u8 = if e <= 2 {
        e
    } else {
        1
    };
    let word = if e == 0 {
        "OK"@
    } else {
        "ERROR"@
    };
    let name = ev->DownloadFinished_file_name@;
    let kind = ev->DownloadFinished_file_type;
    reports::law_download_packet(id, "download_end"@, name, kind, word, code, now);
    let d = protocol::download_doc(id, "download_end"@, name, kind, word, code, now);
    lemma_waits(r.desk, json::rendered(d));
    d
}

/// The beginning of a download that the user interface asked for is reported as OK, with the file's
/// name and type.
pub proof fn law_download_start_is_reported(r: Room, id: Seq<char>, ev: Event, now: u64) -> (d: Doc)
    requires
        ev is DownloadStarted,
        r.desk.queue.len() < 10,
    ensures
        waits(r.desk, event_handled(r, id, ev, now).0.desk, d),
        says(d, "type"@, Doc::Text("download_begin"@)),
        says(d, "id"@, Doc::Text(id)),
        says(d, "fileName"@, Doc::Text(ev->DownloadStarted_file_name@)),
        says(d, "fileType"@, Doc::Unsigned(ev->DownloadStarted_file_type as u64)),
        transfer_says(d, "OK"@, 0),
        event_handled(r, id, ev, now).0.ui == r.ui,
        event_handled(r, id, ev, now).0.desk.mods == r.desk.mods,
{
    let name = ev->DownloadStarted_file_name@;
    let kind = ev->DownloadStarted_file_type;
    reports::law_download_packet(id, "download_begin"@, name, kind, "OK"@, 0, now);
    let d = protocol::download_doc(id, "download_begin"@, name, kind, "OK"@, 0, now);
    lemma_waits(r.desk, json::rendered(d));
    d
}

/// The result of a command is reported with the command as it came.
pub proof fn law_command_result_is_reported(r: Room, id: Seq<char>, ev: Event, now: u64) -> (d: Doc)
    requires
        ev is GcodeResult,
        r.desk.queue.len() < 10,
    ensures
        waits(r.desk, event_handled(r, id, ev, now).0.desk, d),
        says(d, "type"@, Doc::Text("gcode"@)),
        says(d, "id"@, Doc::Text(id)),
        says(d, "cmdType"@, Doc::Text(ev->cmd_type@)),
        says(d, "execResult"@, Doc::Text(ev->result@)),
        says(d, "ts"@, Doc::Unsigned(now)),
{
    reports::law_gcode_packet(id, ev->cmd_type@, ev->result@, now);
    let d = protocol::gcode_doc(id, ev->cmd_type@, ev->result@, now);
    lemma_waits(r.desk, json::rendered(d));
    d
}

/// An alarm is reported with its kind and its message.
pub proof fn law_alarm_is_reported(r: Room, id: Seq<char>, ev: Event, now: u64) -> (d: Doc)
    requires
        ev is Alarm,
        r.desk.queue.len() < 10,
    ensures
        waits(r.desk, event_handled(r, id, ev, now).0.desk, d),
        says(d, "type"@, Doc::Text("alarm"@)),
        says(d, "errType"@, Doc::Unsigned(ev->err_type as u64)),
        says(d, "errMsg"@, Doc::Text(ev->err_msg@)),
{
    reports::law_alarm_packet(id, ev->err_type, ev->err_msg@, now);
    let d = protocol::alarm_doc(id, ev->err_type, ev->err_msg@, now);
    lemma_waits(r.desk, json::rendered(d));
    d
}

/// A request of the user interface to unbind the device is sent to the cloud though the device is
/// not bound, and the user interface sees a device without an account at once.
pub proof fn law_unbind_is_reported(r: Room, id: Seq<char>, ev: Event, now: u64) -> (d: Doc)
    requires
        ev is UiUnbind,
        r.desk.queue.len() < 10,
    ensures
        waits(r.desk, event_handled(r, id, ev, now).0.desk, d),
        event_handled(r, id, ev, now).0.desk.force_unbind_publish,
        says(d, "type"@, Doc::Text("device_unbind"@)),
        says(d, "id"@, Doc::Text(id)),
        event_handled(r, id, ev, now).0.ui == (UiView {
            bind_state: 1,
            account: Seq::empty(),
            ..r.ui
        }),
{
    reports::law_bare_packet("device_unbind"@, id, now);
    let d = protocol::bare_doc("device_unbind"@, id, now);
    lemma_waits(r.desk, json::rendered(d));
    d
}

/// A query for firmware is sent to the cloud, and who asks for it waits for the answer, unless the
/// cloud has given it already.
pub proof fn law_firmware_is_asked_for(r: Room, id: Seq<char>, ev: Event, now: u64) -> (d: Doc)
    requires
        ev is UpgradeQueryRequested,
        r.desk.queue.len() < 10,
        r.desk.mods.query_seq < u64::MAX,
    ensures
        waits(r.desk, event_handled(r, id, ev, now).0.desk, d),
        says(d, "type"@, Doc::Text("upgrade_query"@)),
        says(d, "id"@, Doc::Text(id)),
        event_handled(r, id, ev, now).0.desk.mods.query_seq == r.desk.mods.query_seq + 1,
        ev->ticket is Some && r.desk.mods.result_seq != r.desk.mods.query_seq + 1 ==> event_handled(
            r,
            id,
            ev,
            now,
        ).0.desk.mods.pending_reply == ev->ticket && event_handled(r, id, ev, now).1 is None,
{
    reports::law_bare_packet("upgrade_query"@, id, now);
    let d = protocol::bare_doc("upgrade_query"@, id, now);
    lemma_waits(r.desk, json::rendered(d));
    assert(event_handled(r, id, ev, now).0.desk.queue.drop_last() =~= r.desk.queue);
    d
}

/// The connection of the printer's server is known to the user interface and to the status reports,
/// and a change of the printer's state asks for a report; none of these queues a packet.
pub proof fn law_printer_events(r: Room, id: Seq<char>, ev: Event, now: u64)
    ensures
        ev is MrConnected ==> event_handled(r, id, ev, now).0 == (Room {
            ui: UiView { moonraker_connected: true, ..r.ui },
            printer: AppStateView { moonraker_connected: true, ..r.printer },
            ..r
        }),
        ev is MrDisconnected ==> event_handled(r, id, ev, now).0 == (Room {
            ui: UiView { moonraker_connected: false, ..r.ui },
            printer: AppStateView { moonraker_connected: false, ..r.printer },
            ..r
        }),
        ev is StatusUpdated ==> event_handled(r, id, ev, now).0.desk.force_publish
            && event_handled(r, id, ev, now).0.desk.mods.status_dirty && event_handled(
            r,
            id,
            ev,
            now,
        ).0.desk.queue == r.desk.queue,
        ev is MrConnected || ev is MrDisconnected || ev is StatusUpdated ==> event_handled(
            r,
            id,
            ev,
            now,
        ).1 is None,
{
}

/// Up to ten files are sent in one packet, with their count and the number 0; more of them in
/// packets of ten.
pub proof fn law_files_are_listed(r: Room, id: Seq<char>, ev: Event, now: u64) -> (d: Doc)
    requires
        ev is FileListResult,
        ev->files@.len() <= 10,
        r.desk.queue.len() < 10,
    ensures
        waits(r.desk, event_handled(r, id, ev, now).0.desk, d),
        says(d, "type"@, Doc::Text("file_list"@)),
        says(d, "fileTotal"@, Doc::Unsigned(ev->files@.len() as u64)),
        says(d, "fileIndex"@, Doc::Unsigned(0)),
        (d matches Doc::Object(e) && {
            let list = json::lookup(e, "fileList"@);
            &&& list is Some
            &&& list->0 is List
            &&& list->0->List_0.len() == ev->files@.len()
            &&& forall|i: int|
                0 <= i < ev->files@.len() ==> says(
                    #[trigger] list->0->List_0[i],
                    "fileName"@,
                    Doc::Text(ev->files@[i].0@),
                ) && says(list->0->List_0[i], "fileSize"@, Doc::Unsigned(ev->files@[i].1))
        }),
{
    let views = protocol::file_views(ev->files@);
    let n = views.len();
    let d = protocol::file_list_doc(id, n as usize, 0, views, now);
    reports::law_file_list_packet(id, n as usize, 0, views, now);
    lemma_waits(r.desk, json::rendered(d));
    if n == 0 {
        assert(views =~= Seq::empty());
    } else {
        reveal_with_fuel(Desk::files_enqueued, 2);
        assert(views.take(n as int) =~= views);
        assert(views.skip(n as int) =~= Seq::empty());
    }
    d
}

/// A long list of files goes out in packets of ten: the first ten make the first packet, and the
/// rest follow in packets whose numbers go on, each with the count of all files.
pub proof fn law_long_lists_are_split(
    d: Desk,
    id: Seq<char>,
    total: usize,
    files: Seq<(Seq<char>, u64)>,
    index: nat,
    now: u64,
)
    requires
        files.len() > 10,
    ensures
        d.files_enqueued(id, total, files, index, now) == d.enqueued(
            json::rendered(
                protocol::file_list_doc(id, total, index as usize, files.subrange(0, 10), now),
            ),
        ).files_enqueued(id, total, files.subrange(10, files.len() as int), index + 1, now),
{
    assert(files.take(10) =~= files.subrange(0, 10));
    assert(files.skip(10) =~= files.subrange(10, files.len() as int));
}

proof fn lemma_kinds()
    ensures
        ({
            let kinds = seq![
                "login"@,
                "status_query"@,
                "gcode"@,
                "download_begin"@,
                "download_end"@,
                "upgrade_query"@,
                "file_list"@,
                "server_unbind"@,
                "device_unbind"@,
            ];
            forall|i: int, j: int|
                0 <= i < j < 9 ==> #[trigger] kinds[i] != #[trigger] kinds[j]
        }),
{
    reveal_strlit("login");
    reveal_strlit("status_query");
    reveal_strlit("gcode");
    reveal_strlit("download_begin");
    reveal_strlit("download_end");
    reveal_strlit("upgrade_query");
    reveal_strlit("file_list");
    reveal_strlit("server_unbind");
    reveal_strlit("device_unbind");
    assert("login"@.len() == 5 && "login"@[0] == 'l');
    assert("status_query"@.len() == 12 && "status_query"@[0] == 's');
    assert("gcode"@.len() == 5 && "gcode"@[0] == 'g');
    assert("download_begin"@.len() == 14);
    assert("download_end"@.len() == 12 && "download_end"@[0] == 'd');
    assert("upgrade_query"@.len() == 13 && "upgrade_query"@[0] == 'u');
    assert("file_list"@.len() == 9);
    assert("server_unbind"@.len() == 13 && "server_unbind"@[0] == 's');
    assert("device_unbind"@.len() == 13 && "device_unbind"@[0] == 'd');
    let kinds = seq![
        "login"@,
        "status_query"@,
        "gcode"@,
        "download_begin"@,
        "download_end"@,
        "upgrade_query"@,
        "file_list"@,
        "server_unbind"@,
        "device_unbind"@,
    ];
    assert(kinds[0] == "login"@ && kinds[1] == "status_query"@ && kinds[2] == "gcode"@);
    assert(kinds[3] == "download_begin"@ && kinds[4] == "download_end"@);
    assert(kinds[5] == "upgrade_query"@ && kinds[6] == "file_list"@);
    assert(kinds[7] == "server_unbind"@ && kinds[8] == "device_unbind"@);
}

proof fn lemma_kind(k: Seq<char>)
    ensures
        k == "status_query"@ ==> k != "login"@,
        k == "gcode"@ ==> k != "login"@ && k != "status_query"@,
        k == "download_begin"@ ==> k != "login"@ && k != "status_query"@ && k != "gcode"@,
        k == "download_end"@ ==> k != "login"@ && k != "status_query"@ && k != "gcode"@ && k
            != "download_begin"@,
        k == "upgrade_query"@ ==> k != "login"@ && k != "status_query"@ && k != "gcode"@ && k
            != "download_begin"@ && k != "download_end"@,
        k == "file_list"@ ==> k != "login"@ && k != "status_query"@ && k != "gcode"@ && k
            != "download_begin"@ && k != "download_end"@ && k != "upgrade_query"@,
        k == "server_unbind"@ ==> k != "login"@ && k != "status_query"@ && k != "gcode"@ && k
            != "download_begin"@ && k != "download_end"@ && k != "upgrade_query"@ && k
            != "file_list"@,
        k == "device_unbind"@ ==> k != "login"@ && k != "status_query"@ && k != "gcode"@ && k
            != "download_begin"@ && k != "download_end"@ && k != "upgrade_query"@ && k
            != "file_list"@ && k != "server_unbind"@,
{
    lemma_kinds();
    let kinds = seq![
        "login"@,
        "status_query"@,
        "gcode"@,
        "download_begin"@,
        "download_end"@,
        "upgrade_query"@,
        "file_list"@,
        "server_unbind"@,
        "device_unbind"@,
    ];
    assert(kinds[0] == "login"@ && kinds[1] == "status_query"@ && kinds[2] == "gcode"@);
    assert(kinds[3] == "download_begin"@ && kinds[4] == "download_end"@);
    assert(kinds[5] == "upgrade_query"@ && kinds[6] == "file_list"@);
    assert(kinds[7] == "server_unbind"@ && kinds[8] == "device_unbind"@);
}

/// A text that a packet of the cloud may have.
pub open spec fn text_of(o: Option<String>) -> Seq<char> {
    if o is Some {
        o->0@
    } else {
        Seq::empty()
    }
}

/// Every packet of the cloud is a sign of life; the answer to a login settles it, whatever it says,
/// and the device is bound where it says 0, or nothing.
pub proof fn law_login_answer(d: Desk, ui: UiView, id: Seq<char>, msg: DownlinkMsg, now: u64)
    ensures
        downlinked(d, ui, id, msg, now).desk.conn.last_downlink_ts == now,
        msg.kind@ == "login"@ ==> {
            let r = downlinked(d, ui, id, msg, now);
            let state = if msg.bind_state is Some {
                msg.bind_state->0
            } else {
                0
            };
            &&& r.desk.conn.state == ConnState::Ready
            &&& r.desk.conn.login_attempts == 0
            &&& r.desk.conn.login_sent_at_ts is None
            &&& r.desk.conn.bound <==> state == 0
            &&& r.desk.conn.bind_state == state
            &&& r.desk.conn.last_unbound_retry_ts == now
            &&& r.ui == (UiView { bind_state: state, account: text_of(msg.account), ..ui })
            &&& r.desk.mods.login_replied
            &&& r.desk.mods.login_account == text_of(msg.account)
            &&& r.desk.force_publish <==> d.force_publish || state == 0
            &&& r.desk.queue == d.queue
            &&& r.cmd is None
            &&& r.answer is None
        },
        msg.kind@ == "status_query"@ ==> {
            let r = downlinked(d, ui, id, msg, now);
            r.desk.force_publish && r.desk.queue == d.queue && r.ui == ui && r.cmd is None
        },
{
    lemma_kind(msg.kind@);
}

/// A command of the cloud goes to the dispatcher as it came, and its result will name it; a request
/// for the files goes there too. Neither queues a packet.
pub proof fn law_commands_go_on(d: Desk, ui: UiView, id: Seq<char>, msg: DownlinkMsg, now: u64)
    ensures
        msg.kind@ == "gcode"@ ==> downlinked(d, ui, id, msg, now).cmd == Some(
            CmdView::Gcode { cmd_type: text_of(msg.gcode_cmd), raw: text_of(msg.gcode_cmd) },
        ),
        msg.kind@ == "file_list"@ ==> downlinked(d, ui, id, msg, now).cmd == Some(
            CmdView::ListFiles,
        ),
        msg.kind@ == "gcode"@ || msg.kind@ == "file_list"@ ==> downlinked(
            d,
            ui,
            id,
            msg,
            now,
        ).desk.queue == d.queue && downlinked(d, ui, id, msg, now).ui == ui && downlinked(
            d,
            ui,
            id,
            msg,
            now,
        ).desk.conn.bound == d.conn.bound,
{
    lemma_kind(msg.kind@);
}

/// A download that the cloud asks for is acknowledged as OK and goes to the dispatcher with its
/// address where none is running; else it is refused as ERROR, with code 1, and nothing is done.
pub proof fn law_download_is_acknowledged(
    d: Desk,
    ui: UiView,
    id: Seq<char>,
    msg: DownlinkMsg,
    now: u64,
) -> (doc: Doc)
    requires
        msg.kind@ == "download_begin"@,
        d.queue.len() < 10,
    ensures
        waits(d, downlinked(d, ui, id, msg, now).desk, doc),
        says(doc, "type"@, Doc::Text("download_begin"@)),
        says(doc, "id"@, Doc::Text(id)),
        says(doc, "fileName"@, Doc::Text(text_of(msg.file_name))),
        says(
            doc,
            "fileType"@,
            Doc::Unsigned(
                if msg.file_type is Some {
                    msg.file_type->0 as u64
                } else {
                    0
                },
            ),
        ),
        !ui.downloading <==> transfer_says(doc, "OK"@, 0),
        ui.downloading <==> transfer_says(doc, "ERROR"@, 1),
        downlinked(d, ui, id, msg, now).ui.downloading,
        ui.downloading ==> downlinked(d, ui, id, msg, now).cmd is None,
        !ui.downloading ==> (downlinked(d, ui, id, msg, now).cmd matches Some(
            CmdView::DownloadBegin { file_type, file_name, url, server_ip },
        ) && {
            &&& file_type == if msg.file_type is Some {
                msg.file_type->0
            } else {
                0
            }
            &&& file_name == text_of(msg.file_name)
            &&& msg.url is Some ==> url == Some(msg.url->0@)
            &&& msg.url is None ==> url is None
            &&& msg.server_ip is Some ==> server_ip == Some(msg.server_ip->0@)
            &&& msg.server_ip is None ==> server_ip is None
        }),
{
    lemma_kind(msg.kind@);
    lemma_ok_is_no_error();
    let name = text_of(msg.file_name);
    let kind = if msg.file_type is Some {
        msg.file_type->0
    } else {
        0
    };
    let (word, code) = if ui.downloading {
        ("ERROR"@, 1u8)
    } else {
        ("OK"@, 0u8)
    };
    assert(protocol::text_or_empty(msg.file_name) == name);
    reports::law_download_packet(id, "download_begin"@, name, kind, word, code, now);
    let doc = protocol::download_doc(id, "download_begin"@, name, kind, word, code, now);
    lemma_waits(d, json::rendered(doc));
    assert(downlinked(d, ui, id, msg, now).desk.queue == d.enqueued(json::rendered(doc)).queue);
    doc
}

/// A device that the cloud unbinds, or that it has unbound on request, is not bound any more, and
/// the user interface sees it without an account; what the cloud does by itself is answered.
pub proof fn law_unbound_by_the_cloud(d: Desk, ui: UiView, id: Seq<char>, msg: DownlinkMsg, now: u64)
    requires
        msg.kind@ == "server_unbind"@ || msg.kind@ == "device_unbind"@,
    ensures
        ({
            let r = downlinked(d, ui, id, msg, now);
            &&& !r.desk.conn.bound
            &&& r.ui == (UiView { bind_state: 1, account: Seq::empty(), ..ui })
            &&& r.desk.queue == d.queue
            &&& msg.kind@ == "server_unbind"@ ==> r.cmd == Some(CmdView::ServerUnbind)
                && r.desk.mods.unbind_pending
            &&& msg.kind@ == "device_unbind"@ ==> r.cmd is None && !r.desk.mods.unbind_pending
        }),
{
    lemma_kind(msg.kind@);
    reveal_strlit("server_unbind");
    reveal_strlit("device_unbind");
    assert("server_unbind"@[0] == 's');
    assert("device_unbind"@[0] == 'd');
}

/// The cloud's answer to a query for firmware is kept, and given to who waits for it: the server,
/// and the two files, of which the name NA stands for none.
pub proof fn law_firmware_is_told(
    d: Desk,
    ui: UiView,
    id: Seq<char>,
    msg: DownlinkMsg,
    now: u64,
) -> (doc: Doc)
    requires
        msg.kind@ == "upgrade_query"@,
    ensures
        says(doc, "server_ip"@, Doc::Text(text_of(msg.server_ip))),
        text_of(msg.mcu_file) != "NA"@ ==> says(doc, "mcu_file"@, Doc::Text(text_of(msg.mcu_file))),
        text_of(msg.esp_file) != "NA"@ ==> says(doc, "esp_file"@, Doc::Text(text_of(msg.esp_file))),
        text_of(msg.mcu_file) == "NA"@ ==> says(doc, "mcu_file"@, Doc::Text(Seq::empty())),
        text_of(msg.esp_file) == "NA"@ ==> says(doc, "esp_file"@, Doc::Text(Seq::empty())),
        d.mods.pending_reply is Some ==> (downlinked(d, ui, id, msg, now).answer matches Some(a)
            && a.ticket == d.mods.pending_reply->0 && a.reply == ReplyView::Done(doc)),
        d.mods.pending_reply is None ==> downlinked(d, ui, id, msg, now).answer is None,
        downlinked(d, ui, id, msg, now).desk.mods.pending_reply is None,
        downlinked(d, ui, id, msg, now).ui == (UiView {
            firmware_server_ip: text_of(msg.server_ip),
            firmware_mcu_file: text_of(msg.mcu_file),
            firmware_esp_file: text_of(msg.esp_file),
            ..ui
        }),
{
    lemma_kind(msg.kind@);
    let ip = text_of(msg.server_ip);
    let mcu = text_of(msg.mcu_file);
    let esp = text_of(msg.esp_file);
    let f = crate::modules::firmware_fields(ip, mcu, esp);
    reveal_strlit("server_ip");
    reveal_strlit("mcu_file");
    reveal_strlit("esp_file");
    assert("server_ip"@.len() == 9);
    assert("mcu_file"@.len() == 8 && "mcu_file"@[0] == 'm');
    assert("esp_file"@.len() == 8 && "esp_file"@[0] == 'e');
    reports::lemma_field_found(f, 0);
    reports::lemma_field_found(f, 1);
    reports::lemma_field_found(f, 2);
    crate::modules::firmware_doc(ip, mcu, esp)
}

/// How long it is since `then`, by the clock; nothing where the clock went back.
pub open spec fn since(now: u64, then: u64) -> int {
    if now < then {
        0
    } else {
        now - then
    }
}

/// A login is sent again where its answer is more than fifteen seconds late, three times in all;
/// after that the connection is given up. Nothing else is sent while the answer is awaited.
pub proof fn law_login_is_repeated(
    d: Desk,
    cfg: AppConfig,
    s: AppStateView,
    ip: Seq<char>,
    now: u64,
    sent: u64,
) -> (doc: Doc)
    requires
        d.conn.state == ConnState::AwaitLoginReply,
        d.conn.login_sent_at_ts == Some(sent),
        !d.conn.bound,
        !d.force_unbind_publish,
    ensures
        says(doc, "type"@, Doc::Text("login"@)),
        says(doc, "id"@, Doc::Text(cfg.device.id@)),
        says(doc, "ip"@, Doc::Text(ip)),
        since(now, sent) <= 15 ==> ticked(d, cfg, s, ip, now).out.len() == 0 && ticked(
            d,
            cfg,
            s,
            ip,
            now,
        ).desk == d,
        since(now, sent) > 15 && d.conn.login_attempts < 3 ==> {
            let t = ticked(d, cfg, s, ip, now);
            &&& t.out == seq![json::rendered(doc)]
            &&& t.desk.conn == (ConnStateMachine {
                login_attempts: (d.conn.login_attempts + 1) as u8,
                login_sent_at_ts: Some(now),
                ..d.conn
            })
        },
        since(now, sent) > 15 && d.conn.login_attempts >= 3 ==> {
            let t = ticked(d, cfg, s, ip, now);
            t.out.len() == 0 && t.desk.conn.state == ConnState::Reconnecting
        },
{
    reports::law_login_packet(cfg.device, ip, now);
    let doc = protocol::login_doc(cfg.device, ip, now);
    assert(Seq::<Seq<u8>>::empty().push(json::rendered(doc)) =~= seq![json::rendered(doc)]);
    doc
}

/// A device that is ready but not bound logs in every five seconds.
pub proof fn law_unbound_device_logs_in(
    d: Desk,
    cfg: AppConfig,
    s: AppStateView,
    ip: Seq<char>,
    now: u64,
)
    requires
        d.conn.state == ConnState::Ready,
        !d.conn.bound,
        !d.force_unbind_publish,
    ensures
        ticked(d, cfg, s, ip, now).out == if since(now, d.conn.last_unbound_retry_ts) >= 5 {
            seq![json::rendered(protocol::login_doc(cfg.device, ip, now))]
        } else {
            Seq::empty()
        },
        since(now, d.conn.last_unbound_retry_ts) >= 5 ==> ticked(
            d,
            cfg,
            s,
            ip,
            now,
        ).desk.conn.last_unbound_retry_ts == now,
{
    crate::modules::law_unbound_device_polls(d, cfg, s, ip, now);
}

/// A bound device reports its state when it last did so ten seconds ago, if the printer is busy, or
/// five minutes ago, if not; the four packets of a report go out in order, and before what waits in
/// the queue. Where neither the cloud nor the device has been heard for three minutes the report is
/// a heartbeat, and the queue waits for the next tick.
#[verifier::rlimit(40)]
pub proof fn law_state_is_reported(
    d: Desk,
    cfg: AppConfig,
    s: AppStateView,
    ip: Seq<char>,
    now: u64,
) -> (p: (Doc, Doc, Doc, Doc))
    requires
        d.conn.state == ConnState::Ready,
        d.conn.bound,
    ensures
        says(p.0, "type"@, Doc::Text("status_hardware"@)),
        says(p.1, "type"@, Doc::Text("status_temp_fan"@)),
        says(p.2, "type"@, Doc::Text("status_level"@)),
        says(p.3, "type"@, Doc::Text("status_print"@)),
        says(p.0, "id"@, Doc::Text(cfg.device.id@)),
        says(p.1, "id"@, Doc::Text(cfg.device.id@)),
        says(p.2, "id"@, Doc::Text(cfg.device.id@)),
        says(p.3, "id"@, Doc::Text(cfg.device.id@)),
        says(p.1, "bedTargetTemp"@, reports::whole_number(s.bed_target.whole as int)),
        says(p.3, "printState"@, Doc::Unsigned(s.print_state as u64)),
        ({
            let t = ticked(d, cfg, s, ip, now);
            let quiet = since(now, d.conn.last_downlink_ts) >= 180 && since(
                now,
                d.conn.last_status_publish_ts,
            ) >= 180;
            let due = since(now, d.conn.last_status_publish_ts) >= if s.busy() {
                10int
            } else {
                300
            };
            let four = seq![
                json::rendered(p.0),
                json::rendered(p.1),
                json::rendered(p.2),
                json::rendered(p.3),
            ];
            &&& quiet ==> t.out == four && t.desk.queue == d.queue
            &&& !quiet && due ==> t.out.len() >= 4 && t.out.take(4) == four
            &&& quiet || due ==> t.desk.conn.last_status_publish_ts == now
            &&& !quiet && !due ==> t.desk.conn.last_status_publish_ts
                == d.conn.last_status_publish_ts
            &&& !quiet ==> t.desk.queue.len() == 0 && !t.desk.force_publish
            &&& !quiet && due ==> t.out == four + crate::modules::drained(d.queue)
            &&& !quiet && !due ==> t.out == crate::modules::drained(d.queue)
            &&& !quiet && !due && d.queue.len() == 0 ==> t.out.len() == 0
            &&& !quiet && !due && d.queue.len() == 1 ==> t.out == seq![d.queue[0].payload]
        }),
{
    let id = cfg.device.id@;
    reports::law_hardware_packet(id, s, now);
    reports::law_temp_fan_packet(id, s, now);
    reports::law_level_packet(id, s, now);
    reports::law_print_packet(id, s, now);
    let p = (
        protocol::hardware_doc(id, s, now),
        protocol::temp_fan_doc(id, s, now),
        protocol::level_doc(id, s, now),
        protocol::print_doc(id, s, now),
    );
    let four = seq![
        json::rendered(p.0),
        json::rendered(p.1),
        json::rendered(p.2),
        json::rendered(p.3),
    ];
    let t = ticked(d, cfg, s, ip, now);
    assert(Seq::<Seq<u8>>::empty() + four =~= four);
    let rest = crate::modules::drained(d.queue);
    assert((four + rest).take(4) =~= four);
    assert(Seq::<Seq<u8>>::empty() + rest =~= rest);
    if d.queue.len() == 1 {
        reveal_with_fuel(crate::modules::drained, 2);
        assert(d.queue.remove(0) =~= Seq::empty());
        assert(rest =~= seq![d.queue[0].payload]);
    }
    p
}

/// When a session opens, the login is awaited from the first attempt on, and the device counts as
/// not bound until it is answered.
pub proof fn law_session_opens_with_a_login(c: ConnStateMachine, now: u64)
    ensures
        c.connected(now).login_sent(now) == (ConnStateMachine {
            state: ConnState::AwaitLoginReply,
            login_attempts: 1,
            login_sent_at_ts: Some(now),
            last_downlink_ts: now,
            bound: false,
            ..c
        }),
{
}

/// Events are handled in the order in which they came.
pub proof fn law_events_in_order(r: Room, id: Seq<char>, a: Event, b: Event, now: u64)
    ensures
        crate::modules::events_handled(r, id, Seq::empty(), now).0 == r,
        crate::modules::events_handled(r, id, seq![a], now).0 == event_handled(r, id, a, now).0,
        crate::modules::events_handled(r, id, seq![a, b], now).0 == event_handled(
            event_handled(r, id, a, now).0,
            id,
            b,
            now,
        ).0,
{
    assert(seq![a].drop_last() =~= Seq::<Event>::empty());
    assert(seq![a, b].drop_last() =~= seq![a]);
    assert(crate::modules::events_handled(r, id, seq![a].drop_last(), now).0 == r);
    assert(seq![a, b].last() == b);
    let first = crate::modules::events_handled(r, id, seq![a], now).0;
    assert(crate::modules::events_handled(r, id, seq![a, b].drop_last(), now).0 == first);
    assert(crate::modules::events_handled(r, id, seq![a, b], now).0 == event_handled(
        first,
        id,
        b,
        now,
    ).0);
}

/// Packets of the same urgency leave the queue in the order in which they came into it.
pub proof fn law_queue_leaves_in_order(queue: Seq<crate::state::FifoView>, p: u8)
    requires
        forall|i: int| 0 <= i < queue.len() ==> (#[trigger] queue[i]).priority == p,
    ensures
        crate::modules::drained(queue) == Seq::new(queue.len(), |i: int| queue[i].payload),
    decreases queue.len(),
{
    if queue.len() == 0 {
        assert(crate::modules::drained(queue) =~= Seq::new(queue.len(), |i: int| queue[i].payload));
    } else {
        crate::state::law_most_urgent_leaves_first(queue);
        let k = crate::state::most_urgent(queue);
        if k > 0 {
            assert(queue[0].priority == p && queue[k].priority == p);
        }
        let rest = queue.remove(0);
        assert forall|i: int| 0 <= i < rest.len() implies (#[trigger] rest[i]).priority == p by {
            assert(rest[i] == queue[i + 1]);
        }
        law_queue_leaves_in_order(rest, p);
        assert(crate::modules::drained(queue) =~= Seq::new(queue.len(), |i: int| queue[i].payload));
    }
}

/// A client that has not connected yet is neither bound nor waits for anything.
pub proof fn law_fresh_session(c: ConnStateMachine)
    requires
        c == ConnStateMachine::initial(),
    ensures
        c.state == ConnState::Disconnected,
        !c.bound,
        c.login_attempts == 0,
        c.login_sent_at_ts is None,
{
}

/// A query for firmware that the cloud has answered before it was taken from the events is answered
/// at once, with what the cloud said.
pub proof fn law_early_firmware_answer(r: Room, id: Seq<char>, ev: Event, now: u64)
    requires
        ev is UpgradeQueryRequested,
        ev->ticket is Some,
        r.desk.mods.query_seq < u64::MAX,
        r.desk.mods.result_seq == r.desk.mods.query_seq + 1,
    ensures
        event_handled(r, id, ev, now).1 matches Some(a) && a.ticket == ev->ticket->0 && (
        a.reply matches ReplyView::Done(d) && says(
            d,
            "server_ip"@,
            Doc::Text(r.ui.firmware_server_ip),
        )),
        event_handled(r, id, ev, now).0.desk.mods.pending_reply is None,
{
    let f = crate::modules::firmware_fields(
        r.ui.firmware_server_ip,
        r.ui.firmware_mcu_file,
        r.ui.firmware_esp_file,
    );
    reveal_strlit("server_ip");
    reveal_strlit("mcu_file");
    reveal_strlit("esp_file");
    assert("server_ip"@.len() == 9 && "mcu_file"@.len() == 8 && "esp_file"@.len() == 8);
    reports::lemma_field_found(f, 0);
}

/// Logging in has failed where three attempts were made, or where the answer is more than fifteen
/// seconds late.
pub proof fn law_failed_login(c: &ConnStateMachine, now: u64, b: bool)
    requires
        call_ensures(ConnStateMachine::should_reconnect, (c, now), b),
    ensures
        b <==> c.login_attempts >= 3 || (c.state == ConnState::AwaitLoginReply
            && c.login_sent_at_ts is Some && since(now, c.login_sent_at_ts->0) > 15),
{
}

/// What the user interface and the reports know before anything has happened: nothing.
pub proof fn law_nothing_known(u: crate::state::UiState, s: crate::app_state::AppState)
    requires
        call_ensures(crate::state::UiState::default, (), u),
        call_ensures(crate::app_state::AppState::default, (), s),
    ensures
        !u@.cloud_connected && !u@.moonraker_connected && !u@.bound && !u@.downloading,
        u@.bind_state == 0 && u@.account.len() == 0,
        !s@.moonraker_connected && s@.print_state == 0 && s@.print_progress == 0,
        s@.nozzle_actual.whole == 0 && s@.nozzle_target.whole == 0 && s@.bed_actual.whole == 0
            && s@.bed_target.whole == 0,
        s@.current_file.len() == 0,
        !s@.busy(),
{
}

/// However many events there are, each is handled in the room that those before it have left, and
/// each answer stands behind those before it.
pub proof fn law_each_event_in_turn(r: Room, id: Seq<char>, events: Seq<Event>, ev: Event, now: u64)
    ensures
        ({
            let (room, answers) = crate::modules::events_handled(r, id, events, now);
            let (after, answer) = event_handled(room, id, ev, now);
            let (last, all) = crate::modules::events_handled(r, id, events.push(ev), now);
            &&& last == after
            &&& answer is None ==> all == answers
            &&& answer is Some ==> all == answers.push(answer->0)
        }),
        crate::modules::events_handled(r, id, Seq::empty(), now).1.len() == 0,
{
    assert(events.push(ev).drop_last() =~= events);
}

/// The cloud's word that it knows of the end of a download ends it for the module; a packet of a kind
/// that is not known does nothing but show that the cloud is there.
pub proof fn law_other_packets(d: Desk, ui: UiView, id: Seq<char>, msg: DownlinkMsg, now: u64)
    ensures
        msg.kind@ == "download_end"@ ==> ({
            let r = downlinked(d, ui, id, msg, now);
            &&& r.desk.mods.active_download is None
            &&& r.desk.queue == d.queue
            &&& r.ui == ui
            &&& r.cmd is None
        }),
        msg.kind@ != "login"@ && msg.kind@ != "status_query"@ && msg.kind@ != "gcode"@ && msg.kind@
            != "download_begin"@ && msg.kind@ != "download_end"@ && msg.kind@ != "upgrade_query"@
            && msg.kind@ != "file_list"@ && msg.kind@ != "server_unbind"@ && msg.kind@
            != "device_unbind"@ ==> ({
            let r = downlinked(d, ui, id, msg, now);
            &&& r.desk == (Desk {
                conn: ConnStateMachine { last_downlink_ts: now, ..d.conn },
                ..d
            })
            &&& r.ui == ui
            &&& r.cmd is None
            &&& r.answer is None
        }),
{
    lemma_kind(msg.kind@);
}

} // verus!
