//! How the client talks to the printer's server.

use crate::app_state::{AppState, AppStateView};
use crate::json;
use crate::json::Doc;
use crate::laws::reports;
use crate::laws::reports::says;
use crate::moonraker;
use crate::moonraker::state_bridge::{applied, Reading};
use crate::moonraker::{
    is_due, notified, request_doc, response_taken, turn_event, turned, LinkAction, MoonrakerWorker,
    Phase, Round, RpcResponse, Taken,
};
use crate::state::Event;
use serde_json::Value;
use vstd::prelude::*;
use vstd::utf8;

verus! {

/// A request has its number, the version 2.0, the method and its parameters.
pub proof fn law_request(id: u64, method: Seq<char>, params: Doc, s: Seq<char>) -> (d: Doc)
    requires
        moonraker::is_request(s, id, method, params),
    ensures
        utf8::encode_utf8(s) == json::rendered(d),
        says(d, "id"@, Doc::Unsigned(id)),
        says(d, "jsonrpc"@, Doc::Text("2.0"@)),
        says(d, "method"@, Doc::Text(method)),
        says(d, "params"@, params),
{
    let f = seq![
        ("id"@, Doc::Unsigned(id)),
        ("jsonrpc"@, Doc::Text("2.0"@)),
        ("method"@, Doc::Text(method)),
        ("params"@, params),
    ];
    reveal_strlit("id");
    reveal_strlit("jsonrpc");
    reveal_strlit("method");
    reveal_strlit("params");
    assert("id"@.len() == 2 && "jsonrpc"@.len() == 7 && "method"@.len() == 6 && "params"@.len()
        == 6);
    assert("method"@[0] == 'm' && "params"@[0] == 'p');
    reports::lemma_field_found(f, 0);
    reports::lemma_field_found(f, 1);
    reports::lemma_field_found(f, 2);
    reports::lemma_field_found(f, 3);
    request_doc(id, "2.0"@, method, params)
}

/// The objects that the client watches are those that a status update is read for.
pub proof fn law_watched_objects(i: int)
    ensures
        ({
            let names = moonraker::watched_objects();
            &&& names.contains("extruder"@)
            &&& names.contains("heater_bed"@)
            &&& names.contains("fan"@)
            &&& names.contains("heater_fan"@)
            &&& names.contains("print_stats"@)
            &&& names.contains("virtual_sdcard"@)
            &&& names.contains("gcode_move"@)
            &&& names.contains("output_pin"@)
            &&& names.contains("led"@)
            &&& names.contains("runout_sensor"@)
            &&& names.contains("bed_mesh"@)
            &&& moonraker::watch_doc() matches Doc::Object(e) && (json::lookup(e, "objects"@)
                matches Some(Doc::List(l)) && l.len() == names.len() && (0 <= i < names.len()
                ==> l[i] == Doc::Text(names[i])))
        }),
{
    let names = moonraker::watched_objects();
    assert(names[0] == "extruder"@ && names[1] == "heater_bed"@ && names[2] == "fan"@ && names[3]
        == "heater_fan"@);
    assert(names[4] == "print_stats"@ && names[5] == "gcode_move"@ && names[6]
        == "virtual_sdcard"@ && names[7] == "output_pin"@);
    assert(names[8] == "led"@ && names[9] == "runout_sensor"@ && names[10] == "bed_mesh"@);
    reports::lemma_field_found(seq![("objects"@, moonraker::text_docs(names))], 0);
}

/// A new connection begins with a subscription and a query of the watched objects; a heartbeat asks
/// for the server's state; a connection that cannot be had is tried again after three seconds; the
/// worker rests two tenths of a second after each round.
pub proof fn law_actions(before: Phase, after: Phase, a: LinkAction)
    requires
        is_due(before, after, a),
    ensures
        after is Watching ==> (a matches LinkAction::Watch { subscribe, query }
            && moonraker::is_request(
            subscribe@,
            0,
            "printer.objects.subscribe"@,
            moonraker::watch_doc(),
        ) && moonraker::is_request(query@, 0, "printer.objects.query"@, moonraker::watch_doc())),
        after is Beating ==> (a matches LinkAction::Beat(s) && moonraker::is_request(
            s@,
            0,
            "server.info"@,
            Doc::Object(Seq::empty()),
        )),
        after is Connecting ==> a is Connect,
        after is Sending ==> a is SendQueued,
        after is Reading ==> a is Read,
        after is Resting && before is Connecting ==> a == LinkAction::Wait(3000),
        after is Resting && !(before is Connecting) ==> a == LinkAction::Wait(200),
{
}

/// The course of the worker: an open connection sends, reads and rests, and beats every fiftieth
/// time; one that is not open is opened. A failure while reading or beating closes it.
pub proof fn law_course(r: Round, ok: bool)
    ensures
        r.phase is Resting && r.connected ==> turned(r, ok) == (Round {
            phase: Phase::Sending,
            ..r
        }),
        r.phase is Resting && !r.connected ==> turned(r, ok) == (Round {
            phase: Phase::Connecting,
            ..r
        }),
        r.phase is Connecting && ok ==> turned(r, ok) == (Round {
            phase: Phase::Watching,
            connected: true,
            ..r
        }),
        r.phase is Connecting && !ok ==> turned(r, ok) == (Round { phase: Phase::Resting, ..r }),
        r.phase is Watching ==> turned(r, ok) == (Round { phase: Phase::Sending, ..r }),
        r.phase is Sending ==> turned(r, ok) == (Round { phase: Phase::Reading, ..r }),
        r.phase is Reading && r.rounds < 49 ==> turned(r, ok) == (Round {
            phase: Phase::Resting,
            connected: r.connected && ok,
            rounds: r.rounds + 1,
        }),
        r.phase is Reading && r.rounds == 49 ==> turned(r, ok) == (Round {
            phase: Phase::Beating,
            connected: r.connected && ok,
            rounds: 0,
        }),
        r.phase is Beating ==> turned(r, ok) == (Round {
            phase: Phase::Resting,
            connected: r.connected && ok,
            ..r
        }),
        turn_event(r.phase, ok) is Some <==> (r.phase is Connecting && ok) || (!ok && (
        r.phase is Reading || r.phase is Beating)),
        r.phase is Connecting && ok ==> turn_event(r.phase, ok) == Some(Event::MrConnected),
        !ok && (r.phase is Reading || r.phase is Beating) ==> turn_event(r.phase, ok) == Some(
            Event::MrDisconnected,
        ),
{
}

/// A turn of the worker does all of that, and keeps the state's connection in step with what it
/// reports.
pub proof fn law_turn<T>(
    w: &mut MoonrakerWorker<T>,
    ok: bool,
    state: &mut AppState,
    r: (LinkAction, Option<Event>),
)
    requires
        old(w).well_formed(),
        call_ensures(MoonrakerWorker::<T>::turn, (w, ok, state), r),
    ensures
        final(w).round() == turned(old(w).round(), ok),
        is_due(old(w).round().phase, final(w).round().phase, r.0),
        r.1 == turn_event(old(w).round().phase, ok),
        r.1 == Some(Event::MrConnected) ==> final(state)@ == (AppStateView {
            moonraker_connected: true,
            ..old(state)@
        }),
        r.1 == Some(Event::MrDisconnected) ==> final(state)@ == (AppStateView {
            moonraker_connected: false,
            ..old(state)@
        }),
        r.1 is None ==> final(state)@ == old(state)@,
{
}

/// A response with a result is a success, and one without tells the server's error, or that there
/// was no result, to the request with its number.
pub proof fn law_response<T>(waiting: Map<u64, T>, response: RpcResponse, r: Taken<T>)
    requires
        response_taken(waiting, Some(response), r),
    ensures
        response.id is None ==> r is NoResponse,
        response.id is Some && !waiting.dom().contains(response.id->0) ==> r is Ignored,
        response.id is Some && waiting.dom().contains(response.id->0) ==> (r matches Taken::Answer {
            waiting: who,
            result,
        } && {
            &&& who == waiting[response.id->0]
            &&& response.result is Some ==> result == Ok::<Value, String>(response.result->0)
            &&& response.result is None ==> result is Err
            &&& response.result is None && response.error is None ==> result->Err_0@ == "no result"@
            &&& response.result is None && response.error is Some ==> utf8::encode_utf8(
                result->Err_0@,
            ) == json::rendered(json::document(response.error->0))
        }),
{
}

/// A status update is applied to the printer's state and asks for a report; the printer's firmware
/// coming and going is a connection that comes and goes; other notifications do nothing.
pub proof fn law_notification(
    method: Seq<char>,
    params: Value,
    items: Seq<Doc>,
    e: Seq<(Seq<char>, Doc)>,
    s: AppStateView,
    t: Seq<Reading>,
)
    requires
        json::document(params) == Doc::List(items),
        items.len() > 0,
        items[0] == Doc::Object(e),
    ensures
        method == "notify_status_update"@ ==> notified(method, Some(params), s, t) == (
            applied(s, e, t),
            Some(Event::StatusUpdated),
        ),
        method == "notify_klippy_ready"@ ==> notified(method, Some(params), s, t) == (
            AppStateView { moonraker_connected: true, ..s },
            Some(Event::MrConnected),
        ),
        method == "notify_klippy_disconnected"@ ==> notified(method, Some(params), s, t) == (
            AppStateView { moonraker_connected: false, ..s },
            Some(Event::MrDisconnected),
        ),
        method != "notify_status_update"@ && method != "notify_klippy_ready"@ && method
            != "notify_klippy_disconnected"@ ==> notified(method, Some(params), s, t) == (
            s,
            None::<Event>,
        ),
{
    reveal_strlit("notify_status_update");
    reveal_strlit("notify_klippy_ready");
    reveal_strlit("notify_klippy_disconnected");
    assert("notify_status_update"@.len() == 20);
    assert("notify_klippy_ready"@.len() == 19);
    assert("notify_klippy_disconnected"@.len() == 26);
}

/// The numbers of a status update, and of no other notification, are to be read first.
pub proof fn law_numbers_to_read(n: &moonraker::RpcNotification, list: Vec<u64>)
    requires
        call_ensures(moonraker::update_numbers, (n,), list),
    ensures
        n.method@ != "notify_status_update"@ ==> list@.len() == 0,
        n.method@ == "notify_status_update"@ && moonraker::update_of(n.params) is Some ==> list@
            == moonraker::state_bridge::numbers_in(moonraker::update_of(n.params)->0),
{
}

/// A frame that answers nobody and has no number is a notification, and handled as one.
pub proof fn law_frames<T>(
    w: &mut MoonrakerWorker<T>,
    n: moonraker::RpcNotification,
    state: &mut AppState,
    readings: &[Reading],
    r: (Taken<T>, Option<Event>),
)
    requires
        old(w).well_formed(),
        call_ensures(
            MoonrakerWorker::<T>::handle_frame,
            (w, None::<RpcResponse>, Some(n), state, readings),
            r,
        ),
    ensures
        (final(state)@, r.1) == notified(n.method@, n.params, old(state)@, readings@),
        final(w).waiting() == old(w).waiting(),
{
}

/// A request that could not be sent is given back, and one that was sent waits under its number.
pub proof fn law_sent_requests<T>(
    w: &mut MoonrakerWorker<T>,
    id: u64,
    waiting: T,
    sent: bool,
    back: Option<T>,
)
    requires
        old(w).well_formed(),
        call_ensures(MoonrakerWorker::<T>::send_request, (w, id, waiting, sent), back),
    ensures
        sent ==> back is None && final(w).waiting() == old(w).waiting().insert(id, waiting),
        !sent ==> back == Some(waiting) && final(w).waiting() == old(w).waiting(),
{
}

} // verus!
