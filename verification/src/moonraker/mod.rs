//! The connection to the printer's server: requests, responses and notifications.

pub mod state_bridge;

use crate::app_state::{AppState, AppStateView};
use crate::json;
use crate::json::{Doc, Fields};
use crate::moonraker::state_bridge::Reading;
use crate::state::Event;
use crate::text;
use serde_json::{Map as JsonMap, Value};
use std::collections::HashMap;
use vstd::prelude::*;
use vstd::utf8;

verus! {

/// How many rounds of the worker lie between two heartbeats.
pub const BEAT_ROUNDS: u32 = 50;

/// How long the worker rests between two rounds, in milliseconds.
pub const ROUND_MILLIS: u64 = 200;

/// How long the worker waits before it tries to connect again, in seconds.
pub const RECONNECT_SECS: u64 = 3;

/// A request to the printer's server.
#[derive(Debug)]
pub struct RpcRequest {
    pub id: u64,
    pub jsonrpc: &'static str,
    pub method: String,
    pub params: Value,
}

/// A response of the printer's server.
#[derive(Debug)]
pub struct RpcResponse {
    pub id: Option<u64>,
    pub result: Option<Value>,
    pub error: Option<Value>,
}

/// Something that the printer's server tells unasked.
#[derive(Debug)]
pub struct RpcNotification {
    pub method: String,
    pub params: Option<Value>,
}

/// The document of a request.
pub open spec fn request_doc(id: u64, version: Seq<char>, method: Seq<char>, params: Doc) -> Doc {
    json::object_of(
        seq![
            ("id"@, Doc::Unsigned(id)),
            ("jsonrpc"@, Doc::Text(version)),
            ("method"@, Doc::Text(method)),
            ("params"@, params),
        ],
    )
}

impl RpcRequest {
    /// A request.
    pub fn new(id: u64, method: &str, params: Value) -> (r: Self)
        ensures
            r.id == id,
            r.jsonrpc@ == "2.0"@,
            r.method@ == method@,
            r.params == params,
    {
        RpcRequest { id, jsonrpc: "2.0", method: method.to_owned(), params }
    }

    /// The request as it is sent.
    pub fn to_text(self) -> (s: String)
        ensures
            utf8::encode_utf8(s@) == json::rendered(
                request_doc(self.id, self.jsonrpc@, self.method@, json::document(self.params)),
            ),
    {
        let ghost id = self.id;
        let ghost version = self.jsonrpc@;
        let ghost method = self.method@;
        let ghost params = json::document(self.params);
        let mut f: Fields = Fields::new();
        f.unsigned("id", self.id);
        f.text("jsonrpc", self.jsonrpc);
        f.text("method", self.method.as_str());
        f.value("params", self.params);
        assert(f@ =~= seq![
            ("id"@, Doc::Unsigned(id)),
            ("jsonrpc"@, Doc::Text(version)),
            ("method"@, Doc::Text(method)),
            ("params"@, params),
        ]);
        json::to_text(&f.finish())
    }
}

/// The objects of the printer that the client watches.
pub open spec fn watched_objects() -> Seq<Seq<char>> {
    seq![
        "extruder"@,
        "heater_bed"@,
        "fan"@,
        "heater_fan"@,
        "print_stats"@,
        "gcode_move"@,
        "virtual_sdcard"@,
        "output_pin"@,
        "led"@,
        "runout_sensor"@,
        "bed_mesh"@,
        "configfile"@,
    ]
}

/// The objects of the printer that the client watches.
pub const SUBSCRIBE_OBJECTS: [&'static str; 12] = [
    "extruder",
    "heater_bed",
    "fan",
    "heater_fan",
    "print_stats",
    "gcode_move",
    "virtual_sdcard",
    "output_pin",
    "led",
    "runout_sensor",
    "bed_mesh",
    "configfile",
];

/// The texts of a list, as a document.
pub open spec fn text_docs(items: Seq<Seq<char>>) -> Doc {
    Doc::List(items.map_values(|s: Seq<char>| Doc::Text(s)))
}

/// The request that `s` is the text of.
pub open spec fn is_request(s: Seq<char>, id: u64, method: Seq<char>, params: Doc) -> bool {
    utf8::encode_utf8(s) == json::rendered(request_doc(id, "2.0"@, method, params))
}

/// The parameters that name the watched objects.
pub open spec fn watch_doc() -> Doc {
    json::object_of(seq![("objects"@, text_docs(watched_objects()))])
}

fn watch_params() -> (v: Value)
    ensures
        json::document(v) == watch_doc(),
{
    let names: [&'static str; 12] = SUBSCRIBE_OBJECTS;
    let mut items: Vec<Value> = Vec::new();
    let ghost views = text::text_views(names@);
    assert(views =~= watched_objects());
    let mut i: usize = 0;
    while i < 12
        invariant
            i <= 12,
            items@.len() == i,
            views == text::text_views(names@),
            views.len() == 12,
            forall|k: int| 0 <= k < i ==> json::document(items@[k]) == Doc::Text(views[k]),
        decreases 12 - i,
    {
        items.push(json::text_value(names[i]));
        i += 1;
    }
    assert(json::documents(items@) =~= views.map_values(|s: Seq<char>| Doc::Text(s)));
    let mut f: Fields = Fields::new();
    f.value("objects", json::list_value(items));
    assert(f@ =~= seq![("objects"@, text_docs(watched_objects()))]);
    f.finish()
}

/// What a frame that carries a response leads to. `T` is where the answer of a request goes.
pub enum Taken<T> {
    /// The frame answers the request of `waiting`.
    Answer { waiting: T, result: Result<Value, String> },
    /// Nobody waits for the response.
    Ignored,
    /// The frame is no response.
    NoResponse,
}

/// What the worker is at.
#[derive(Debug, Clone, Copy, PartialEq, Eq, Structural)]
pub enum Phase {
    Resting,
    Connecting,
    Watching,
    Sending,
    Reading,
    Beating,
}

/// What has to be done next on the connection.
#[derive(Debug)]
pub enum LinkAction {
    /// Open the connection. It fails where none can be had.
    Connect,
    /// Send the two requests that a new connection begins with. Whether that fails is no matter.
    Watch { subscribe: String, query: String },
    /// Send all the requests that have come in. Each that fails is told so.
    SendQueued,
    /// Read one frame, if there is one, and handle it. It fails where the connection is broken.
    Read,
    /// Send a heartbeat. It fails where the connection is broken.
    Beat(String),
    /// Do nothing for so many milliseconds.
    Wait(u64),
}

/// The worker that talks to the printer's server: the requests that wait for an answer, how long
/// it is to the next heartbeat, and where it is in its round.
pub struct MoonrakerWorker<T> {
    pending: HashMap<u64, T>,
    beat_counter: u32,
    connected: bool,
    phase: Phase,
}

/// Where a worker is in its round.
pub struct Round {
    pub phase: Phase,
    pub connected: bool,
    pub rounds: int,
}

/// Where the worker is after what it was at has ended, well or not.
pub open spec fn turned(r: Round, ok: bool) -> Round {
    match r.phase {
        Phase::Resting => Round {
            phase: if r.connected {
                Phase::Sending
            } else {
                Phase::Connecting
            },
            ..r
        },
        Phase::Connecting => if ok {
            Round { phase: Phase::Watching, connected: true, ..r }
        } else {
            Round { phase: Phase::Resting, ..r }
        },
        Phase::Watching => Round { phase: Phase::Sending, ..r },
        Phase::Sending => Round { phase: Phase::Reading, ..r },
        Phase::Reading => if r.rounds + 1 >= BEAT_ROUNDS {
            Round { phase: Phase::Beating, connected: r.connected && ok, rounds: 0 }
        } else {
            Round { phase: Phase::Resting, connected: r.connected && ok, rounds: r.rounds + 1 }
        },
        Phase::Beating => Round { phase: Phase::Resting, connected: r.connected && ok, ..r },
    }
}

/// Whether `a` is what has to be done in the phase that comes after `before` has ended.
pub open spec fn is_due(before: Phase, after: Phase, a: LinkAction) -> bool {
    match after {
        Phase::Resting => a == LinkAction::Wait(
            if before == Phase::Connecting {
                (RECONNECT_SECS * 1000) as u64
            } else {
                ROUND_MILLIS
            },
        ),
        Phase::Connecting => a is Connect,
        Phase::Watching => a matches LinkAction::Watch { subscribe, query } && is_request(
            subscribe@,
            0,
            "printer.objects.subscribe"@,
            watch_doc(),
        ) && is_request(query@, 0, "printer.objects.query"@, watch_doc()),
        Phase::Sending => a is SendQueued,
        Phase::Reading => a is Read,
        Phase::Beating => a matches LinkAction::Beat(s) && is_request(
            s@,
            0,
            "server.info"@,
            json::object_of(Seq::empty()),
        ),
    }
}

/// What the end of a phase is reported as, if it is: a connection that is there, or one that broke.
pub open spec fn turn_event(phase: Phase, ok: bool) -> Option<Event> {
    match phase {
        Phase::Connecting => if ok {
            Some(Event::MrConnected)
        } else {
            None
        },
        Phase::Reading | Phase::Beating => if ok {
            None
        } else {
            Some(Event::MrDisconnected)
        },
        _ => None,
    }
}

/// The state of the printer after that.
pub open spec fn turn_state(s: AppStateView, phase: Phase, ok: bool) -> AppStateView {
    match turn_event(phase, ok) {
        Some(Event::MrConnected) => AppStateView { moonraker_connected: true, ..s },
        Some(_) => AppStateView { moonraker_connected: false, ..s },
        None => s,
    }
}

impl<T> MoonrakerWorker<T> {
    /// The requests that wait for an answer, by their numbers.
    pub closed spec fn waiting(&self) -> Map<u64, T> {
        self.pending@
    }

    /// Where the worker is in its round.
    pub closed spec fn round(&self) -> Round {
        Round {
            phase: self.phase,
            connected: self.connected,
            rounds: self.beat_counter as int,
        }
    }

    /// How many rounds have passed since the last heartbeat.
    pub open spec fn rounds(&self) -> int {
        self.round().rounds
    }

    /// A heartbeat comes before the rounds run over.
    pub closed spec fn well_formed(&self) -> bool {
        self.beat_counter < BEAT_ROUNDS
    }

    /// A worker that is about to connect.
    pub fn new() -> (w: Self)
        ensures
            w.well_formed(),
            w.waiting() == Map::<u64, T>::empty(),
            w.round() == (Round { phase: Phase::Resting, connected: false, rounds: 0 }),
    {
        MoonrakerWorker {
            pending: HashMap::new(),
            beat_counter: 0,
            connected: false,
            phase: Phase::Resting,
        }
    }

    /// What the worker was at has ended, well or not: what has to be done next, and what is
    /// reported.
    pub fn turn(&mut self, ok: bool, state: &mut AppState) -> (r: (LinkAction, Option<Event>))
        requires
            old(self).well_formed(),
        ensures
            final(self).well_formed(),
            final(self).waiting() == old(self).waiting(),
            final(self).round() == turned(old(self).round(), ok),
            is_due(old(self).round().phase, final(self).round().phase, r.0),
            r.1 == turn_event(old(self).round().phase, ok),
            final(state)@ == turn_state(old(state)@, old(self).round().phase, ok),
    {
        match self.phase {
            Phase::Resting => {
                if self.connected {
                    self.phase = Phase::Sending;
                    (LinkAction::SendQueued, None)
                } else {
                    self.phase = Phase::Connecting;
                    (LinkAction::Connect, None)
                }
            },
            Phase::Connecting => {
                if ok {
                    self.phase = Phase::Watching;
                    self.connected = true;
                    let (subscribe, query, event) = Self::after_connect(state);
                    (LinkAction::Watch { subscribe, query }, Some(event))
                } else {
                    self.phase = Phase::Resting;
                    (LinkAction::Wait(RECONNECT_SECS * 1000), None)
                }
            },
            Phase::Watching => {
                self.phase = Phase::Sending;
                (LinkAction::SendQueued, None)
            },
            Phase::Sending => {
                self.phase = Phase::Reading;
                (LinkAction::Read, None)
            },
            Phase::Reading => {
                let mut event: Option<Event> = None;
                if !ok {
                    self.connected = false;
                    event = Some(Self::lost(state));
                }
                match self.beat() {
                    Some(text) => {
                        self.phase = Phase::Beating;
                        (LinkAction::Beat(text), event)
                    },
                    None => {
                        self.phase = Phase::Resting;
                        (LinkAction::Wait(ROUND_MILLIS), event)
                    },
                }
            },
            Phase::Beating => {
                self.phase = Phase::Resting;
                if ok {
                    (LinkAction::Wait(ROUND_MILLIS), None)
                } else {
                    self.connected = false;
                    (LinkAction::Wait(ROUND_MILLIS), Some(Self::lost(state)))
                }
            },
        }
    }

    /// What has to be sent on a new connection: the watched objects are subscribed to and
    /// queried. The answers go to nobody.
    pub fn after_connect(state: &mut AppState) -> (r: (String, String, Event))
        ensures
            is_request(r.0@, 0, "printer.objects.subscribe"@, watch_doc()),
            is_request(r.1@, 0, "printer.objects.query"@, watch_doc()),
            r.2 is MrConnected,
            final(state)@ == (AppStateView { moonraker_connected: true, ..old(state)@ }),
    {
        state.moonraker_connected = true;
        (
            RpcRequest::new(0, "printer.objects.subscribe", watch_params()).to_text(),
            RpcRequest::new(0, "printer.objects.query", watch_params()).to_text(),
            Event::MrConnected,
        )
    }

    /// The connection is gone.
    pub fn lost(state: &mut AppState) -> (e: Event)
        ensures
            e is MrDisconnected,
            final(state)@ == (AppStateView { moonraker_connected: false, ..old(state)@ }),
    {
        state.moonraker_connected = false;
        Event::MrDisconnected
    }

    /// A request has been sent, and waits for its answer; or it has not, and `waiting` comes back
    /// to be told so.
    pub fn send_request(&mut self, id: u64, waiting: T, sent: bool) -> (back: Option<T>)
        requires
            old(self).well_formed(),
        ensures
            final(self).well_formed(),
            final(self).round() == old(self).round(),
            sent ==> back is None && final(self).waiting() == old(self).waiting().insert(
                id,
                waiting,
            ),
            !sent ==> back == Some(waiting) && final(self).waiting() == old(self).waiting(),
    {
        broadcast use vstd::std_specs::hash::group_hash_axioms;

        if sent {
            self.pending.insert(id, waiting);
            None
        } else {
            Some(waiting)
        }
    }

    /// A frame has come that may be a response: the request that it answers waits no longer.
    pub fn take_response(&mut self, response: Option<RpcResponse>) -> (r: Taken<T>)
        requires
            old(self).well_formed(),
        ensures
            final(self).well_formed(),
            final(self).round() == old(self).round(),
            response_taken(old(self).waiting(), response, r),
            final(self).waiting() == left_waiting(old(self).waiting(), response),
    {
        broadcast use vstd::std_specs::hash::group_hash_axioms;

        match response {
            Some(resp) => match resp.id {
                Some(id) => match self.pending.remove(&id) {
                    Some(waiting) => {
                        let result: Result<Value, String> = match resp.result {
                            Some(v) => Ok(v),
                            None => Err(error_text(&resp.error)),
                        };
                        Taken::Answer { waiting, result }
                    },
                    None => {
                        assert(self.waiting() =~= old(self).waiting().remove(id));
                        Taken::Ignored
                    },
                },
                None => Taken::NoResponse,
            },
            None => Taken::NoResponse,
        }
    }

    /// One round has passed: every so many rounds a heartbeat is sent.
    pub fn beat(&mut self) -> (r: Option<String>)
        requires
            old(self).well_formed(),
        ensures
            final(self).well_formed(),
            final(self).waiting() == old(self).waiting(),
            final(self).round() == (Round {
                rounds: final(self).rounds(),
                ..old(self).round()
            }),
            match r {
                Some(s) => {
                    &&& old(self).rounds() + 1 == BEAT_ROUNDS
                    &&& final(self).rounds() == 0
                    &&& is_request(s@, 0, "server.info"@, json::object_of(Seq::empty()))
                },
                None => {
                    &&& old(self).rounds() + 1 < BEAT_ROUNDS
                    &&& final(self).rounds() == old(self).rounds() + 1
                },
            },
    {
        self.beat_counter = self.beat_counter + 1;
        if self.beat_counter >= BEAT_ROUNDS {
            self.beat_counter = 0;
            let f: Fields = Fields::new();
            Some(RpcRequest::new(0, "server.info", f.finish()).to_text())
        } else {
            None
        }
    }
}

/// What a failed request is told: the server's error, or that there is no result.
pub open spec fn is_error_text(error: Option<Value>, s: Seq<char>) -> bool {
    match error {
        Some(e) => utf8::encode_utf8(s) == json::rendered(json::document(e)),
        None => s == "no result"@,
    }
}

fn error_text(error: &Option<Value>) -> (s: String)
    ensures
        is_error_text(*error, s@),
{
    match error {
        Some(e) => json::to_text(e),
        None => "no result".to_owned(),
    }
}

/// Who waits on when a response has come.
pub open spec fn left_waiting<T>(waiting: Map<u64, T>, response: Option<RpcResponse>) -> Map<
    u64,
    T,
> {
    match response {
        Some(RpcResponse { id: Some(id), .. }) => waiting.remove(id),
        _ => waiting,
    }
}

/// Whether a response leads to `r`, with these requests waiting.
pub open spec fn response_taken<T>(
    waiting: Map<u64, T>,
    response: Option<RpcResponse>,
    r: Taken<T>,
) -> bool {
    match response {
        Some(RpcResponse { id: Some(id), result, error }) => if waiting.dom().contains(id) {
            r matches Taken::Answer { waiting: w, result: told } && w == waiting[id] && match result {
                Some(v) => told == Ok::<Value, String>(v),
                None => told is Err && is_error_text(error, told->Err_0@),
            }
        } else {
            r is Ignored
        },
        _ => r is NoResponse,
    }
}

/// The objects of a status update: the first parameter, where it is an object.
pub open spec fn update_of(params: Option<Value>) -> Option<Seq<(Seq<char>, Doc)>> {
    match params {
        Some(p) => match json::document(p) {
            Doc::List(items) if items.len() > 0 => match items[0] {
                Doc::Object(e) => Some(e),
                _ => None,
            },
            _ => None,
        },
        None => None,
    }
}

fn update_map<'a>(params: &'a Option<Value>) -> (r: Option<&'a JsonMap<String, Value>>)
    ensures
        match r {
            Some(m) => update_of(*params) == Some(json::entries(*m)),
            None => update_of(*params) is None,
        },
{
    if let Some(p) = params {
        if let Some(items) = json::as_items(p) {
            if items.len() > 0 {
                assert(json::documents(items@)[0] == json::document(items@[0]));
                return json::as_entries(&items[0]);
            }
        }
    }
    None
}

/// What a notification does to the state of the printer, and what it is reported as.
pub open spec fn notified(
    method: Seq<char>,
    params: Option<Value>,
    s: AppStateView,
    t: Seq<Reading>,
) -> (AppStateView, Option<Event>) {
    if method == "notify_status_update"@ {
        (
            match update_of(params) {
                Some(e) => state_bridge::applied(s, e, t),
                None => s,
            },
            Some(Event::StatusUpdated),
        )
    } else if method == "notify_klippy_ready"@ {
        (AppStateView { moonraker_connected: true, ..s }, Some(Event::MrConnected))
    } else if method == "notify_klippy_disconnected"@ {
        (AppStateView { moonraker_connected: false, ..s }, Some(Event::MrDisconnected))
    } else {
        (s, None)
    }
}

/// Handles a notification; `readings` tells what the numbers of [`update_numbers`] come to.
pub fn handle_notification(
    n: &RpcNotification,
    state: &mut AppState,
    readings: &[Reading],
) -> (e: Option<Event>)
    ensures
        (final(state)@, e) == notified(n.method@, n.params, old(state)@, readings@),
{
    let method: &str = n.method.as_str();
    if text::same(method, "notify_status_update") {
        if let Some(map) = update_map(&n.params) {
            state_bridge::apply(state, map, readings);
        }
        Some(Event::StatusUpdated)
    } else if text::same(method, "notify_klippy_ready") {
        state.moonraker_connected = true;
        Some(Event::MrConnected)
    } else if text::same(method, "notify_klippy_disconnected") {
        state.moonraker_connected = false;
        Some(Event::MrDisconnected)
    } else {
        None
    }
}

impl<T> MoonrakerWorker<T> {
    /// A frame has come, and has been read as a response and as a notification, as far as it is
    /// one. As a response it goes to whom it answers; where it has no number, it is a
    /// notification.
    pub fn handle_frame(
        &mut self,
        response: Option<RpcResponse>,
        notification: Option<RpcNotification>,
        state: &mut AppState,
        readings: &[Reading],
    ) -> (r: (Taken<T>, Option<Event>))
        requires
            old(self).well_formed(),
        ensures
            final(self).well_formed(),
            final(self).round() == old(self).round(),
            response_taken(old(self).waiting(), response, r.0),
            final(self).waiting() == left_waiting(old(self).waiting(), response),
            (final(state)@, r.1) == match notification {
                Some(n) if r.0 is NoResponse => notified(
                    n.method@,
                    n.params,
                    old(state)@,
                    readings@,
                ),
                _ => (old(state)@, None),
            },
    {
        let taken: Taken<T> = self.take_response(response);
        if let Taken::NoResponse = taken {
            if let Some(n) = notification {
                let event: Option<Event> = handle_notification(&n, state, readings);
                return (Taken::NoResponse, event);
            }
        }
        (taken, None)
    }
}

/// The numbers of a notification that have to be read before it is handled.
pub fn update_numbers(n: &RpcNotification) -> (list: Vec<u64>)
    ensures
        list@ == match update_of(n.params) {
            Some(e) => if n.method@ == "notify_status_update"@ {
                state_bridge::numbers_in(e)
            } else {
                Seq::empty()
            },
            None => Seq::empty(),
        },
{
    if text::same(n.method.as_str(), "notify_status_update") {
        if let Some(map) = update_map(&n.params) {
            return state_bridge::numbers(map);
        }
    }
    Vec::new()
}

/// A request that has been sent is answered by the first response with its number, and by no
/// other: once answered, it waits no longer. A response that nobody waits for is ignored.
pub proof fn law_response_answers_its_request<T>(
    waiting: Map<u64, T>,
    id: u64,
    who: T,
    response: RpcResponse,
    r: Taken<T>,
)
    requires
        response_taken(waiting.insert(id, who), Some(response), r),
    ensures
        response.id == Some(id) ==> (r matches Taken::Answer { waiting: w, .. } && w == who),
        response.id == Some(id) ==> !left_waiting(
            waiting.insert(id, who),
            Some(response),
        ).dom().contains(id),
        response.id is Some && response.id != Some(id) && !waiting.dom().contains(response.id->0)
            ==> r is Ignored,
{
}

/// A connection that breaks, while a frame is read or a heartbeat is sent, is opened again as soon
/// as the round is over, however what is left of the round ends.
pub proof fn law_broken_connection_is_renewed(r: Round, rest: bool, beat: bool)
    requires
        r.phase is Reading || r.phase is Beating,
    ensures
        turn_event(r.phase, false) == Some(Event::MrDisconnected),
        ({
            let a = turned(r, false);
            let b = if a.phase is Beating {
                turned(a, beat)
            } else {
                a
            };
            turned(b, rest).phase is Connecting
        }),
{
}

/// While the connection holds, each round sends what has come in, reads a frame, and rests; every
/// so many rounds a heartbeat is sent.
pub proof fn law_round_goes_on(r: Round)
    requires
        r.phase is Resting,
        r.connected,
        0 <= r.rounds < BEAT_ROUNDS,
    ensures
        turned(r, true).phase is Sending,
        turned(turned(r, true), true).phase is Reading,
        ({
            let end = turned(turned(turned(r, true), true), true);
            if r.rounds + 1 == BEAT_ROUNDS {
                end.phase is Beating && end.rounds == 0 && turned(end, true) == (Round {
                    rounds: 0,
                    ..r
                })
            } else {
                end == (Round { rounds: r.rounds + 1, ..r })
            }
        }),
{
}

} // verus!
