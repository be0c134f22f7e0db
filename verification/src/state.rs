//! The state of the cloud connection: the login state machine, the queue of outgoing packets,
//! and the events that the parts of the client send to each other.

use std::collections::VecDeque;
use vstd::prelude::*;

verus! {

/// What the printer side and the user interface report to the protocol side.
#[derive(Debug, Clone)]
pub enum Event {
    /// The printer's state has been updated and should be published soon.
    StatusUpdated,
    /// The printer's server is connected.
    MrConnected,
    /// The printer's server is gone.
    MrDisconnected,
    /// The result of a G-code command; `cmd_type` is the command as it came.
    GcodeResult { cmd_type: String, result: String },
    /// The user interface has started a download.
    DownloadStarted { file_type: u8, file_name: String },
    /// A download is over; `from_ui` tells who had asked for it.
    DownloadFinished { file_type: u8, file_name: String, err_code: u8, from_ui: bool },
    /// The printer's files.
    FileListResult { files: Vec<(String, u64)> },
    /// A hardware alarm.
    Alarm { err_type: u8, err_msg: String },
    /// The user interface asks to unbind the device.
    UiUnbind,
    /// The user interface asks for firmware; `ticket` names who waits for the answer.
    UpgradeQueryRequested { ticket: Option<u64> },
}

/// What the user interface sees of the client.
#[derive(Debug, Clone)]
pub struct UiState {
    pub cloud_connected: bool,
    pub moonraker_connected: bool,
    pub bound: bool,
    /// 0 bound, 1 not bound, 2 unknown serial number.
    pub bind_state: u8,
    pub account: String,
    /// A download is running; there is one at a time, whoever asked for it.
    pub downloading: bool,
    pub firmware_server_ip: String,
    pub firmware_mcu_file: String,
    pub firmware_esp_file: String,
}

/// The contents of a [`UiState`].
#[verifier::ext_equal]
pub struct UiView {
    pub cloud_connected: bool,
    pub moonraker_connected: bool,
    pub bound: bool,
    pub bind_state: u8,
    pub account: Seq<char>,
    pub downloading: bool,
    pub firmware_server_ip: Seq<char>,
    pub firmware_mcu_file: Seq<char>,
    pub firmware_esp_file: Seq<char>,
}

impl View for UiState {
    type V = UiView;

    open spec fn view(&self) -> UiView {
        UiView {
            cloud_connected: self.cloud_connected,
            moonraker_connected: self.moonraker_connected,
            bound: self.bound,
            bind_state: self.bind_state,
            account: self.account@,
            downloading: self.downloading,
            firmware_server_ip: self.firmware_server_ip@,
            firmware_mcu_file: self.firmware_mcu_file@,
            firmware_esp_file: self.firmware_esp_file@,
        }
    }
}

impl Default for UiState {
    fn default() -> (u: Self)
        ensures
            u@ == (UiView {
                cloud_connected: false,
                moonraker_connected: false,
                bound: false,
                bind_state: 0,
                account: Seq::empty(),
                downloading: false,
                firmware_server_ip: Seq::empty(),
                firmware_mcu_file: Seq::empty(),
                firmware_esp_file: Seq::empty(),
            }),
    {
        UiState {
            cloud_connected: false,
            moonraker_connected: false,
            bound: false,
            bind_state: 0,
            account: String::new(),
            downloading: false,
            firmware_server_ip: String::new(),
            firmware_mcu_file: String::new(),
            firmware_esp_file: String::new(),
        }
    }
}

/// Where the cloud connection stands.
#[derive(Debug, Clone, Copy, PartialEq, Eq, Structural)]
pub enum ConnState {
    Disconnected,
    Connecting,
    AwaitLoginReply,
    Ready,
    Reconnecting,
}

/// How long a login may stay unanswered.
pub const LOGIN_REPLY_TIMEOUT_SECS: u64 = 15;

/// After how long without a downlink the state is reported.
pub const HEARTBEAT_IDLE_SECS: u64 = 180;

/// How many logins are tried before the connection is given up.
pub const MAX_LOGIN_ATTEMPTS: u8 = 3;

/// How often a device that is not bound repeats its login.
pub const UNBOUND_RETRY_INTERVAL_SECS: u64 = 5;

/// How long to wait after a session has ended before the next one is opened: a session that was
/// ended to log in anew is followed at once.
pub fn reconnect_delay_millis(at_once: bool) -> (ms: u64)
    ensures
        ms == if at_once {
            0u64
        } else {
            5000u64
        },
{
    if at_once {
        0
    } else {
        5000
    }
}

/// The login state machine.
#[derive(Debug, Clone, Copy)]
pub struct ConnStateMachine {
    pub state: ConnState,
    pub login_attempts: u8,
    pub login_sent_at_ts: Option<u64>,
    pub last_downlink_ts: u64,
    pub last_status_publish_ts: u64,
    pub bound: bool,
    /// The last answer to a login: 0 bound, 1 not bound, 2 unknown serial number.
    pub bind_state: u8,
    /// When an unbound device last heard of its binding or asked for it.
    pub last_unbound_retry_ts: u64,
}

/// The time from `then` to `now`; none where `now` is earlier.
pub open spec fn elapsed(now: u64, then: u64) -> int {
    if now >= then {
        now - then
    } else {
        0
    }
}

impl Default for ConnStateMachine {
    fn default() -> (c: Self)
        ensures
            c == ConnStateMachine::initial(),
    {
        Self {
            state: ConnState::Disconnected,
            login_attempts: 0,
            login_sent_at_ts: None,
            last_downlink_ts: 0,
            last_status_publish_ts: 0,
            bound: false,
            bind_state: 0,
            last_unbound_retry_ts: 0,
        }
    }
}

impl ConnStateMachine {
    /// The state before the first connection.
    pub open spec fn initial() -> ConnStateMachine {
        ConnStateMachine {
            state: ConnState::Disconnected,
            login_attempts: 0,
            login_sent_at_ts: None,
            last_downlink_ts: 0,
            last_status_publish_ts: 0,
            bound: false,
            bind_state: 0,
            last_unbound_retry_ts: 0,
        }
    }

    pub open spec fn connected(self, now: u64) -> ConnStateMachine {
        ConnStateMachine {
            state: ConnState::Connecting,
            login_attempts: 0,
            last_downlink_ts: now,
            bound: false,
            ..self
        }
    }

    pub open spec fn login_sent(self, now: u64) -> ConnStateMachine {
        ConnStateMachine {
            state: ConnState::AwaitLoginReply,
            login_attempts: (self.login_attempts + 1) as u8,
            login_sent_at_ts: Some(now),
            ..self
        }
    }

    pub open spec fn login_replied(self, bind_state: u8, now: u64) -> ConnStateMachine {
        ConnStateMachine {
            state: ConnState::Ready,
            login_attempts: 0,
            login_sent_at_ts: None,
            last_downlink_ts: now,
            bound: bind_state == 0,
            bind_state,
            last_unbound_retry_ts: now,
            ..self
        }
    }

    pub open spec fn heard(self, now: u64) -> ConnStateMachine {
        ConnStateMachine { last_downlink_ts: now, ..self }
    }

    pub open spec fn failed(self) -> ConnStateMachine {
        ConnStateMachine { state: ConnState::Reconnecting, login_sent_at_ts: None, ..self }
    }

    pub open spec fn login_timed_out(self, now: u64) -> bool {
        self.state == ConnState::AwaitLoginReply && match self.login_sent_at_ts {
            Some(t) => elapsed(now, t) > LOGIN_REPLY_TIMEOUT_SECS,
            None => false,
        }
    }

    pub open spec fn heartbeat_wanted(self, now: u64) -> bool {
        &&& self.state == ConnState::Ready
        &&& elapsed(now, self.last_downlink_ts) >= HEARTBEAT_IDLE_SECS
        &&& elapsed(now, self.last_status_publish_ts) >= HEARTBEAT_IDLE_SECS
    }

    /// The connection is up, and the session is about to be opened.
    pub fn on_connect(&mut self, now: u64)
        ensures
            *final(self) == old(self).connected(now),
    {
        self.state = ConnState::Connecting;
        self.login_attempts = 0;
        self.last_downlink_ts = now;
        self.bound = false;
    }

    /// A login has been sent.
    pub fn on_login_sent(&mut self, now: u64)
        requires
            old(self).login_attempts < 255,
        ensures
            *final(self) == old(self).login_sent(now),
    {
        self.login_sent_at_ts = Some(now);
        self.login_attempts += 1;
        self.state = ConnState::AwaitLoginReply;
    }

    /// A login has been answered: 0 means bound, everything else means not bound.
    pub fn on_login_reply(&mut self, bind_state: u8, now: u64)
        ensures
            *final(self) == old(self).login_replied(bind_state, now),
    {
        self.bind_state = bind_state;
        self.bound = bind_state == 0;
        self.login_sent_at_ts = None;
        self.login_attempts = 0;
        self.state = ConnState::Ready;
        self.last_downlink_ts = now;
        self.last_unbound_retry_ts = now;
    }

    /// Some downlink packet has come.
    pub fn on_downlink(&mut self, now: u64)
        ensures
            *final(self) == old(self).heard(now),
    {
        self.last_downlink_ts = now;
    }

    /// The connection is to be opened anew.
    pub fn on_error(&mut self)
        ensures
            *final(self) == old(self).failed(),
    {
        self.state = ConnState::Reconnecting;
        self.login_sent_at_ts = None;
    }

    /// Whether a login has been waiting for its answer for too long.
    pub fn login_reply_timeout(&self, now: u64) -> (b: bool)
        ensures
            b == self.login_timed_out(now),
    {
        if self.state != ConnState::AwaitLoginReply {
            return false;
        }
        match self.login_sent_at_ts {
            Some(t) => now.saturating_sub(t) > LOGIN_REPLY_TIMEOUT_SECS,
            None => false,
        }
    }

    /// Whether the session has been ready, but silent and without a status report, for three
    /// minutes.
    pub fn heartbeat_due(&self, now: u64) -> (b: bool)
        ensures
            b == self.heartbeat_wanted(now),
    {
        self.state == ConnState::Ready && now.saturating_sub(self.last_downlink_ts)
            >= HEARTBEAT_IDLE_SECS && now.saturating_sub(self.last_status_publish_ts)
            >= HEARTBEAT_IDLE_SECS
    }

    /// Whether logging in has failed, by its count or by its time.
    pub fn should_reconnect(&self, now: u64) -> (b: bool)
        ensures
            b == (self.login_attempts >= MAX_LOGIN_ATTEMPTS || self.login_timed_out(now)),
    {
        self.login_attempts >= MAX_LOGIN_ATTEMPTS || self.login_reply_timeout(now)
    }
}

/// A login that has been answered waits no longer: it cannot time out, counts no attempts, and
/// the session is ready whatever the answer says; the device is bound exactly if it says 0.
pub proof fn law_answered_login_is_settled(c: ConnStateMachine, bind_state: u8, now: u64, later: u64)
    ensures
        ({
            let r = c.login_replied(bind_state, now);
            &&& r.state == ConnState::Ready
            &&& r.login_attempts == 0
            &&& !r.login_timed_out(later)
            &&& (r.bound <==> bind_state == 0)
        }),
{
}

/// A login times out exactly when more than fifteen seconds have passed since it was sent.
pub proof fn law_login_timeout(c: ConnStateMachine, sent: u64, now: u64)
    ensures
        c.login_sent(sent).login_timed_out(now) <==> now > sent + LOGIN_REPLY_TIMEOUT_SECS,
{
}

/// A packet that waits to be published. Priority 0 is the highest.
#[derive(Debug, Clone)]
pub struct FifoItem {
    pub priority: u8,
    pub payload: Vec<u8>,
}

/// The contents of a [`FifoItem`].
#[verifier::ext_equal]
pub struct FifoView {
    pub priority: u8,
    pub payload: Seq<u8>,
}

impl View for FifoItem {
    type V = FifoView;

    open spec fn view(&self) -> FifoView {
        FifoView { priority: self.priority, payload: self.payload@ }
    }
}

/// The packets that wait to be published, in the order in which they came; at most `capacity`.
pub struct UplinkFifo {
    items: VecDeque<FifoItem>,
    capacity: usize,
}

impl View for UplinkFifo {
    type V = Seq<FifoView>;

    closed spec fn view(&self) -> Seq<FifoView> {
        self.items@.map_values(|i: FifoItem| i@)
    }
}

/// The place of the first item with the lowest priority, which is the largest number.
pub open spec fn least_urgent(s: Seq<FifoView>) -> int
    decreases s.len(),
{
    if s.len() <= 1 {
        0
    } else {
        let i = least_urgent(s.drop_last());
        if s.last().priority > s[i].priority {
            s.len() - 1
        } else {
            i
        }
    }
}

/// The place of the first item with the highest priority, which is the smallest number.
pub open spec fn most_urgent(s: Seq<FifoView>) -> int
    decreases s.len(),
{
    if s.len() <= 1 {
        0
    } else {
        let i = most_urgent(s.drop_last());
        if s.last().priority < s[i].priority {
            s.len() - 1
        } else {
            i
        }
    }
}

/// The queue after one more item: appended where there is room; else appended for the first item of
/// the lowest priority, which leaves, if the new one is more urgent; else dropped.
pub open spec fn pushed(s: Seq<FifoView>, capacity: int, item: FifoView) -> Seq<FifoView> {
    if s.len() < capacity {
        s.push(item)
    } else if item.priority < s[least_urgent(s)].priority {
        s.remove(least_urgent(s)).push(item)
    } else {
        s
    }
}

impl UplinkFifo {
    /// How many items the queue may hold.
    pub closed spec fn capacity_of(&self) -> nat {
        self.capacity as nat
    }

    /// The queue has room for at least one item, and holds no more than it has room for.
    pub open spec fn well_formed(&self) -> bool {
        1 <= self.capacity_of() && self@.len() <= self.capacity_of()
    }

    /// An empty queue; it has room for one item at least.
    pub fn new(capacity: usize) -> (f: Self)
        ensures
            f@ == Seq::<FifoView>::empty(),
            f.capacity_of() == if capacity == 0 {
                1
            } else {
                capacity as nat
            },
            f.well_formed(),
    {
        let f = Self {
            items: VecDeque::new(),
            capacity: if capacity == 0 {
                1
            } else {
                capacity
            },
        };
        assert(f@ =~= Seq::<FifoView>::empty());
        f
    }

    pub fn len(&self) -> (n: usize)
        ensures
            n == self@.len(),
    {
        self.items.len()
    }

    pub fn is_empty(&self) -> (b: bool)
        ensures
            b == (self@.len() == 0),
    {
        self.items.len() == 0
    }

    /// Adds an item. A full queue gives up its first item of the lowest priority for a more
    /// urgent one, and drops any other.
    pub fn push(&mut self, item: FifoItem)
        requires
            old(self).well_formed(),
        ensures
            final(self)@ == pushed(old(self)@, old(self).capacity_of() as int, item@),
            final(self).capacity_of() == old(self).capacity_of(),
            final(self).well_formed(),
    {
        if self.items.len() < self.capacity {
            self.items.push_back(item);
            assert(self@ =~= old(self)@.push(item@));
            return ;
        }
        let mut worst: usize = 0;
        let mut i: usize = 1;
        assert(self@.take(1).len() == 1);
        while i < self.items.len()
            invariant
                *self == *old(self),
                1 <= i <= self.items@.len(),
                self@.len() == self.items@.len(),
                worst < i,
                worst == least_urgent(self@.take(i as int)),
            decreases self.items@.len() - i,
        {
            assert(self@.take(i as int + 1).drop_last() =~= self@.take(i as int));
            assert(self@.take(i as int + 1).last() == self.items@[i as int]@);
            assert(self@.take(i as int + 1)[worst as int] == self.items@[worst as int]@);
            if self.items[i].priority > self.items[worst].priority {
                worst = i;
            }
            i += 1;
        }
        assert(self@.take(i as int) =~= self@);
        assert(self@[worst as int] == self.items@[worst as int]@);
        if item.priority < self.items[worst].priority {
            let _ = self.items.remove(worst);
            self.items.push_back(item);
            assert(self@ =~= old(self)@.remove(worst as int).push(item@));
        }
    }

    /// Takes the most urgent item; among equals, the one that came first.
    pub fn pop(&mut self) -> (item: Option<FifoItem>)
        ensures
            match item {
                None => old(self)@.len() == 0 && final(self)@ == old(self)@,
                Some(f) => {
                    let i = most_urgent(old(self)@);
                    &&& old(self)@.len() > 0
                    &&& 0 <= i < old(self)@.len()
                    &&& f@ == old(self)@[i]
                    &&& final(self)@ == old(self)@.remove(i)
                },
            },
            final(self).capacity_of() == old(self).capacity_of(),
            old(self).well_formed() ==> final(self).well_formed(),
    {
        if self.items.len() == 0 {
            return None;
        }
        let mut best: usize = 0;
        let mut i: usize = 1;
        assert(self@.take(1).len() == 1);
        while i < self.items.len()
            invariant
                *self == *old(self),
                1 <= i <= self.items@.len(),
                self@.len() == self.items@.len(),
                best < i,
                best == most_urgent(self@.take(i as int)),
            decreases self.items@.len() - i,
        {
            assert(self@.take(i as int + 1).drop_last() =~= self@.take(i as int));
            assert(self@.take(i as int + 1).last() == self.items@[i as int]@);
            assert(self@.take(i as int + 1)[best as int] == self.items@[best as int]@);
            if self.items[i].priority < self.items[best].priority {
                best = i;
            }
            i += 1;
        }
        assert(self@.take(i as int) =~= self@);
        let item: Option<FifoItem> = self.items.remove(best);
        assert(self@ =~= old(self)@.remove(best as int));
        item
    }
}

/// The item that leaves the queue is the most urgent one, and the first of those.
pub proof fn law_most_urgent_leaves_first(s: Seq<FifoView>)
    requires
        s.len() > 0,
    ensures
        0 <= most_urgent(s) < s.len(),
        forall|j: int| 0 <= j < s.len() ==> s[most_urgent(s)].priority <= #[trigger] s[j].priority,
        forall|j: int|
            0 <= j < most_urgent(s) ==> s[most_urgent(s)].priority < #[trigger] s[j].priority,
    decreases s.len(),
{
    if s.len() > 1 {
        let t = s.drop_last();
        law_most_urgent_leaves_first(t);
        assert(forall|j: int| 0 <= j < t.len() ==> t[j] == s[j]);
    }
}

/// The item that makes room is of the lowest priority, and the first of those.
pub proof fn law_least_urgent_makes_room(s: Seq<FifoView>)
    requires
        s.len() > 0,
    ensures
        0 <= least_urgent(s) < s.len(),
        forall|j: int| 0 <= j < s.len() ==> s[least_urgent(s)].priority >= #[trigger] s[j].priority,
        forall|j: int|
            0 <= j < least_urgent(s) ==> s[least_urgent(s)].priority > #[trigger] s[j].priority,
    decreases s.len(),
{
    if s.len() > 1 {
        let t = s.drop_last();
        law_least_urgent_makes_room(t);
        assert(forall|j: int| 0 <= j < t.len() ==> t[j] == s[j]);
    }
}

/// A queue never holds more than its capacity, and an item that is at least as urgent as the
/// new one is never given up for it: it keeps its place, or moves up where one in front of it leaves.
pub proof fn law_push_keeps_urgent_items(s: Seq<FifoView>, capacity: int, item: FifoView, j: int)
    requires
        1 <= capacity,
        s.len() <= capacity,
        0 <= j < s.len(),
        s[j].priority <= item.priority,
    ensures
        pushed(s, capacity, item).len() <= capacity,
        ({
            let moved = s.len() == capacity && item.priority < s[least_urgent(s)].priority
                && least_urgent(s) < j;
            pushed(s, capacity, item)[if moved {
                j - 1
            } else {
                j
            }] == s[j]
        }),
{
    law_least_urgent_makes_room(s);
}

/// Something that is done to a queue.
pub enum FifoOp {
    Push(FifoView),
    Pop,
}

/// A queue after some operations from the start, and what has left it by `pop`, in that order.
pub open spec fn operated(ops: Seq<FifoOp>, capacity: int) -> (Seq<FifoView>, Seq<FifoView>)
    decreases ops.len(),
{
    if ops.len() == 0 {
        (Seq::empty(), Seq::empty())
    } else {
        let (queue, out) = operated(ops.drop_last(), capacity);
        match ops.last() {
            FifoOp::Push(item) => (pushed(queue, capacity, item), out),
            FifoOp::Pop => if queue.len() == 0 {
                (queue, out)
            } else {
                let i = most_urgent(queue);
                (queue.remove(i), out.push(queue[i]))
            },
        }
    }
}

/// The same queue by the numbers of the operations that pushed its items, and the same of what has
/// left it.
pub open spec fn arrivals(ops: Seq<FifoOp>, capacity: int) -> (Seq<int>, Seq<int>)
    decreases ops.len(),
{
    if ops.len() == 0 {
        (Seq::empty(), Seq::empty())
    } else {
        let before = operated(ops.drop_last(), capacity).0;
        let (queue, out) = arrivals(ops.drop_last(), capacity);
        match ops.last() {
            FifoOp::Push(item) => {
                let now = ops.len() - 1;
                if before.len() < capacity {
                    (queue.push(now), out)
                } else if item.priority < before[least_urgent(before)].priority {
                    (queue.remove(least_urgent(before)).push(now), out)
                } else {
                    (queue, out)
                }
            },
            FifoOp::Pop => if before.len() == 0 {
                (queue, out)
            } else {
                let i = most_urgent(before);
                (queue.remove(i), out.push(queue[i]))
            },
        }
    }
}

/// What is known of a queue and of its items' arrivals after some operations.
spec fn in_order(
    ops: Seq<FifoOp>,
    items: (Seq<FifoView>, Seq<FifoView>),
    numbers: (Seq<int>, Seq<int>),
) -> bool {
    let (queue, out) = items;
    let (at, left) = numbers;
    &&& at.len() == queue.len()
    &&& left.len() == out.len()
    &&& forall|i: int|
        0 <= i < at.len() ==> 0 <= #[trigger] at[i] < ops.len() && ops[at[i]] == FifoOp::Push(
            queue[i],
        )
    &&& forall|i: int|
        0 <= i < left.len() ==> 0 <= #[trigger] left[i] < ops.len() && ops[left[i]]
            == FifoOp::Push(out[i])
    &&& forall|i: int, j: int| 0 <= i < j < at.len() ==> #[trigger] at[i] < #[trigger] at[j]
    &&& forall|i: int, j: int|
        0 <= i < left.len() && 0 <= j < at.len() && out[i].priority == queue[j].priority
            ==> #[trigger] left[i] < #[trigger] at[j]
    &&& forall|i: int, j: int|
        0 <= i < j < left.len() && out[i].priority == out[j].priority ==> #[trigger] left[i]
            < #[trigger] left[j]
}

proof fn lemma_in_order(ops: Seq<FifoOp>, capacity: int)
    requires
        1 <= capacity,
    ensures
        in_order(ops, operated(ops, capacity), arrivals(ops, capacity)),
    decreases ops.len(),
{
    if ops.len() > 0 {
        let earlier = ops.drop_last();
        lemma_in_order(earlier, capacity);
        let (queue, out) = operated(earlier, capacity);
        if queue.len() > 0 {
            law_least_urgent_makes_room(queue);
            law_most_urgent_leaves_first(queue);
        }
        assert(forall|k: int| 0 <= k < earlier.len() ==> earlier[k] == ops[k]);
    }
}

/// Of two items of equal priority the one that was pushed first leaves first, whatever else was
/// pushed and taken before, between and after: what leaves a queue, in the order in which it leaves,
/// was pushed by the operations that [`arrivals`] numbers, and among equal priorities these numbers
/// go up. What has not left yet was pushed later than its equals that have.
pub proof fn law_equals_leave_in_order_of_arrival(ops: Seq<FifoOp>, capacity: int)
    requires
        1 <= capacity,
    ensures
        ({
            let (queue, out) = operated(ops, capacity);
            let (at, left) = arrivals(ops, capacity);
            &&& at.len() == queue.len() && left.len() == out.len()
            &&& forall|i: int|
                0 <= i < queue.len() ==> 0 <= #[trigger] at[i] < ops.len() && ops[at[i]]
                    == FifoOp::Push(queue[i])
            &&& forall|i: int|
                0 <= i < out.len() ==> 0 <= #[trigger] left[i] < ops.len() && ops[left[i]]
                    == FifoOp::Push(out[i])
            &&& forall|i: int, j: int|
                0 <= i < j < out.len() && out[i].priority == out[j].priority ==> #[trigger] left[i]
                    < #[trigger] left[j]
            &&& forall|i: int, j: int|
                0 <= i < out.len() && 0 <= j < queue.len() && out[i].priority == queue[j].priority
                    ==> #[trigger] left[i] < #[trigger] at[j]
        }),
{
    lemma_in_order(ops, capacity);
}

} // verus!
