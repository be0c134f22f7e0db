//! The provisioning worker: what it sends to the app, and what it does for the app.
//!
//! The worker decides; its owner moves bytes. A frame of the app leads to a [`Reaction`]: bytes
//! to send, and something to do, whose result comes back to the worker.

use crate::blufi::codec;
use crate::blufi::codec::{CodecErrorView, ProvisioningView, ScanItem, ScanView};
use crate::blufi::fc;
use crate::blufi::frame;
use crate::blufi::frame::{AssemblerView, BluFiFrame, FragmentAssembler, FrameError, FrameView};
use crate::blufi::ftype;
use crate::blufi::{BluFiConfig, BluFiState, BlufiCmd, BlufiEvent};
use crate::text;
use vstd::prelude::*;
use vstd::utf8;

verus! {

/// The number of the first frame after the app has connected: the version frame in front of it
/// has number 0.
pub const SEQ_AFTER_VERSION: u8 = 1;

/// The code that the app is sent when a scan fails.
pub const ERR_SCAN_FAILED: u8 = 0x0b;

/// The provisioning worker.
pub struct BluFiWorker {
    pub cfg: BluFiConfig,
    pub assembler: FragmentAssembler,
    /// The number of the next frame.
    pub seq_out: u8,
    pub state: BluFiState,
}

/// Where a worker stands.
#[verifier::ext_equal]
pub struct WorkerView {
    pub assembler: AssemblerView,
    pub seq_out: u8,
    pub state: BluFiState,
}

impl View for BluFiWorker {
    type V = WorkerView;

    open spec fn view(&self) -> WorkerView {
        WorkerView { assembler: self.assembler@, seq_out: self.seq_out, state: self.state }
    }
}

/// Frames to send, in this order, with a pause between each and the next.
#[derive(Debug)]
pub struct Burst {
    pub frames: Vec<Vec<u8>>,
    pub pause_ms: u64,
}

/// The contents of byte strings.
pub open spec fn byte_views(list: Seq<Vec<u8>>) -> Seq<Seq<u8>> {
    list.map_values(|b: Vec<u8>| b@)
}

/// Frames as they are sent.
pub open spec fn wires(frames: Seq<FrameView>) -> Seq<Seq<u8>> {
    frames.map_values(|f: FrameView| frame::wire(f))
}

/// How often the worker looks for orders, in milliseconds.
pub const POLL_MS: u64 = 20;

/// What a look for orders finds.
#[derive(Debug)]
pub enum Polled {
    Order(BlufiCmd),
    Nothing,
    /// Nobody is left who could give an order.
    Closed,
}

/// Whether the worker goes on after a look for orders, and what it reports. It stops where it is
/// told to, and where nobody is left to tell it.
pub fn after_poll(p: Polled) -> (r: (bool, Option<BlufiEvent>))
    ensures
        r.0 <==> !(p is Closed || p == Polled::Order(BlufiCmd::StopConfig)),
        r.1 == if p == Polled::Order(BlufiCmd::StopConfig) {
            Some(BlufiEvent::ExitConfigMode)
        } else {
            None::<BlufiEvent>
        },
{
    match p {
        Polled::Order(BlufiCmd::StopConfig) => (false, Some(BlufiEvent::ExitConfigMode)),
        Polled::Order(BlufiCmd::StartConfig) => (true, None),
        Polled::Nothing => (true, None),
        Polled::Closed => (false, None),
    }
}

/// What has to be done for the app.
#[derive(Debug)]
pub enum Need {
    Nothing,
    /// Look for networks; the result goes to [`BluFiWorker::scan_done`].
    Scan,
    /// Join a network; the result goes to [`BluFiWorker::connect_done`].
    Connect { ssid: String, pwd: Option<String> },
}

/// What a frame of the app leads to: an acknowledgement, then frames, then something to do.
#[derive(Debug)]
pub struct Reaction {
    pub ack: Option<Vec<u8>>,
    pub burst: Burst,
    pub need: Need,
}

/// The contents of a [`Need`].
#[verifier::ext_equal]
pub enum NeedView {
    Nothing,
    Scan,
    Connect { ssid: Seq<char>, pwd: Option<Seq<char>> },
}

impl View for Need {
    type V = NeedView;

    open spec fn view(&self) -> NeedView {
        match *self {
            Need::Nothing => NeedView::Nothing,
            Need::Scan => NeedView::Scan,
            Need::Connect { ssid, pwd } => NeedView::Connect {
                ssid: ssid@,
                pwd: match pwd {
                    Some(p) => Some(p@),
                    None => None,
                },
            },
        }
    }
}

/// The contents of a [`Reaction`].
#[verifier::ext_equal]
pub struct ReactionView {
    pub ack: Option<Seq<u8>>,
    pub frames: Seq<Seq<u8>>,
    pub pause_ms: u64,
    pub need: NeedView,
}

impl View for Reaction {
    type V = ReactionView;

    open spec fn view(&self) -> ReactionView {
        ReactionView {
            ack: match self.ack {
                Some(a) => Some(a@),
                None => None,
            },
            frames: byte_views(self.burst.frames@),
            pause_ms: self.burst.pause_ms,
            need: self.need@,
        }
    }
}

/// The number after `n`, and after 255 again 0.
pub open spec fn next_number(n: u8) -> u8 {
    ((n + 1) % 256) as u8
}

/// A data frame of the device.
pub open spec fn data_frame(subtype: u8, seq: u8, data: Seq<u8>) -> FrameView {
    FrameView {
        pkg_type: frame::PKG_DATA,
        subtype,
        frame_ctrl: fc::DIRECTION,
        sequence: seq,
        data,
    }
}

/// The same data `n` times, in frames with consecutive numbers.
pub open spec fn repeated(subtype: u8, seq: u8, data: Seq<u8>, n: nat) -> Seq<FrameView> {
    Seq::new(n, |i: int| data_frame(subtype, ((seq + i) % 256) as u8, data))
}

/// How often a message is repeated: as configured, but at least once.
pub open spec fn repeat_count(cfg: BluFiConfig) -> nat {
    if cfg.ack_repeat > 1 {
        cfg.ack_repeat as nat
    } else {
        1
    }
}

/// The frames of some data, however many that takes.
pub open spec fn data_frames(subtype: u8, seq: u8, data: Seq<u8>) -> Seq<FrameView> {
    frame::split_frames(frame::PKG_DATA, subtype, fc::DIRECTION, seq, data, 255)
}

/// Nothing has to be sent or done.
pub open spec fn no_reaction(ack: Option<Seq<u8>>) -> ReactionView {
    ReactionView { ack, frames: Seq::empty(), pause_ms: 0, need: NeedView::Nothing }
}

/// What a whole message of the app leads to.
pub open spec fn message_handled(
    w: WorkerView,
    cfg: BluFiConfig,
    pkg_type: u8,
    subtype: u8,
    payload: Seq<u8>,
    ack: Option<Seq<u8>>,
) -> (WorkerView, ReactionView) {
    if pkg_type == frame::PKG_CTRL {
        if subtype == ftype::GET_WIFI_LIST {
            (
                WorkerView { state: BluFiState::Scanning, ..w },
                ReactionView { need: NeedView::Scan, ..no_reaction(ack) },
            )
        } else {
            (w, no_reaction(ack))
        }
    } else if subtype == ftype::CUSTOM_DATA {
        match read_provisioning(payload) {
            Ok(p) => {
                let n = repeat_count(cfg);
                (
                    WorkerView {
                        seq_out: ((w.seq_out + n) % 256) as u8,
                        state: BluFiState::Connecting,
                        ..w
                    },
                    ReactionView {
                        ack,
                        frames: wires(
                            repeated(
                                ftype::CUSTOM_DATA,
                                w.seq_out,
                                utf8::encode_utf8(codec::RECEIVED_MSG@),
                                n,
                            ),
                        ),
                        pause_ms: cfg.ack_interval_ms,
                        need: NeedView::Connect {
                            ssid: p.ssid,
                            pwd: if p.pwd.len() == 0 {
                                None
                            } else {
                                Some(p.pwd)
                            },
                        },
                    },
                )
            },
            Err(_) => (
                WorkerView { seq_out: next_number(w.seq_out), state: BluFiState::WaitApp, ..w },
                ReactionView {
                    frames: seq![
                        frame::wire(
                            data_frame(
                                ftype::CUSTOM_DATA,
                                w.seq_out,
                                utf8::encode_utf8(codec::FAILED_MSG@),
                            ),
                        ),
                    ],
                    ..no_reaction(ack)
                },
            ),
        }
    } else {
        (w, no_reaction(ack))
    }
}

/// What provisioning data says.
pub open spec fn read_provisioning(raw: Seq<u8>) -> Result<ProvisioningView, CodecErrorView> {
    if utf8::valid_utf8(raw) {
        codec::provisioning_of(utf8::decode_utf8(raw))
    } else {
        Err(CodecErrorView::Utf8(text::utf8_complaint(raw)))
    }
}

/// The acknowledgement of a frame that asks for one.
pub open spec fn ack_of(f: FrameView) -> Option<Seq<u8>> {
    if f.frame_ctrl & fc::NEED_ACK != 0 {
        Some(
            frame::wire(
                FrameView {
                    pkg_type: frame::PKG_CTRL,
                    subtype: ftype::ACK,
                    frame_ctrl: fc::DIRECTION,
                    sequence: 0,
                    data: seq![f.sequence],
                },
            ),
        )
    } else {
        None
    }
}

/// What the bytes of a frame of the app lead to: a frame that cannot be decoded to nothing, one
/// of several fragments to its acknowledgement, and one that completes a message to what that
/// asks for.
pub open spec fn frame_handled(w: WorkerView, cfg: BluFiConfig, raw: Seq<u8>) -> (
    WorkerView,
    ReactionView,
) {
    match frame::decoded(raw) {
        Err(_) => (w, no_reaction(None)),
        Ok(f) => {
            let (assembler, out) = frame::fed(w.assembler, f);
            let fed = WorkerView { assembler, ..w };
            match out {
                Ok(Some(payload)) => message_handled(
                    fed,
                    cfg,
                    f.pkg_type,
                    f.subtype,
                    payload,
                    ack_of(f),
                ),
                _ => (fed, no_reaction(ack_of(f))),
            }
        },
    }
}

/// A network put among others, behind all whose signal is no weaker.
pub open spec fn placed(items: Seq<ScanView>, item: ScanView) -> Seq<ScanView>
    decreases items.len(),
{
    if items.len() > 0 && items.last().rssi < item.rssi {
        placed(items.drop_last(), item).push(items.last())
    } else {
        items.push(item)
    }
}

/// Networks in the order of their signals, the strongest first; networks with the same signal
/// keep their order.
pub open spec fn strongest_first(items: Seq<ScanView>) -> Seq<ScanView>
    decreases items.len(),
{
    if items.len() == 0 {
        items
    } else {
        placed(strongest_first(items.drop_last()), items.last())
    }
}

/// What the app is sent of a scan's result.
pub open spec fn scan_data(cfg: BluFiConfig, items: Seq<ScanView>) -> Seq<u8> {
    let sorted = strongest_first(items);
    if cfg.scan_single_frame_bytes == 0 {
        codec::scan_list(sorted)
    } else {
        codec::scan_list(sorted.take(codec::fitting(sorted, cfg.scan_single_frame_bytes as int)))
    }
}

fn no_burst() -> (b: Burst)
    ensures
        byte_views(b.frames@) == Seq::<Seq<u8>>::empty(),
        b.pause_ms == 0,
{
    let frames: Vec<Vec<u8>> = Vec::new();
    assert(byte_views(frames@) =~= Seq::<Seq<u8>>::empty());
    Burst { frames, pause_ms: 0 }
}

fn one_frame(bytes: Vec<u8>) -> (b: Burst)
    ensures
        byte_views(b.frames@) == seq![bytes@],
        b.pause_ms == 0,
{
    let mut frames: Vec<Vec<u8>> = Vec::new();
    frames.push(bytes);
    assert(byte_views(frames@) =~= seq![bytes@]);
    Burst { frames, pause_ms: 0 }
}

/// Puts a network in its place among sorted ones.
fn place(items: &mut Vec<ScanItem>, item: ScanItem)
    ensures
        codec::scan_views(final(items)@) == placed(codec::scan_views(old(items)@), item@),
{
    let ghost before = items@;
    let ghost views = codec::scan_views(before);
    let mut n: usize = items.len();
    while n > 0 && items[n - 1].rssi < item.rssi
        invariant
            n <= items@.len(),
            items@ == before,
            views == codec::scan_views(before),
            forall|k: int| n <= k < before.len() ==> (#[trigger] before[k]).rssi < item.rssi,
        decreases n,
    {
        n -= 1;
    }
    items.insert(n, item);
    proof {
        lemma_placed(views, item@, n as int);
        assert(codec::scan_views(items@) =~= views.take(n as int).push(item@) + views.skip(
            n as int,
        ));
    }
}

proof fn lemma_placed(items: Seq<ScanView>, item: ScanView, n: int)
    requires
        0 <= n <= items.len(),
        forall|k: int| n <= k < items.len() ==> (#[trigger] items[k]).rssi < item.rssi,
        n > 0 ==> items[n - 1].rssi >= item.rssi,
    ensures
        placed(items, item) == items.take(n).push(item) + items.skip(n),
    decreases items.len(),
{
    if items.len() == n {
        assert(items.take(n).push(item) + items.skip(n) =~= items.push(item));
    } else {
        let front = items.drop_last();
        lemma_placed(front, item, n);
        assert(front.take(n) =~= items.take(n));
        assert((front.take(n).push(item) + front.skip(n)).push(items.last()) =~= items.take(n).push(
            item,
        ) + items.skip(n));
    }
}

/// Networks in the order of their signals.
fn sort_by_strength(items: Vec<ScanItem>) -> (sorted: Vec<ScanItem>)
    ensures
        codec::scan_views(sorted@) == strongest_first(codec::scan_views(items@)),
{
    let ghost views = codec::scan_views(items@);
    let count: usize = items.len();
    let mut rest: Vec<ScanItem> = items;
    let mut turned: Vec<ScanItem> = Vec::new();
    while rest.len() > 0
        invariant
            views.len() == rest@.len() + turned@.len(),
            forall|k: int| 0 <= k < rest@.len() ==> (#[trigger] rest@[k])@ == views[k],
            forall|k: int|
                0 <= k < turned@.len() ==> (#[trigger] turned@[k])@ == views[views.len() - 1 - k],
        decreases rest@.len(),
    {
        let item: ScanItem = rest.pop().unwrap();
        turned.push(item);
    }
    let mut sorted: Vec<ScanItem> = Vec::new();
    assert(codec::scan_views(sorted@) =~= Seq::<ScanView>::empty());
    assert(views.take(0) =~= Seq::<ScanView>::empty());
    let mut i: usize = 0;
    while turned.len() > 0
        invariant
            views.len() == i + turned@.len(),
            forall|k: int|
                0 <= k < turned@.len() ==> (#[trigger] turned@[k])@ == views[views.len() - 1 - k],
            codec::scan_views(sorted@) == strongest_first(views.take(i as int)),
            views.len() == count,
        decreases turned@.len(),
    {
        let item: ScanItem = turned.pop().unwrap();
        proof {
            let more = views.take(i as int + 1);
            assert(more.drop_last() =~= views.take(i as int));
            assert(more.last() == item@);
        }
        place(&mut sorted, item);
        i += 1;
    }
    assert(views.take(i as int) =~= views);
    sorted
}

impl BluFiWorker {
    /// A worker that waits for the app.
    pub fn new(cfg: BluFiConfig) -> (w: Self)
        ensures
            w.cfg == cfg,
            w@ == (WorkerView {
                assembler: frame::idle_assembler(),
                seq_out: 0,
                state: BluFiState::WaitApp,
            }),
    {
        BluFiWorker { cfg, assembler: FragmentAssembler::new(), seq_out: 0, state: BluFiState::WaitApp }
    }

    /// The number of the next frame, which is then taken.
    pub fn next_seq(&mut self) -> (s: u8)
        ensures
            s == old(self)@.seq_out,
            final(self)@ == (WorkerView { seq_out: next_number(s), ..old(self)@ }),
            final(self).cfg == old(self).cfg,
    {
        let s: u8 = self.seq_out;
        self.seq_out = if s < 255 {
            s + 1
        } else {
            0
        };
        s
    }

    /// The bytes of one frame.
    pub fn send_frame(&mut self, pkg_type: u8, subtype: u8, frame_ctrl: u8, data: &[u8]) -> (bytes:
        Vec<u8>)
        ensures
            bytes@ == frame::wire(
                FrameView {
                    pkg_type,
                    subtype,
                    frame_ctrl,
                    sequence: old(self)@.seq_out,
                    data: data@,
                },
            ),
            final(self)@ == (WorkerView {
                seq_out: next_number(old(self)@.seq_out),
                ..old(self)@
            }),
            final(self).cfg == old(self).cfg,
    {
        let seq: u8 = self.next_seq();
        BluFiFrame::new(pkg_type, subtype, frame_ctrl, seq, vstd::slice::slice_to_vec(data)).encode()
    }

    /// The same data several times, as often as configured, in frames with consecutive numbers:
    /// the app drops a frame whose number it has seen.
    pub fn send_repeat(&mut self, subtype: u8, data: &[u8]) -> (b: Burst)
        ensures
            byte_views(b.frames@) == wires(
                repeated(subtype, old(self)@.seq_out, data@, repeat_count(old(self).cfg)),
            ),
            b.pause_ms == old(self).cfg.ack_interval_ms,
            final(self)@ == (WorkerView {
                seq_out: ((old(self)@.seq_out + repeat_count(old(self).cfg)) % 256) as u8,
                ..old(self)@
            }),
            final(self).cfg == old(self).cfg,
    {
        let n: u8 = if self.cfg.ack_repeat > 1 {
            self.cfg.ack_repeat
        } else {
            1
        };
        let ghost first = self.seq_out;
        let mut frames: Vec<Vec<u8>> = Vec::new();
        let mut i: u8 = 0;
        while i < n
            invariant
                i <= n,
                n == repeat_count(old(self).cfg),
                first == old(self)@.seq_out,
                self.cfg == old(self).cfg,
                frames@.len() == i,
                self@ == (WorkerView { seq_out: ((first + i) % 256) as u8, ..old(self)@ }),
                forall|k: int|
                    0 <= k < i ==> (#[trigger] frames@[k])@ == frame::wire(
                        data_frame(subtype, ((first + k) % 256) as u8, data@),
                    ),
            decreases n - i,
        {
            let bytes: Vec<u8> = self.send_frame(frame::PKG_DATA, subtype, fc::DIRECTION, data);
            frames.push(bytes);
            i += 1;
        }
        assert(byte_views(frames@) =~= wires(repeated(subtype, first, data@, n as nat)));
        Burst { frames, pause_ms: self.cfg.ack_interval_ms }
    }

    /// Some data, in as many frames as it takes.
    pub fn send_data(&mut self, subtype: u8, data: &[u8]) -> (b: Burst)
        ensures
            byte_views(b.frames@) == wires(data_frames(subtype, old(self)@.seq_out, data@)),
            b.pause_ms == 0,
            final(self)@ == (WorkerView {
                seq_out: next_number(
                    data_frames(subtype, old(self)@.seq_out, data@).last().sequence,
                ),
                ..old(self)@
            }),
            final(self).cfg == old(self).cfg,
    {
        let list: Vec<BluFiFrame> = frame::split_for_tx(
            frame::PKG_DATA,
            subtype,
            fc::DIRECTION,
            self.seq_out,
            data,
            255,
        );
        let ghost views = frame::frame_views(list@);
        assert(views.len() > 0);
        let mut frames: Vec<Vec<u8>> = Vec::new();
        let mut i: usize = 0;
        while i < list.len()
            invariant
                i <= list@.len(),
                frames@.len() == i,
                views == frame::frame_views(list@),
                forall|k: int| 0 <= k < i ==> (#[trigger] frames@[k])@ == frame::wire(views[k]),
            decreases list@.len() - i,
        {
            frames.push(list[i].encode());
            i += 1;
        }
        assert(byte_views(frames@) =~= wires(views));
        let last: u8 = list[list.len() - 1].sequence;
        assert(views.last().sequence == last);
        self.seq_out = if last < 255 {
            last + 1
        } else {
            0
        };
        Burst { frames, pause_ms: 0 }
    }

    /// Provisioning begins: the app is told the version of the protocol.
    pub fn start(&mut self) -> (r: (BlufiEvent, Vec<u8>))
        ensures
            r.0 is EnterConfigMode,
            r.1@ == frame::wire(
                data_frame(
                    ftype::VERSION,
                    old(self)@.seq_out,
                    seq![old(self).cfg.version_major, old(self).cfg.version_minor],
                ),
            ),
            final(self)@ == (WorkerView {
                seq_out: next_number(old(self)@.seq_out),
                ..old(self)@
            }),
            final(self).cfg == old(self).cfg,
    {
        let ver: Vec<u8> = codec::encode_version(self.cfg.version_major, self.cfg.version_minor);
        let bytes: Vec<u8> = self.send_frame(
            frame::PKG_DATA,
            ftype::VERSION,
            fc::DIRECTION,
            ver.as_slice(),
        );
        (BlufiEvent::EnterConfigMode, bytes)
    }

    /// Where the app has connected anew, the numbers start anew behind the version frame, and
    /// what had come in fragments is forgotten.
    pub fn handle_new_session(&mut self, new_session: bool)
        ensures
            final(self)@ == if new_session {
                WorkerView {
                    assembler: frame::idle_assembler(),
                    seq_out: SEQ_AFTER_VERSION,
                    ..old(self)@
                }
            } else {
                old(self)@
            },
            final(self).cfg == old(self).cfg,
    {
        if new_session {
            self.seq_out = SEQ_AFTER_VERSION;
            self.assembler = FragmentAssembler::new();
        }
    }

    /// Handles the bytes of a frame of the app.
    pub fn on_app_frame(&mut self, bytes: &[u8]) -> (r: Reaction)
        ensures
            (final(self)@, r@) == frame_handled(old(self)@, old(self).cfg, bytes@),
            final(self).cfg == old(self).cfg,
    {
        let f: BluFiFrame = match BluFiFrame::decode(bytes) {
            Ok(f) => f,
            Err(_) => {
                return Reaction { ack: None, burst: no_burst(), need: Need::Nothing };
            },
        };
        let ack: Option<Vec<u8>> = if f.needs_ack() {
            Some(frame::make_ack(f.sequence).encode())
        } else {
            None
        };
        let payload: Vec<u8> = match self.assembler.feed(&f) {
            Ok(Some(p)) => p,
            _ => {
                return Reaction { ack, burst: no_burst(), need: Need::Nothing };
            },
        };
        let ghost handled = message_handled(
            self@,
            self.cfg,
            f.pkg_type,
            f.subtype,
            payload@,
            opt_bytes(ack),
        );
        assert(handled == frame_handled(old(self)@, old(self).cfg, bytes@));
        if f.pkg_type == frame::PKG_CTRL {
            self.handle_ctrl(f.subtype, ack)
        } else {
            self.handle_data(f.subtype, payload.as_slice(), ack)
        }
    }

    fn handle_ctrl(&mut self, subtype: u8, ack: Option<Vec<u8>>) -> (r: Reaction)
        ensures
            forall|payload: Seq<u8>|
                (final(self)@, r@) == #[trigger] message_handled(
                    old(self)@,
                    old(self).cfg,
                    frame::PKG_CTRL,
                    subtype,
                    payload,
                    opt_bytes(ack),
                ),
            final(self).cfg == old(self).cfg,
    {
        if subtype == ftype::GET_WIFI_LIST {
            self.state = BluFiState::Scanning;
            Reaction { ack, burst: no_burst(), need: Need::Scan }
        } else {
            Reaction { ack, burst: no_burst(), need: Need::Nothing }
        }
    }

    fn handle_data(&mut self, subtype: u8, payload: &[u8], ack: Option<Vec<u8>>) -> (r: Reaction)
        ensures
            forall|pkg_type: u8|
                pkg_type != frame::PKG_CTRL ==> (final(self)@, r@) == #[trigger] message_handled(
                    old(self)@,
                    old(self).cfg,
                    pkg_type,
                    subtype,
                    payload@,
                    opt_bytes(ack),
                ),
            final(self).cfg == old(self).cfg,
    {
        if subtype == ftype::CUSTOM_DATA {
            match codec::parse_provisioning(payload) {
                Ok(p) => {
                    let burst: Burst = self.send_repeat(
                        ftype::CUSTOM_DATA,
                        codec::RECEIVED_MSG.as_bytes(),
                    );
                    self.state = BluFiState::Connecting;
                    let pwd: Option<String> = if p.pwd.as_str().is_empty() {
                        None
                    } else {
                        Some(p.pwd)
                    };
                    Reaction { ack, burst, need: Need::Connect { ssid: p.ssid, pwd } }
                },
                Err(_) => {
                    let bytes: Vec<u8> = self.send_frame(
                        frame::PKG_DATA,
                        ftype::CUSTOM_DATA,
                        fc::DIRECTION,
                        codec::FAILED_MSG.as_bytes(),
                    );
                    self.state = BluFiState::WaitApp;
                    Reaction { ack, burst: one_frame(bytes), need: Need::Nothing }
                },
            }
        } else {
            Reaction { ack, burst: no_burst(), need: Need::Nothing }
        }
    }

    /// A scan is over: the app is sent the networks, the strongest first, or an error where
    /// `found` is `None`.
    pub fn scan_done(&mut self, found: Option<Vec<ScanItem>>) -> (b: Burst)
        ensures
            byte_views(b.frames@) == wires(
                match found {
                    Some(items) => data_frames(
                        ftype::WIFI_LIST,
                        old(self)@.seq_out,
                        scan_data(old(self).cfg, codec::scan_views(items@)),
                    ),
                    None => seq![
                        data_frame(ftype::REPORT_ERROR, old(self)@.seq_out, seq![ERR_SCAN_FAILED]),
                    ],
                },
            ),
            b.pause_ms == 0,
            final(self)@.state == BluFiState::WaitApp,
            final(self)@.assembler == old(self)@.assembler,
            final(self)@.seq_out == match found {
                Some(items) => next_number(
                    data_frames(
                        ftype::WIFI_LIST,
                        old(self)@.seq_out,
                        scan_data(old(self).cfg, codec::scan_views(items@)),
                    ).last().sequence,
                ),
                None => next_number(old(self)@.seq_out),
            },
            final(self).cfg == old(self).cfg,
    {
        let b: Burst = match found {
            Some(items) => {
                let sorted: Vec<ScanItem> = sort_by_strength(items);
                let data: Vec<u8> = if self.cfg.scan_single_frame_bytes == 0 {
                    codec::encode_scan_list(sorted.as_slice())
                } else {
                    codec::encode_scan_list_fitting(
                        sorted.as_slice(),
                        self.cfg.scan_single_frame_bytes,
                    )
                };
                self.send_data(ftype::WIFI_LIST, data.as_slice())
            },
            None => {
                let mut data: Vec<u8> = Vec::new();
                data.push(ERR_SCAN_FAILED);
                assert(data@ =~= seq![ERR_SCAN_FAILED]);
                let ghost seq = self.seq_out;
                let bytes: Vec<u8> = self.send_frame(
                    frame::PKG_DATA,
                    ftype::REPORT_ERROR,
                    fc::DIRECTION,
                    data.as_slice(),
                );
                proof {
                    let f = data_frame(ftype::REPORT_ERROR, seq, seq![ERR_SCAN_FAILED]);
                    assert(wires(seq![f]) =~= seq![frame::wire(f)]);
                }
                one_frame(bytes)
            },
        };
        self.state = BluFiState::WaitApp;
        b
    }

    /// The device has joined the network, or has not, for the given reason: the app is told, and
    /// so is the owner.
    pub fn connect_done(&mut self, ssid: &str, failure: Option<&str>) -> (r: (Burst, BlufiEvent))
        ensures
            match failure {
                None => {
                    &&& byte_views(r.0.frames@) == wires(
                        data_frames(ftype::CONNECT_STATE, old(self)@.seq_out, seq![1u8, 0u8]),
                    )
                    &&& r.0.pause_ms == 0
                    &&& r.1 matches BlufiEvent::WifiConnected { ssid: s } && s@ == ssid@
                    &&& final(self)@ == (WorkerView {
                        seq_out: next_number(old(self)@.seq_out),
                        state: BluFiState::Finish,
                        ..old(self)@
                    })
                },
                Some(reason) => {
                    let n = repeat_count(old(self).cfg);
                    &&& byte_views(r.0.frames@) == wires(
                        repeated(
                            ftype::CUSTOM_DATA,
                            old(self)@.seq_out,
                            utf8::encode_utf8(codec::FAILED_MSG@),
                            n,
                        ),
                    )
                    &&& r.0.pause_ms == old(self).cfg.ack_interval_ms
                    &&& r.1 matches BlufiEvent::WifiFailed { reason: s } && s@ == reason@
                    &&& final(self)@ == (WorkerView {
                        seq_out: ((old(self)@.seq_out + n) % 256) as u8,
                        state: BluFiState::Failed,
                        ..old(self)@
                    })
                },
            },
            final(self).cfg == old(self).cfg,
    {
        match failure {
            None => {
                let st: Vec<u8> = codec::encode_connect_state(0);
                let b: Burst = self.send_data(ftype::CONNECT_STATE, st.as_slice());
                self.state = BluFiState::Finish;
                (b, BlufiEvent::WifiConnected { ssid: ssid.to_owned() })
            },
            Some(reason) => {
                let b: Burst = self.send_repeat(
                    ftype::CUSTOM_DATA,
                    codec::FAILED_MSG.as_bytes(),
                );
                self.state = BluFiState::Failed;
                (b, BlufiEvent::WifiFailed { reason: reason.to_owned() })
            },
        }
    }
}

/// Optional bytes by their contents.
pub open spec fn opt_bytes(b: Option<Vec<u8>>) -> Option<Seq<u8>> {
    match b {
        Some(v) => Some(v@),
        None => None,
    }
}

/// Networks in the order of their signals, the strongest first.
pub open spec fn falling(items: Seq<ScanView>) -> bool {
    forall|i: int, j: int| 0 <= i <= j < items.len() ==> items[i].rssi >= items[j].rssi
}

/// The networks with a given signal.
pub open spec fn with_strength(items: Seq<ScanView>, rssi: i8) -> Seq<ScanView> {
    items.filter(|i: ScanView| i.rssi == rssi)
}

proof fn lemma_with_strength_push(items: Seq<ScanView>, item: ScanView, rssi: i8)
    ensures
        with_strength(items.push(item), rssi) == if item.rssi == rssi {
            with_strength(items, rssi).push(item)
        } else {
            with_strength(items, rssi)
        },
{
    reveal(Seq::filter);
    assert(items.push(item).drop_last() =~= items);
}

proof fn lemma_placed_falling(items: Seq<ScanView>, item: ScanView)
    requires
        falling(items),
    ensures
        falling(placed(items, item)),
        placed(items, item).to_multiset() == items.to_multiset().insert(item),
        placed(items, item).last().rssi <= item.rssi,
        items.len() > 0 ==> placed(items, item).last().rssi <= items.last().rssi,
        forall|rssi: i8|
            #![trigger with_strength(placed(items, item), rssi)]
            with_strength(placed(items, item), rssi) == if item.rssi == rssi {
                with_strength(items, rssi).push(item)
            } else {
                with_strength(items, rssi)
            },
    decreases items.len(),
{
    broadcast use vstd::seq_lib::group_to_multiset_ensures;

    let after = placed(items, item);
    if items.len() > 0 && items.last().rssi < item.rssi {
        let front = items.drop_last();
        let weak = items.last();
        lemma_placed_falling(front, item);
        let before = placed(front, item);
        assert(front.push(weak) =~= items);
        assert(front.to_multiset().insert(weak) =~= items.to_multiset());
        assert(before.push(weak).to_multiset() =~= before.to_multiset().insert(weak));
        assert(after.to_multiset() =~= items.to_multiset().insert(item));
        assert forall|i: int, j: int| 0 <= i <= j < after.len() implies after[i].rssi
            >= after[j].rssi by {
            lemma_placed_members(front, item);
        }
        assert forall|rssi: i8|
            #![trigger with_strength(after, rssi)]
            with_strength(after, rssi) == if item.rssi == rssi {
                with_strength(items, rssi).push(item)
            } else {
                with_strength(items, rssi)
            } by {
            lemma_with_strength_push(before, weak, rssi);
            lemma_with_strength_push(front, weak, rssi);
            if weak.rssi == rssi {
                assert(item.rssi != rssi);
            }
        }
    } else {
        assert forall|rssi: i8|
            #![trigger with_strength(after, rssi)]
            with_strength(after, rssi) == if item.rssi == rssi {
                with_strength(items, rssi).push(item)
            } else {
                with_strength(items, rssi)
            } by {
            lemma_with_strength_push(items, item, rssi);
        }
    }
}

proof fn lemma_placed_members(items: Seq<ScanView>, item: ScanView)
    ensures
        forall|i: int|
            0 <= i < placed(items, item).len() ==> (#[trigger] placed(items, item)[i]) == item
                || items.contains(placed(items, item)[i]),
    decreases items.len(),
{
    let after = placed(items, item);
    assert forall|i: int| 0 <= i < after.len() implies (#[trigger] after[i]) == item
        || items.contains(after[i]) by {
        if items.len() > 0 && items.last().rssi < item.rssi {
            let front = items.drop_last();
            lemma_placed_members(front, item);
            let before = placed(front, item);
            if i < before.len() {
                assert(after[i] == before[i]);
                if before[i] != item {
                    let k = choose|k: int| 0 <= k < front.len() && front[k] == before[i];
                    assert(items[k] == after[i]);
                }
            } else {
                assert(after[i] == items[items.len() - 1]);
            }
        } else if i < items.len() {
            assert(after[i] == items[i]);
        }
    }
}

/// What the app is sent of a scan are the networks that were found, the strongest first; those
/// with the same signal are in the order in which they were found.
pub proof fn law_strongest_first(items: Seq<ScanView>)
    ensures
        falling(strongest_first(items)),
        strongest_first(items).to_multiset() == items.to_multiset(),
        forall|rssi: i8|
            with_strength(#[trigger] strongest_first(items), rssi) == with_strength(items, rssi),
    decreases items.len(),
{
    broadcast use vstd::seq_lib::group_to_multiset_ensures;

    if items.len() > 0 {
        let front = items.drop_last();
        law_strongest_first(front);
        lemma_placed_falling(strongest_first(front), items.last());
        assert(front.push(items.last()) =~= items);
        assert forall|rssi: i8|
            with_strength(#[trigger] strongest_first(items), rssi) == with_strength(items, rssi) by {
            lemma_with_strength_push(front, items.last(), rssi);
            assert(with_strength(strongest_first(front), rssi) == with_strength(front, rssi));
        }
    }
}

/// The numbers of the frames run on: each frame of a message has the number after that of the
/// frame before it, and the next message goes on from there. (An app drops a frame whose number
/// it does not expect.)
pub proof fn law_numbers_run_on(subtype: u8, seq: u8, data: Seq<u8>)
    ensures
        ({
            let frames = data_frames(subtype, seq, data);
            &&& frames.len() >= 1
            &&& forall|i: int|
                0 <= i < frames.len() ==> (#[trigger] frames[i]).sequence == (seq + i) % 256
            &&& next_number(frames.last().sequence) == (seq + frames.len()) % 256
        }),
{
    frame::law_split_frames_shape(frame::PKG_DATA, subtype, fc::DIRECTION, seq, data, 255);
}

/// What the bytes of several frames of the app lead to, one after another.
pub open spec fn frames_handled(w: WorkerView, cfg: BluFiConfig, raws: Seq<Seq<u8>>) -> (
    WorkerView,
    Seq<ReactionView>,
)
    decreases raws.len(),
{
    if raws.len() == 0 {
        (w, Seq::empty())
    } else {
        let (next, first) = frame_handled(w, cfg, raws[0]);
        let (last, rest) = frames_handled(next, cfg, raws.drop_first());
        (last, seq![first] + rest)
    }
}

proof fn lemma_fragments_handled(
    w: WorkerView,
    cfg: BluFiConfig,
    pkg_type: u8,
    subtype: u8,
    frames: Seq<FrameView>,
    data: Seq<u8>,
)
    requires
        pkg_type < 4,
        subtype < 64,
        frames.len() >= 1,
        forall|i: int|
            0 <= i < frames.len() ==> {
                &&& (#[trigger] frames[i]).data.len() <= 255
                &&& frames[i].pkg_type == pkg_type
                &&& frames[i].subtype == subtype
            },
        ({
            let (end, outs) = frame::fed_all(w.assembler, frames);
            &&& end == frame::idle_assembler()
            &&& outs.len() == frames.len()
            &&& outs.last() == Ok::<Option<Seq<u8>>, FrameError>(Some(data))
            &&& forall|i: int|
                0 <= i < outs.len() - 1 ==> #[trigger] outs[i] == Ok::<
                    Option<Seq<u8>>,
                    FrameError,
                >(None)
        }),
    ensures
        ({
            let (end, all) = frames_handled(w, cfg, wires(frames));
            &&& all.len() == frames.len()
            &&& (end, all.last()) == message_handled(
                WorkerView { assembler: frame::idle_assembler(), ..w },
                cfg,
                pkg_type,
                subtype,
                data,
                ack_of(frames.last()),
            )
            &&& forall|i: int|
                0 <= i < all.len() - 1 ==> #[trigger] all[i] == no_reaction(ack_of(frames[i]))
        }),
    decreases frames.len(),
{
    let f = frames[0];
    let raws = wires(frames);
    frame::law_decode_of_encode(f);
    assert(raws[0] == frame::wire(f));
    let (a, out) = frame::fed(w.assembler, f);
    let rest = frames.drop_first();
    let (end, outs) = frame::fed_all(w.assembler, frames);
    let (rest_end, rest_outs) = frame::fed_all(a, rest);
    assert(outs =~= seq![out] + rest_outs);
    assert(outs[0] == out);
    assert(raws.drop_first() =~= wires(rest));
    let (next, first) = frame_handled(w, cfg, raws[0]);
    if frames.len() == 1 {
        assert(rest =~= Seq::<FrameView>::empty());
        assert(frames.last() == f);
        assert(frames_handled(next, cfg, raws.drop_first()).1 =~= Seq::<ReactionView>::empty());
        let (e, all) = frames_handled(w, cfg, raws);
        assert(all =~= seq![first]);
    } else {
        assert(rest_outs.len() == rest.len());
        assert forall|i: int| 0 <= i < rest_outs.len() - 1 implies #[trigger] rest_outs[i] == Ok::<
            Option<Seq<u8>>,
            FrameError,
        >(None) by {
            assert(outs[i + 1] == rest_outs[i]);
        }
        assert(outs.last() == rest_outs.last());
        lemma_fragments_handled(next, cfg, pkg_type, subtype, rest, data);
        let (e, all) = frames_handled(w, cfg, raws);
        let (re, rall) = frames_handled(next, cfg, wires(rest));
        assert(all =~= seq![first] + rall);
        assert(all.last() == rall.last());
        assert(rest.last() == frames.last());
        assert forall|i: int| 0 <= i < all.len() - 1 implies #[trigger] all[i] == no_reaction(
            ack_of(frames[i]),
        ) by {
            if i > 0 {
                assert(all[i] == rall[i - 1]);
                assert(rest[i - 1] == frames[i]);
            }
        }
    }
}

/// A message that the app sends in fragments leads to what the same message leads to in one
/// frame: the fragments before the last are at most acknowledged, and the last completes it.
pub proof fn law_fragments_are_one_message(
    w: WorkerView,
    cfg: BluFiConfig,
    pkg_type: u8,
    subtype: u8,
    frame_ctrl: u8,
    base_seq: u8,
    data: Seq<u8>,
    max_payload: int,
)
    requires
        w.assembler == frame::idle_assembler(),
        pkg_type < 4,
        subtype < 64,
        frame_ctrl & fc::FRAGMENTED == 0,
        max_payload > 0 || data.len() == 0 && max_payload == 0,
        data.len() < 65536,
    ensures
        ({
            let frames = frame::split_frames(
                pkg_type,
                subtype,
                frame_ctrl,
                base_seq,
                data,
                max_payload,
            );
            let (end, all) = frames_handled(w, cfg, wires(frames));
            &&& all.len() == frames.len()
            &&& (end, all.last()) == message_handled(
                w,
                cfg,
                pkg_type,
                subtype,
                data,
                ack_of(frames.last()),
            )
            &&& forall|i: int|
                0 <= i < all.len() - 1 ==> #[trigger] all[i] == no_reaction(ack_of(frames[i]))
        }),
{
    let frames = frame::split_frames(pkg_type, subtype, frame_ctrl, base_seq, data, max_payload);
    frame::law_split_frames_shape(pkg_type, subtype, frame_ctrl, base_seq, data, max_payload);
    frame::law_reassembly(pkg_type, subtype, frame_ctrl, base_seq, data, max_payload);
    lemma_fragments_handled(w, cfg, pkg_type, subtype, frames, data);
}

/// The network that the app sends is the one that is joined: whatever size the app cuts its message
/// into, the last fragment makes the worker ask for that network with that password, and for none
/// where there is no password.
pub proof fn law_sent_network_is_joined(
    w: WorkerView,
    cfg: BluFiConfig,
    ssid: Seq<char>,
    pwd: Seq<char>,
    frame_ctrl: u8,
    base_seq: u8,
    max_payload: int,
)
    requires
        w.assembler == frame::idle_assembler(),
        codec::carried(ssid),
        codec::carried(pwd),
        frame_ctrl & fc::FRAGMENTED == 0,
        max_payload > 0,
        utf8::encode_utf8(codec::network_text(ssid, pwd)).len() < 65536,
    ensures
        ({
            let frames = frame::split_frames(
                frame::PKG_DATA,
                ftype::CUSTOM_DATA,
                frame_ctrl,
                base_seq,
                utf8::encode_utf8(codec::network_text(ssid, pwd)),
                max_payload,
            );
            let (end, all) = frames_handled(w, cfg, wires(frames));
            &&& end.state == BluFiState::Connecting
            &&& all.last().need == NeedView::Connect {
                ssid,
                pwd: if pwd.len() == 0 {
                    None
                } else {
                    Some(pwd)
                },
            }
        }),
{
    let words = codec::network_text(ssid, pwd);
    let none = Seq::<char>::empty();
    codec::law_provisioning_is_read(ssid, pwd, none);
    assert(words + none =~= words);
    utf8::encode_utf8_valid_utf8(words);
    utf8::encode_utf8_decode_utf8(words);
    law_fragments_are_one_message(
        w,
        cfg,
        frame::PKG_DATA,
        ftype::CUSTOM_DATA,
        frame_ctrl,
        base_seq,
        utf8::encode_utf8(words),
        max_payload,
    );
}

/// Data that is sent, a list of networks say, reaches the app whole: the app decodes every frame, and
/// puts the fragments together to what was sent.
pub proof fn law_sent_data_is_whole(subtype: u8, seq: u8, data: Seq<u8>)
    requires
        subtype < 64,
        data.len() < 65536,
    ensures
        ({
            let frames = data_frames(subtype, seq, data);
            let (end, outs) = frame::fed_all(frame::idle_assembler(), frames);
            &&& forall|i: int|
                0 <= i < frames.len() ==> #[trigger] frame::decoded(wires(frames)[i]) == Ok::<
                    FrameView,
                    FrameError,
                >(frames[i])
            &&& outs.last() == Ok::<Option<Seq<u8>>, FrameError>(Some(data))
            &&& end == frame::idle_assembler()
        }),
{
    let frames = data_frames(subtype, seq, data);
    assert(fc::DIRECTION & fc::FRAGMENTED == 0) by (bit_vector);
    frame::law_split_frames_shape(frame::PKG_DATA, subtype, fc::DIRECTION, seq, data, 255);
    frame::law_reassembly(frame::PKG_DATA, subtype, fc::DIRECTION, seq, data, 255);
    assert forall|i: int| 0 <= i < frames.len() implies #[trigger] frame::decoded(
        wires(frames)[i],
    ) == Ok::<FrameView, FrameError>(frames[i]) by {
        frame::law_decode_of_encode(frames[i]);
    }
}

} // verus!
