//! The BluFi frame: wire format, checksum, fragmentation and reassembly.
//!
//! A frame on the wire is `[type][frame_ctrl][sequence][data_len][data..]`, followed by a
//! little-endian checksum when `frame_ctrl` has [`fc::HAS_CHECKSUM`].

use crate::blufi::fc;
use crate::blufi::ftype;
use vstd::prelude::*;

verus! {

pub const PKG_CTRL: u8 = 0x00;

pub const PKG_DATA: u8 = 0x01;

/// The type byte as a number: the function code above the two bits of the package type.
pub open spec fn type_code(pkg_type: u8, subtype: u8) -> int {
    (subtype as int % 64) * 4 + pkg_type as int % 4
}

/// The type byte is `(subtype << 2) | pkg_type`; the function code is not the byte itself.
pub fn type_byte(pkg_type: u8, subtype: u8) -> (t: u8)
    ensures
        t == type_code(pkg_type, subtype),
{
    assert(((subtype << 2) | (pkg_type & 0x03)) == (subtype % 64) * 4 + pkg_type % 4)
        by (bit_vector);
    (subtype << 2) | (pkg_type & 0x03)
}

/// Package type and function code of a type byte.
pub fn split_type(t: u8) -> (parts: (u8, u8))
    ensures
        parts.0 == t as int % 4,
        parts.1 == t as int / 4,
{
    assert((t & 0x03) == t % 4 && ((t >> 2) & 0x3F) == t / 4) by (bit_vector);
    (t & 0x03, (t >> 2) & 0x3F)
}

/// The package type and the function code are recovered from the byte made of them, and every
/// byte is the one made of its own two parts.
pub proof fn law_type_byte_splits(pkg_type: u8, subtype: u8, t: u8)
    requires
        pkg_type < 4,
        subtype < 64,
    ensures
        type_code(pkg_type, subtype) % 4 == pkg_type,
        type_code(pkg_type, subtype) / 4 == subtype,
        type_code((t as int % 4) as u8, (t as int / 4) as u8) == t,
{
}

#[derive(Debug, Clone, Copy, PartialEq, Eq, Structural)]
pub enum FrameError {
    TooShort,
    BadType,
    LenMismatch { expect: usize, actual: usize },
    ChecksumMismatch { got: u16, calc: u16 },
}

/// One BluFi frame.
#[derive(Debug, Clone)]
pub struct BluFiFrame {
    /// [`PKG_CTRL`] or [`PKG_DATA`].
    pub pkg_type: u8,
    /// A function code, see [`ftype`].
    pub subtype: u8,
    /// See [`fc`].
    pub frame_ctrl: u8,
    pub sequence: u8,
    pub data: Vec<u8>,
}

/// The contents of a frame.
#[verifier::ext_equal]
pub struct FrameView {
    pub pkg_type: u8,
    pub subtype: u8,
    pub frame_ctrl: u8,
    pub sequence: u8,
    pub data: Seq<u8>,
}

impl View for BluFiFrame {
    type V = FrameView;

    open spec fn view(&self) -> FrameView {
        FrameView {
            pkg_type: self.pkg_type,
            subtype: self.subtype,
            frame_ctrl: self.frame_ctrl,
            sequence: self.sequence,
            data: self.data@,
        }
    }
}

/// The contents of a list of frames.
pub open spec fn frame_views(frames: Seq<BluFiFrame>) -> Seq<FrameView> {
    frames.map_values(|f: BluFiFrame| f@)
}

/// A number as its low and its high byte.
pub open spec fn le16(x: int) -> Seq<u8> {
    seq![(x % 256) as u8, (x / 256 % 256) as u8]
}

/// One bit of the CRC division: shift, and subtract the polynomial when a one falls out.
pub open spec fn crc_round(crc: u16) -> u16 {
    if crc & 0x8000 != 0 {
        (crc << 1) ^ 0x1021
    } else {
        crc << 1
    }
}

/// `n` bits of the CRC division.
pub open spec fn crc_rounds(crc: u16, n: nat) -> u16
    decreases n,
{
    if n == 0 {
        crc
    } else {
        crc_round(crc_rounds(crc, (n - 1) as nat))
    }
}

/// The CRC register after the bytes of `bytes`, high bit first.
pub open spec fn crc_over(crc: u16, bytes: Seq<u8>) -> u16
    decreases bytes.len(),
{
    if bytes.len() == 0 {
        crc
    } else {
        crc_rounds(crc_over(crc, bytes.drop_last()) ^ ((bytes.last() as u16) << 8), 8)
    }
}

/// CRC-16/CCITT (polynomial 0x1021, initial value 0xFFFF) over sequence, length and data.
pub open spec fn checksum_of(seq: u8, len: u8, data: Seq<u8>) -> u16 {
    crc_over(0xFFFF, seq![seq, len] + data)
}

fn crc_feed(crc: u16, b: u8) -> (r: u16)
    ensures
        r == crc_rounds(crc ^ ((b as u16) << 8), 8),
{
    let mut c: u16 = crc ^ ((b as u16) << 8);
    let ghost start = c;
    let mut n: u8 = 0;
    while n < 8
        invariant
            n <= 8,
            c == crc_rounds(start, n as nat),
        decreases 8 - n,
    {
        if c & 0x8000 != 0 {
            c = (c << 1) ^ 0x1021;
        } else {
            c = c << 1;
        }
        n += 1;
    }
    c
}

/// The checksum covers the sequence, the length byte and the plain data.
pub fn checksum(seq: u8, len: u8, data: &[u8]) -> (crc: u16)
    ensures
        crc == checksum_of(seq, len, data@),
{
    proof {
        reveal_with_fuel(crc_over, 3);
        assert(seq![seq, len].drop_last() =~= seq![seq]);
        assert(seq![seq].drop_last() =~= Seq::<u8>::empty());
        assert(data@.take(0) =~= Seq::<u8>::empty());
        assert(seq![seq, len] + data@.take(0) =~= seq![seq, len]);
    }
    let mut crc: u16 = crc_feed(crc_feed(0xFFFF, seq), len);
    let mut i: usize = 0;
    while i < data.len()
        invariant
            i <= data@.len(),
            crc == crc_over(0xFFFF, seq![seq, len] + data@.take(i as int)),
        decreases data@.len() - i,
    {
        proof {
            let longer = seq![seq, len] + data@.take(i as int + 1);
            assert(longer.drop_last() =~= seq![seq, len] + data@.take(i as int));
            assert(longer.last() == data@[i as int]);
        }
        crc = crc_feed(crc, data[i]);
        i += 1;
    }
    assert(data@.take(i as int) =~= data@);
    crc
}

/// The bytes of a frame on the wire. The length byte holds the length modulo 256.
pub open spec fn wire(f: FrameView) -> Seq<u8> {
    let len = (f.data.len() % 256) as u8;
    seq![type_code(f.pkg_type, f.subtype) as u8, f.frame_ctrl, f.sequence, len] + f.data + if f.frame_ctrl
        & fc::HAS_CHECKSUM != 0 {
        le16(checksum_of(f.sequence, len, f.data) as int)
    } else {
        Seq::empty()
    }
}

/// What the bytes `raw` decode to.
pub open spec fn decoded(raw: Seq<u8>) -> Result<FrameView, FrameError> {
    if raw.len() < 4 {
        Err(FrameError::TooShort)
    } else {
        let has_cs = raw[1] & fc::HAS_CHECKSUM != 0;
        let body_end = if has_cs {
            raw.len() - 2
        } else {
            raw.len() as int
        };
        let data = raw.subrange(4, body_end);
        let got = (raw[body_end] + raw[body_end + 1] * 256) as u16;
        let calc = checksum_of(raw[2], raw[3], data);
        if body_end < 4 {
            Err(FrameError::TooShort)
        } else if body_end - 4 != raw[3] {
            Err(
                FrameError::LenMismatch { expect: raw[3] as usize, actual: (body_end - 4) as usize },
            )
        } else if has_cs && got != calc {
            Err(FrameError::ChecksumMismatch { got, calc })
        } else {
            Ok(
                FrameView {
                    pkg_type: (raw[0] as int % 4) as u8,
                    subtype: (raw[0] as int / 4) as u8,
                    frame_ctrl: raw[1],
                    sequence: raw[2],
                    data,
                },
            )
        }
    }
}

impl BluFiFrame {
    pub fn new(pkg_type: u8, subtype: u8, frame_ctrl: u8, sequence: u8, data: Vec<u8>) -> (f: Self)
        ensures
            f@ == (FrameView { pkg_type, subtype, frame_ctrl, sequence, data: data@ }),
    {
        Self { pkg_type, subtype, frame_ctrl, sequence, data }
    }

    pub fn type_byte(&self) -> (t: u8)
        ensures
            t == type_code(self.pkg_type, self.subtype),
    {
        type_byte(self.pkg_type, self.subtype)
    }

    pub fn needs_ack(&self) -> (b: bool)
        ensures
            b == (self.frame_ctrl & fc::NEED_ACK != 0),
    {
        self.frame_ctrl & fc::NEED_ACK != 0
    }

    /// Decodes one frame; the checksum is read only with [`fc::HAS_CHECKSUM`].
    pub fn decode(raw: &[u8]) -> (r: Result<BluFiFrame, FrameError>)
        ensures
            match r {
                Ok(f) => decoded(raw@) == Ok::<FrameView, FrameError>(f@),
                Err(e) => decoded(raw@) == Err::<FrameView, FrameError>(e),
            },
    {
        if raw.len() < 4 {
            return Err(FrameError::TooShort);
        }
        let (pkg_type, subtype) = split_type(raw[0]);
        let frame_ctrl: u8 = raw[1];
        let sequence: u8 = raw[2];
        let data_len: usize = raw[3] as usize;
        let has_cs: bool = frame_ctrl & fc::HAS_CHECKSUM != 0;
        let body_end: usize = if has_cs {
            raw.len() - 2
        } else {
            raw.len()
        };
        if body_end < 4 {
            return Err(FrameError::TooShort);
        }
        let data: &[u8] = vstd::slice::slice_subrange(raw, 4, body_end);
        if data.len() != data_len {
            return Err(FrameError::LenMismatch { expect: data_len, actual: data.len() });
        }
        if has_cs {
            let got: u16 = raw[body_end] as u16 + raw[body_end + 1] as u16 * 256;
            let calc: u16 = checksum(sequence, raw[3], data);
            if got != calc {
                return Err(FrameError::ChecksumMismatch { got, calc });
            }
        }
        Ok(
            BluFiFrame {
                pkg_type,
                subtype,
                frame_ctrl,
                sequence,
                data: vstd::slice::slice_to_vec(data),
            },
        )
    }

    /// Encodes the frame, with the checksum behind it when [`fc::HAS_CHECKSUM`] is set.
    pub fn encode(&self) -> (v: Vec<u8>)
        ensures
            v@ == wire(self@),
    {
        let len_byte: u8 = (self.data.len() % 256) as u8;
        let mut v: Vec<u8> = Vec::with_capacity(8);
        v.push(self.type_byte());
        v.push(self.frame_ctrl);
        v.push(self.sequence);
        v.push(len_byte);
        v.extend_from_slice(self.data.as_slice());
        if self.frame_ctrl & fc::HAS_CHECKSUM != 0 {
            let cs: u16 = checksum(self.sequence, len_byte, self.data.as_slice());
            v.push((cs % 256) as u8);
            v.push((cs / 256) as u8);
        }
        assert(v@ =~= wire(self@));
        v
    }
}

/// Decoding what a frame encodes to gives the frame back, as long as the data fits the length
/// byte and the two type fields fit their bits.
pub proof fn law_decode_of_encode(f: FrameView)
    requires
        f.pkg_type < 4,
        f.subtype < 64,
        f.data.len() < 256,
    ensures
        decoded(wire(f)) == Ok::<FrameView, FrameError>(f),
{
    let raw = wire(f);
    let has_cs = f.frame_ctrl & fc::HAS_CHECKSUM != 0;
    let body_end = if has_cs {
        raw.len() - 2
    } else {
        raw.len() as int
    };
    assert(raw.subrange(4, body_end) =~= f.data);
    if has_cs {
        let cs = checksum_of(f.sequence, f.data.len() as u8, f.data);
        assert(raw[body_end] == (cs as int % 256) as u8);
        assert(raw[body_end + 1] == (cs as int / 256 % 256) as u8);
    }
}

/// Encoding what some bytes decode to gives the bytes back.
pub proof fn law_encode_of_decode(raw: Seq<u8>)
    requires
        decoded(raw) is Ok,
    ensures
        wire(decoded(raw)->Ok_0) == raw,
{
    let f = decoded(raw)->Ok_0;
    assert(f.data.len() == raw[3]);
    assert(wire(f) =~= raw);
}

/// Collects the fragments of one logical payload.
///
/// The first fragment has [`fc::FRAGMENTED`] and starts with the little-endian total length;
/// the following ones carry only data.
pub struct FragmentAssembler {
    total: Option<usize>,
    buf: Vec<u8>,
}

/// The state of an assembler: the announced total, and what has been collected for it.
#[verifier::ext_equal]
pub struct AssemblerView {
    pub total: Option<usize>,
    pub buf: Seq<u8>,
}

impl View for FragmentAssembler {
    type V = AssemblerView;

    closed spec fn view(&self) -> AssemblerView {
        AssemblerView { total: self.total, buf: self.buf@ }
    }
}

/// An assembler that waits for a payload.
pub open spec fn idle_assembler() -> AssemblerView {
    AssemblerView { total: None, buf: Seq::empty() }
}

/// The assembler after one frame, and what feeding that frame returns.
pub open spec fn fed(a: AssemblerView, f: FrameView) -> (
    AssemblerView,
    Result<Option<Seq<u8>>, FrameError>,
) {
    if f.frame_ctrl & fc::FRAGMENTED != 0 {
        if f.data.len() < 2 {
            (a, Err(FrameError::TooShort))
        } else if a.total is None {
            (
                AssemblerView {
                    total: Some((f.data[0] + f.data[1] * 256) as usize),
                    buf: f.data.skip(2),
                },
                Ok(None),
            )
        } else {
            (AssemblerView { buf: a.buf + f.data.skip(2), ..a }, Ok(None))
        }
    } else {
        match a.total {
            None => (a, Ok(Some(f.data))),
            Some(total) => {
                let buf = a.buf + f.data;
                if buf.len() >= total {
                    (idle_assembler(), Ok(Some(buf.take(total as int))))
                } else {
                    (AssemblerView { buf, ..a }, Ok(None))
                }
            },
        }
    }
}

/// The assembler after all of `frames`, and what it returned for each.
pub open spec fn fed_all(a: AssemblerView, frames: Seq<FrameView>) -> (
    AssemblerView,
    Seq<Result<Option<Seq<u8>>, FrameError>>,
)
    decreases frames.len(),
{
    if frames.len() == 0 {
        (a, Seq::empty())
    } else {
        let (next, first) = fed(a, frames[0]);
        let (last, rest) = fed_all(next, frames.drop_first());
        (last, seq![first] + rest)
    }
}

/// A returned payload by its contents.
pub open spec fn payload_view(r: Result<Option<Vec<u8>>, FrameError>) -> Result<
    Option<Seq<u8>>,
    FrameError,
> {
    match r {
        Ok(Some(v)) => Ok(Some(v@)),
        Ok(None) => Ok(None),
        Err(e) => Err(e),
    }
}

impl FragmentAssembler {
    pub fn new() -> (a: Self)
        ensures
            a@ == idle_assembler(),
    {
        Self { total: None, buf: Vec::new() }
    }

    /// Takes one frame: the whole payload once it is complete, `None` before that.
    pub fn feed(&mut self, f: &BluFiFrame) -> (r: Result<Option<Vec<u8>>, FrameError>)
        ensures
            final(self)@ == fed(old(self)@, f@).0,
            payload_view(r) == fed(old(self)@, f@).1,
    {
        if f.frame_ctrl & fc::FRAGMENTED != 0 {
            if f.data.len() < 2 {
                return Err(FrameError::TooShort);
            }
            if self.total.is_none() {
                let total: usize = f.data[0] as usize + f.data[1] as usize * 256;
                self.total = Some(total);
                self.buf.clear();
            }
            let rest: &[u8] = vstd::slice::slice_subrange(f.data.as_slice(), 2, f.data.len());
            self.buf.extend_from_slice(rest);
            assert(self.buf@ =~= fed(old(self)@, f@).0.buf);
            Ok(None)
        } else {
            match self.total {
                None => {
                    let out: Vec<u8> = vstd::slice::slice_to_vec(f.data.as_slice());
                    Ok(Some(out))
                },
                Some(total) => {
                    self.buf.extend_from_slice(f.data.as_slice());
                    assert(self.buf@ =~= old(self)@.buf + f.data@);
                    if self.buf.len() >= total {
                        let out: Vec<u8> = vstd::slice::slice_to_vec(
                            vstd::slice::slice_subrange(self.buf.as_slice(), 0, total),
                        );
                        self.total = None;
                        self.buf.clear();
                        Ok(Some(out))
                    } else {
                        Ok(None)
                    }
                },
            }
        }
    }
}

impl Default for FragmentAssembler {
    fn default() -> (a: Self)
        ensures
            a@ == idle_assembler(),
    {
        Self::new()
    }
}

/// The continuation frames that carry `rest`, at most `cap` bytes each.
pub open spec fn continuation(
    pkg_type: u8,
    subtype: u8,
    frame_ctrl: u8,
    sequence: u8,
    rest: Seq<u8>,
    cap: int,
) -> Seq<FrameView>
    decreases rest.len(),
{
    if rest.len() == 0 || cap <= 0 {
        Seq::empty()
    } else {
        let n = if cap < rest.len() {
            cap
        } else {
            rest.len() as int
        };
        seq![FrameView { pkg_type, subtype, frame_ctrl, sequence, data: rest.take(n) }]
            + continuation(
            pkg_type,
            subtype,
            frame_ctrl,
            ((sequence + 1) % 256) as u8,
            rest.skip(n),
            cap,
        )
    }
}

/// How many data bytes a frame carries at most: what the caller allows, and never more than the
/// length byte can say.
pub open spec fn frame_cap(max_payload: int) -> int {
    if max_payload < 255 {
        max_payload
    } else {
        255
    }
}

/// How many payload bytes the first of several fragments carries.
pub open spec fn first_cap(max_payload: int) -> int {
    if frame_cap(max_payload) < 2 {
        0
    } else {
        frame_cap(max_payload) - 2
    }
}

/// The frames of one payload: a single frame where it fits, else a first fragment with the total
/// length in front and continuation frames behind it.
pub open spec fn split_frames(
    pkg_type: u8,
    subtype: u8,
    frame_ctrl: u8,
    base_seq: u8,
    data: Seq<u8>,
    max_payload: int,
) -> Seq<FrameView> {
    let cap = frame_cap(max_payload);
    if data.len() <= cap {
        seq![FrameView { pkg_type, subtype, frame_ctrl, sequence: base_seq, data }]
    } else {
        let n = first_cap(max_payload);
        seq![
            FrameView {
                pkg_type,
                subtype,
                frame_ctrl: frame_ctrl | fc::FRAGMENTED,
                sequence: base_seq,
                data: le16(data.len() as int) + data.take(n),
            },
        ] + continuation(
            pkg_type,
            subtype,
            frame_ctrl,
            ((base_seq + 1) % 256) as u8,
            data.skip(n),
            cap,
        )
    }
}

/// Cuts one logical payload into frames with consecutive sequence numbers.
///
/// The length byte of a frame is one byte, so no frame carries more than 255 bytes, whatever
/// the caller allows.
pub fn split_for_tx(
    pkg_type: u8,
    subtype: u8,
    frame_ctrl: u8,
    base_seq: u8,
    data: &[u8],
    max_payload: usize,
) -> (frames: Vec<BluFiFrame>)
    requires
        max_payload > 0 || data@.len() == 0,
    ensures
        frame_views(frames@) == split_frames(
            pkg_type,
            subtype,
            frame_ctrl,
            base_seq,
            data@,
            max_payload as int,
        ),
{
    let cap: usize = if max_payload < 255 {
        max_payload
    } else {
        255
    };
    let mut frames: Vec<BluFiFrame> = Vec::new();
    let ghost whole = split_frames(
        pkg_type,
        subtype,
        frame_ctrl,
        base_seq,
        data@,
        max_payload as int,
    );
    if data.len() <= cap {
        frames.push(
            BluFiFrame::new(
                pkg_type,
                subtype,
                frame_ctrl,
                base_seq,
                vstd::slice::slice_to_vec(data),
            ),
        );
        assert(frame_views(frames@) =~= whole);
        return frames;
    }
    let first_len: usize = if cap < 2 {
        0
    } else {
        cap - 2
    };
    let mut chunk: Vec<u8> = Vec::new();
    chunk.push((data.len() % 256) as u8);
    chunk.push((data.len() / 256 % 256) as u8);
    chunk.extend_from_slice(vstd::slice::slice_subrange(data, 0, first_len));
    assert(chunk@ =~= le16(data@.len() as int) + data@.take(first_len as int));
    frames.push(BluFiFrame::new(pkg_type, subtype, frame_ctrl | fc::FRAGMENTED, base_seq, chunk));
    let mut seq: u8 = base_seq.wrapping_add(1);
    let mut offset: usize = first_len;
    proof {
        assert(frame_views(frames@) =~= seq![whole[0]]);
        assert(whole =~= frame_views(frames@) + continuation(
            pkg_type,
            subtype,
            frame_ctrl,
            seq,
            data@.skip(offset as int),
            cap as int,
        ));
    }
    while offset < data.len()
        invariant
            0 < cap <= 255,
            offset <= data@.len(),
            whole == frame_views(frames@) + continuation(
                pkg_type,
                subtype,
                frame_ctrl,
                seq,
                data@.skip(offset as int),
                cap as int,
            ),
        decreases data@.len() - offset,
    {
        let ghost before = frames@;
        let ghost rest = data@.skip(offset as int);
        let end: usize = if data.len() - offset < cap {
            data.len()
        } else {
            offset + cap
        };
        let part: Vec<u8> = vstd::slice::slice_to_vec(
            vstd::slice::slice_subrange(data, offset, end),
        );
        assert(part@ =~= rest.take(end - offset));
        assert(data@.skip(end as int) =~= rest.skip(end - offset));
        frames.push(BluFiFrame::new(pkg_type, subtype, frame_ctrl, seq, part));
        proof {
            let tail = continuation(
                pkg_type,
                subtype,
                frame_ctrl,
                ((seq + 1) % 256) as u8,
                data@.skip(end as int),
                cap as int,
            );
            assert(frame_views(frames@) =~= frame_views(before).push(frames@.last()@));
            assert(frame_views(before) + (seq![frames@.last()@] + tail) =~= frame_views(frames@)
                + tail);
        }
        seq = seq.wrapping_add(1);
        offset = end;
    }
    assert(data@.skip(offset as int) =~= Seq::<u8>::empty());
    assert(whole =~= frame_views(frames@));
    frames
}

proof fn lemma_continuation_shape(
    pkg_type: u8,
    subtype: u8,
    frame_ctrl: u8,
    sequence: u8,
    rest: Seq<u8>,
    cap: int,
)
    requires
        0 < cap <= 255,
    ensures
        ({
            let frames = continuation(pkg_type, subtype, frame_ctrl, sequence, rest, cap);
            forall|i: int|
                0 <= i < frames.len() ==> {
                    &&& (#[trigger] frames[i]).sequence == (sequence + i) % 256
                    &&& 0 < frames[i].data.len() <= cap
                    &&& frames[i].pkg_type == pkg_type
                    &&& frames[i].subtype == subtype
                    &&& frames[i].frame_ctrl == frame_ctrl
                }
        }),
    decreases rest.len(),
{
    if rest.len() > 0 {
        let n = if cap < rest.len() {
            cap
        } else {
            rest.len() as int
        };
        let next = ((sequence + 1) % 256) as u8;
        let tail = continuation(pkg_type, subtype, frame_ctrl, next, rest.skip(n), cap);
        lemma_continuation_shape(pkg_type, subtype, frame_ctrl, next, rest.skip(n), cap);
        let frames = continuation(pkg_type, subtype, frame_ctrl, sequence, rest, cap);
        assert forall|i: int| 0 <= i < frames.len() implies {
            &&& (#[trigger] frames[i]).sequence == (sequence + i) % 256
            &&& 0 < frames[i].data.len() <= cap
            &&& frames[i].pkg_type == pkg_type
            &&& frames[i].subtype == subtype
            &&& frames[i].frame_ctrl == frame_ctrl
        } by {
            if i > 0 {
                assert(frames[i] == tail[i - 1]);
            }
        }
    }
}

/// The frames of a payload have consecutive sequence numbers, each fits the length byte, and
/// only the first of several is marked as fragmented.
pub proof fn law_split_frames_shape(
    pkg_type: u8,
    subtype: u8,
    frame_ctrl: u8,
    base_seq: u8,
    data: Seq<u8>,
    max_payload: int,
)
    requires
        max_payload > 0 || data.len() == 0 && max_payload == 0,
    ensures
        ({
            let frames = split_frames(
                pkg_type,
                subtype,
                frame_ctrl,
                base_seq,
                data,
                max_payload,
            );
            &&& frames.len() >= 1
            &&& forall|i: int|
                0 <= i < frames.len() ==> {
                    &&& (#[trigger] frames[i]).sequence == (base_seq + i) % 256
                    &&& frames[i].data.len() <= 255
                    &&& frames[i].pkg_type == pkg_type
                    &&& frames[i].subtype == subtype
                    &&& frames[i].frame_ctrl == if i == 0 && frames.len() > 1 {
                        frame_ctrl | fc::FRAGMENTED
                    } else {
                        frame_ctrl
                    }
                }
        }),
{
    let cap = frame_cap(max_payload);
    if data.len() > cap {
        let n = first_cap(max_payload);
        let next = ((base_seq + 1) % 256) as u8;
        let tail = continuation(pkg_type, subtype, frame_ctrl, next, data.skip(n), cap);
        lemma_continuation_shape(pkg_type, subtype, frame_ctrl, next, data.skip(n), cap);
        let frames = split_frames(pkg_type, subtype, frame_ctrl, base_seq, data, max_payload);
        assert(tail.len() >= 1);
        assert forall|i: int| 0 < i < frames.len() implies (#[trigger] frames[i]) == tail[i - 1] by {}
    }
}

proof fn lemma_continuation_feeds(
    a: AssemblerView,
    pkg_type: u8,
    subtype: u8,
    frame_ctrl: u8,
    sequence: u8,
    rest: Seq<u8>,
    cap: int,
)
    requires
        frame_ctrl & fc::FRAGMENTED == 0,
        0 < cap,
        rest.len() > 0,
        a.total == Some((a.buf.len() + rest.len()) as usize),
        a.buf.len() + rest.len() < 65536,
    ensures
        ({
            let frames = continuation(pkg_type, subtype, frame_ctrl, sequence, rest, cap);
            let (end, outs) = fed_all(a, frames);
            &&& end == idle_assembler()
            &&& outs.len() == frames.len() >= 1
            &&& outs.last() == Ok::<Option<Seq<u8>>, FrameError>(Some(a.buf + rest))
            &&& forall|i: int|
                0 <= i < outs.len() - 1 ==> #[trigger] outs[i] == Ok::<
                    Option<Seq<u8>>,
                    FrameError,
                >(None)
        }),
    decreases rest.len(),
{
    let n = if cap < rest.len() {
        cap
    } else {
        rest.len() as int
    };
    let next = ((sequence + 1) % 256) as u8;
    let frames = continuation(pkg_type, subtype, frame_ctrl, sequence, rest, cap);
    let tail = continuation(pkg_type, subtype, frame_ctrl, next, rest.skip(n), cap);
    assert(frames.drop_first() =~= tail);
    let (b, out) = fed(a, frames[0]);
    if n == rest.len() {
        assert(rest.take(n) =~= rest);
        assert((a.buf + rest).take((a.buf.len() + rest.len()) as int) =~= a.buf + rest);
        assert(tail =~= Seq::<FrameView>::empty());
        assert(fed_all(b, tail).1 =~= Seq::empty());
    } else {
        assert(b.buf + rest.skip(n) =~= a.buf + rest);
        lemma_continuation_feeds(
            b,
            pkg_type,
            subtype,
            frame_ctrl,
            next,
            rest.skip(n),
            cap,
        );
        let outs = fed_all(a, frames).1;
        let later = fed_all(b, tail).1;
        assert(outs =~= seq![out] + later);
        assert forall|i: int| 0 <= i < outs.len() - 1 implies #[trigger] outs[i] == Ok::<
            Option<Seq<u8>>,
            FrameError,
        >(None) by {
            if i > 0 {
                assert(outs[i] == later[i - 1]);
            }
        }
    }
}

/// Feeding the frames of a payload, in order, to a waiting assembler gives nothing before the
/// last frame, the whole payload with the last one, and leaves the assembler waiting again.
pub proof fn law_reassembly(
    pkg_type: u8,
    subtype: u8,
    frame_ctrl: u8,
    base_seq: u8,
    data: Seq<u8>,
    max_payload: int,
)
    requires
        frame_ctrl & fc::FRAGMENTED == 0,
        max_payload > 0 || data.len() == 0 && max_payload == 0,
        data.len() < 65536,
    ensures
        ({
            let frames = split_frames(
                pkg_type,
                subtype,
                frame_ctrl,
                base_seq,
                data,
                max_payload,
            );
            let (end, outs) = fed_all(idle_assembler(), frames);
            &&& end == idle_assembler()
            &&& outs.len() == frames.len() >= 1
            &&& outs.last() == Ok::<Option<Seq<u8>>, FrameError>(Some(data))
            &&& forall|i: int|
                0 <= i < outs.len() - 1 ==> #[trigger] outs[i] == Ok::<
                    Option<Seq<u8>>,
                    FrameError,
                >(None)
        }),
{
    let cap = frame_cap(max_payload);
    let frames = split_frames(pkg_type, subtype, frame_ctrl, base_seq, data, max_payload);
    let a = idle_assembler();
    let (b, out) = fed(a, frames[0]);
    if data.len() <= cap {
        assert(frames.drop_first() =~= Seq::<FrameView>::empty());
        assert(fed_all(b, frames.drop_first()).1 =~= Seq::empty());
    } else {
        let n = first_cap(max_payload);
        let next = ((base_seq + 1) % 256) as u8;
        let tail = continuation(pkg_type, subtype, frame_ctrl, next, data.skip(n), cap);
        assert((frame_ctrl | 0x10) & 0x10 != 0) by (bit_vector);
        assert(frames.drop_first() =~= tail);
        let head = frames[0].data;
        assert(head =~= le16(data.len() as int) + data.take(n));
        assert(head.skip(2) =~= data.take(n));
        assert(head[0] + head[1] * 256 == data.len());
        assert(b.buf + data.skip(n) =~= data);
        lemma_continuation_feeds(b, pkg_type, subtype, frame_ctrl, next, data.skip(n), cap);
        let outs = fed_all(a, frames).1;
        let later = fed_all(b, tail).1;
        assert(outs =~= seq![out] + later);
        assert forall|i: int| 0 <= i < outs.len() - 1 implies #[trigger] outs[i] == Ok::<
            Option<Seq<u8>>,
            FrameError,
        >(None) by {
            if i > 0 {
                assert(outs[i] == later[i - 1]);
            }
        }
    }
}

/// The acknowledgement of a frame: a control frame whose data is the acknowledged sequence.
pub fn make_ack(acked_seq: u8) -> (f: BluFiFrame)
    ensures
        f@ == (FrameView {
            pkg_type: PKG_CTRL,
            subtype: ftype::ACK,
            frame_ctrl: fc::DIRECTION,
            sequence: 0,
            data: seq![acked_seq],
        }),
{
    let mut data: Vec<u8> = Vec::new();
    data.push(acked_seq);
    assert(data@ =~= seq![acked_seq]);
    BluFiFrame::new(PKG_CTRL, ftype::ACK, fc::DIRECTION, 0, data)
}

} // verus!
