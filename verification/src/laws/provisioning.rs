//! What the device and the app send each other while a network is set up.

use crate::blufi::codec;
use crate::blufi::codec::{ProvisioningView, ScanItem, ScanView};
use crate::blufi::frame;
use crate::blufi::frame::{decoded, AssemblerView, FrameView};
use crate::blufi::worker;
use crate::blufi::worker::{
    ack_of, byte_views, data_frame, frame_handled, message_handled, read_provisioning, BluFiWorker,
    Burst, NeedView, WorkerView,
};
use crate::blufi::{BluFiConfig, BluFiState, BlufiEvent};
use vstd::prelude::*;
use vstd::utf8;

verus! {

/// A frame on the wire: the kind in the two low bits of the first byte and the function in the
/// others, the flags, the number, the length of the data, and the data. The checksum, where the
/// flags announce one, follows with its low byte first.
pub proof fn law_frame_on_the_wire(f: FrameView)
    requires
        f.data.len() <= 255,
        f.pkg_type < 4,
        f.subtype < 64,
    ensures
        ({
            let w = frame::wire(f);
            let n = f.data.len() as int;
            let sum = frame::checksum_of(f.sequence, n as u8, f.data) as int;
            &&& w[0] == f.subtype * 4 + f.pkg_type
            &&& w[1] == f.frame_ctrl
            &&& w[2] == f.sequence
            &&& w[3] == n
            &&& w.subrange(4, 4 + n) == f.data
            &&& f.frame_ctrl & 0x02 == 0 ==> w.len() == 4 + n
            &&& f.frame_ctrl & 0x02 != 0 ==> w.len() == 6 + n && w[4 + n] == sum % 256 && w[5 + n]
                == sum / 256
        }),
{
    let w = frame::wire(f);
    let n = f.data.len() as int;
    assert(w.subrange(4, 4 + n) =~= f.data);
    let sum = frame::checksum_of(f.sequence, n as u8, f.data);
    if f.frame_ctrl & 0x02 != 0 {
        assert(w[4 + n] == frame::le16(sum as int)[0]);
        assert(w[5 + n] == frame::le16(sum as int)[1]);
    }
}

/// A frame without a checksum is read as it is on the wire.
pub proof fn law_frame_is_read(raw: Seq<u8>)
    requires
        raw.len() >= 4,
        raw[1] & 0x02 == 0,
    ensures
        raw[3] == raw.len() - 4 ==> (decoded(raw) matches Ok(f) && {
            &&& f.pkg_type == raw[0] % 4
            &&& f.subtype == raw[0] / 4
            &&& f.frame_ctrl == raw[1]
            &&& f.sequence == raw[2]
            &&& f.data == raw.subrange(4, raw.len() as int)
        }),
        raw[3] != raw.len() - 4 ==> decoded(raw) is Err,
{
}

/// One bit that is put into the register of the checksum: where it differs from the bit that falls
/// out, the polynomial x^16 + x^12 + x^5 + 1 is subtracted.
pub open spec fn bit_in(reg: u16, bit: bool) -> u16 {
    if (reg >= 0x8000) != bit {
        ((reg & 0x7FFF) << 1) ^ 0x1021
    } else {
        (reg & 0x7FFF) << 1
    }
}

/// The eight bits of a byte, the highest first.
pub open spec fn byte_in(reg: u16, b: u8) -> u16 {
    let r7 = bit_in(reg, b & 0x80 != 0);
    let r6 = bit_in(r7, b & 0x40 != 0);
    let r5 = bit_in(r6, b & 0x20 != 0);
    let r4 = bit_in(r5, b & 0x10 != 0);
    let r3 = bit_in(r4, b & 0x08 != 0);
    let r2 = bit_in(r3, b & 0x04 != 0);
    let r1 = bit_in(r2, b & 0x02 != 0);
    bit_in(r1, b & 0x01 != 0)
}

proof fn lemma_bit(c: u16, x: u16)
    ensures
        frame::crc_round(c ^ x) == bit_in(c, x & 0x8000 != 0) ^ ((x & 0x7FFF) << 1),
{
    assert(({
        let d = c ^ x;
        if d & 0x8000 != 0 {
            (d << 1) ^ 0x1021
        } else {
            d << 1
        }
    }) == (if (c >= 0x8000) != (x & 0x8000 != 0) {
        ((c & 0x7FFF) << 1) ^ 0x1021
    } else {
        (c & 0x7FFF) << 1
    }) ^ ((x & 0x7FFF) << 1)) by (bit_vector);
}

proof fn lemma_byte(c: u16, b: u8)
    ensures
        frame::crc_rounds(c ^ ((b as u16) << 8), 8) == byte_in(c, b),
{
    let x0 = (b as u16) << 8;
    let x1 = (x0 & 0x7FFF) << 1;
    let x2 = (x1 & 0x7FFF) << 1;
    let x3 = (x2 & 0x7FFF) << 1;
    let x4 = (x3 & 0x7FFF) << 1;
    let x5 = (x4 & 0x7FFF) << 1;
    let x6 = (x5 & 0x7FFF) << 1;
    let x7 = (x6 & 0x7FFF) << 1;
    let x8 = (x7 & 0x7FFF) << 1;
    let r7 = bit_in(c, b & 0x80 != 0);
    let r6 = bit_in(r7, b & 0x40 != 0);
    let r5 = bit_in(r6, b & 0x20 != 0);
    let r4 = bit_in(r5, b & 0x10 != 0);
    let r3 = bit_in(r4, b & 0x08 != 0);
    let r2 = bit_in(r3, b & 0x04 != 0);
    let r1 = bit_in(r2, b & 0x02 != 0);
    let r0 = bit_in(r1, b & 0x01 != 0);
    assert((x0 & 0x8000 != 0) == (b & 0x80 != 0) && (x1 & 0x8000 != 0) == (b & 0x40 != 0) && (x2
        & 0x8000 != 0) == (b & 0x20 != 0) && (x3 & 0x8000 != 0) == (b & 0x10 != 0) && (x4 & 0x8000
        != 0) == (b & 0x08 != 0) && (x5 & 0x8000 != 0) == (b & 0x04 != 0) && (x6 & 0x8000 != 0) == (b
        & 0x02 != 0) && (x7 & 0x8000 != 0) == (b & 0x01 != 0) && x8 == 0) by (bit_vector)
        requires
            x0 == (b as u16) << 8,
            x1 == (x0 & 0x7FFF) << 1,
            x2 == (x1 & 0x7FFF) << 1,
            x3 == (x2 & 0x7FFF) << 1,
            x4 == (x3 & 0x7FFF) << 1,
            x5 == (x4 & 0x7FFF) << 1,
            x6 == (x5 & 0x7FFF) << 1,
            x7 == (x6 & 0x7FFF) << 1,
            x8 == (x7 & 0x7FFF) << 1,
    ;
    let s = c ^ x0;
    lemma_bit(c, x0);
    lemma_bit(r7, x1);
    lemma_bit(r6, x2);
    lemma_bit(r5, x3);
    lemma_bit(r4, x4);
    lemma_bit(r3, x5);
    lemma_bit(r2, x6);
    lemma_bit(r1, x7);
    assert(frame::crc_rounds(s, 0) == s);
    assert(frame::crc_rounds(s, 1) == frame::crc_round(frame::crc_rounds(s, 0)));
    assert(frame::crc_rounds(s, 2) == frame::crc_round(frame::crc_rounds(s, 1)));
    assert(frame::crc_rounds(s, 3) == frame::crc_round(frame::crc_rounds(s, 2)));
    assert(frame::crc_rounds(s, 4) == frame::crc_round(frame::crc_rounds(s, 3)));
    assert(frame::crc_rounds(s, 5) == frame::crc_round(frame::crc_rounds(s, 4)));
    assert(frame::crc_rounds(s, 6) == frame::crc_round(frame::crc_rounds(s, 5)));
    assert(frame::crc_rounds(s, 7) == frame::crc_round(frame::crc_rounds(s, 6)));
    assert(frame::crc_rounds(s, 8) == frame::crc_round(frame::crc_rounds(s, 7)));
    assert(frame::crc_rounds(s, 8) == r0 ^ x8);
    assert(r0 ^ 0 == r0) by (bit_vector);
}

/// The checksum is the remainder of a division by the polynomial 0x1021, bit by bit from the
/// highest of each byte on, that starts with all ones and takes in the number, the length and the
/// data, in this order.
pub proof fn law_checksum(reg: u16, bytes: Seq<u8>, b: u8, number: u8, len: u8, data: Seq<u8>)
    ensures
        frame::crc_over(reg, Seq::empty()) == reg,
        frame::crc_over(reg, bytes.push(b)) == byte_in(frame::crc_over(reg, bytes), b),
        frame::checksum_of(number, len, data) == frame::crc_over(0xFFFF, seq![number, len] + data),
{
    assert(bytes.push(b).drop_last() =~= bytes);
    lemma_byte(frame::crc_over(reg, bytes), b);
}

/// What the device sends is a data frame from the device to the app: kind 1, flag 0x04, no checksum.
pub proof fn law_data_frame_on_the_wire(subtype: u8, number: u8, data: Seq<u8>)
    requires
        subtype < 64,
        data.len() <= 255,
    ensures
        frame::wire(data_frame(subtype, number, data)) == seq![
            (subtype * 4 + 1) as u8,
            0x04,
            number,
            data.len() as u8,
        ] + data,
{
    assert(4u8 & 2u8 == 0) by (bit_vector);
    assert(frame::wire(data_frame(subtype, number, data)) =~= seq![
        (subtype * 4 + 1) as u8,
        0x04,
        number,
        data.len() as u8,
    ] + data);
}

/// A frame of the app that asks for an acknowledgement gets one with its number, and no other does.
pub proof fn law_acknowledgement(f: FrameView)
    ensures
        f.frame_ctrl & 0x08 == 0 ==> ack_of(f) is None,
        f.frame_ctrl & 0x08 != 0 ==> ack_of(f) == Some(seq![0u8, 0x04, 0, 1, f.sequence]),
{
    assert(4u8 & 2u8 == 0) by (bit_vector);
    if f.frame_ctrl & 0x08 != 0 {
        assert(ack_of(f)->0 =~= seq![0u8, 0x04, 0, 1, f.sequence]);
    }
}

/// A control frame with function 9 asks for the networks, and no other control frame for anything;
/// nothing is sent but the acknowledgement.
pub proof fn law_networks_are_asked_for(
    w: WorkerView,
    cfg: BluFiConfig,
    subtype: u8,
    payload: Seq<u8>,
    ack: Option<Seq<u8>>,
)
    ensures
        ({
            let (after, r) = message_handled(w, cfg, 0, subtype, payload, ack);
            &&& r.ack == ack
            &&& r.frames.len() == 0
            &&& subtype == 9 ==> r.need == NeedView::Scan && after == (WorkerView {
                state: BluFiState::Scanning,
                ..w
            })
            &&& subtype != 9 ==> r.need == NeedView::Nothing && after == w
        }),
{
}

/// The text of a frame of the device.
pub open spec fn frame_says(bytes: Seq<u8>, number: int, words: Seq<char>) -> bool {
    let n = utf8::encode_utf8(words).len();
    &&& bytes.len() == 4 + n
    &&& bytes[0] == 0x4D
    &&& bytes[1] == 0x04
    &&& bytes[2] == number % 256
    &&& bytes[3] == n
    &&& bytes.skip(4) == utf8::encode_utf8(words)
}

proof fn lemma_words(words: Seq<char>)
    requires
        words == "Received SSID and password"@ || words == "Wifi connection failed"@,
    ensures
        utf8::encode_utf8(words).len() <= 255,
{
    reveal_strlit("Received SSID and password");
    reveal_strlit("Wifi connection failed");
    utf8::is_ascii_chars_encode_utf8(words);
}

proof fn lemma_frame_says(number: u8, words: Seq<char>)
    requires
        words == "Received SSID and password"@ || words == "Wifi connection failed"@,
    ensures
        frame_says(
            frame::wire(data_frame(0x13, number, utf8::encode_utf8(words))),
            number as int,
            words,
        ),
{
    lemma_words(words);
    let data = utf8::encode_utf8(words);
    law_data_frame_on_the_wire(0x13, number, data);
    assert(frame::wire(data_frame(0x13, number, data)).skip(4) =~= data);
}

/// Provisioning data that can be read is answered with `Received SSID and password`, as often as is
/// configured and at least once, in frames whose numbers go on; the network that it names is joined,
/// with its password unless that is empty. Data that cannot be read is answered with `Wifi
/// connection failed`, once, and nothing is joined.
pub proof fn law_provisioning_is_answered(
    w: WorkerView,
    cfg: BluFiConfig,
    payload: Seq<u8>,
    ack: Option<Seq<u8>>,
)
    ensures
        ({
            let (after, r) = message_handled(w, cfg, 1, 0x13, payload, ack);
            let n = if cfg.ack_repeat > 1 {
                cfg.ack_repeat as int
            } else {
                1
            };
            &&& r.ack == ack
            &&& match read_provisioning(payload) {
                Ok(p) => {
                    &&& r.frames.len() == n
                    &&& forall|i: int|
                        0 <= i < n ==> frame_says(
                            #[trigger] r.frames[i],
                            w.seq_out + i,
                            "Received SSID and password"@,
                        )
                    &&& r.pause_ms == cfg.ack_interval_ms
                    &&& (r.need matches NeedView::Connect { ssid, pwd } && ssid == p.ssid && if p.pwd.len()
                        == 0 {
                        pwd is None
                    } else {
                        pwd == Some(p.pwd)
                    })
                    &&& after.state == BluFiState::Connecting
                    &&& after.seq_out == (w.seq_out + n) % 256
                },
                Err(_) => {
                    &&& r.frames.len() == 1
                    &&& frame_says(r.frames[0], w.seq_out as int, "Wifi connection failed"@)
                    &&& r.need == NeedView::Nothing
                    &&& after.state == BluFiState::WaitApp
                    &&& after.seq_out == (w.seq_out + 1) % 256
                },
            }
        }),
{
    let (after, r) = message_handled(w, cfg, 1, 0x13, payload, ack);
    let n = worker::repeat_count(cfg);
    lemma_frame_says(w.seq_out, "Wifi connection failed"@);
    if read_provisioning(payload) is Ok {
        assert forall|i: int| 0 <= i < n implies frame_says(
            #[trigger] r.frames[i],
            w.seq_out + i,
            "Received SSID and password"@,
        ) by {
            lemma_frame_says(((w.seq_out + i) % 256) as u8, "Received SSID and password"@);
        }
    }
}

/// Data with any other function is only acknowledged, and so is a frame that is not the last of its
/// message; bytes that are no frame are not even that.
pub proof fn law_other_frames(
    w: WorkerView,
    cfg: BluFiConfig,
    pkg_type: u8,
    subtype: u8,
    payload: Seq<u8>,
    ack: Option<Seq<u8>>,
    raw: Seq<u8>,
)
    ensures
        pkg_type != 0 && subtype != 0x13 ==> ({
            let (after, r) = message_handled(w, cfg, pkg_type, subtype, payload, ack);
            after == w && r.ack == ack && r.frames.len() == 0 && r.need == NeedView::Nothing
        }),
        decoded(raw) is Err ==> ({
            let (after, r) = frame_handled(w, cfg, raw);
            after == w && r.ack is None && r.frames.len() == 0 && r.need == NeedView::Nothing
        }),
{
}

/// A network in the list that the app is sent: the length of the rest, the strength as a byte of
/// two's complement, and the name.
pub proof fn law_network_on_the_wire(i: ScanView)
    requires
        utf8::encode_utf8(i.ssid).len() < 255,
    ensures
        ({
            let e = codec::scan_entry(i);
            let n = utf8::encode_utf8(i.ssid).len() as int;
            &&& e.len() == 2 + n
            &&& e[0] == n + 1
            &&& i.rssi >= 0 ==> e[1] == i.rssi
            &&& i.rssi < 0 ==> e[1] == 256 + i.rssi
            &&& e.skip(2) == utf8::encode_utf8(i.ssid)
        }),
        codec::scan_list(seq![i]) == codec::scan_entry(i),
{
    assert(codec::scan_entry(i).skip(2) =~= utf8::encode_utf8(i.ssid));
    let one = seq![i];
    assert(one.drop_last() =~= Seq::empty());
    assert(codec::scan_list(one.drop_last()) =~= Seq::<u8>::empty());
    assert(codec::scan_list(one) =~= codec::scan_entry(i));
}

/// The app is told the version of the protocol when provisioning begins.
pub proof fn law_version_is_told(w: &mut BluFiWorker, r: (BlufiEvent, Vec<u8>))
    requires
        call_ensures(BluFiWorker::start, (w,), r),
    ensures
        r.0 is EnterConfigMode,
        r.1@ == seq![
            0x41u8,
            0x04,
            old(w)@.seq_out,
            2,
            old(w).cfg.version_major,
            old(w).cfg.version_minor,
        ],
        final(w)@.seq_out == (old(w)@.seq_out + 1) % 256,
{
    let v = seq![old(w).cfg.version_major, old(w).cfg.version_minor];
    law_data_frame_on_the_wire(0x10, old(w)@.seq_out, v);
    assert(r.1@ =~= seq![
        0x41u8,
        0x04,
        old(w)@.seq_out,
        2,
        old(w).cfg.version_major,
        old(w).cfg.version_minor,
    ]);
}

/// The app is told once that the device is in the network, and as often as is configured that it is
/// not; and the owner is told which network, or why not.
pub proof fn law_end_of_joining_is_told(
    w: &mut BluFiWorker,
    ssid: &str,
    failure: Option<&str>,
    r: (Burst, BlufiEvent),
)
    requires
        call_ensures(BluFiWorker::connect_done, (w, ssid, failure), r),
    ensures
        failure is None ==> {
            &&& byte_views(r.0.frames@) == seq![
                seq![0x3Du8, 0x04, old(w)@.seq_out, 2, 1, 0],
            ]
            &&& (r.1 matches BlufiEvent::WifiConnected { ssid: s } && s@ == ssid@)
            &&& final(w)@.state == BluFiState::Finish
        },
        failure is Some ==> {
            let n = if old(w).cfg.ack_repeat > 1 {
                old(w).cfg.ack_repeat as int
            } else {
                1
            };
            let frames = byte_views(r.0.frames@);
            &&& frames.len() == n
            &&& forall|i: int|
                0 <= i < n ==> frame_says(
                    #[trigger] frames[i],
                    old(w)@.seq_out + i,
                    "Wifi connection failed"@,
                )
            &&& (r.1 matches BlufiEvent::WifiFailed { reason } && reason@ == failure->0@)
            &&& final(w)@.state == BluFiState::Failed
        },
{
    let number = old(w)@.seq_out;
    let state = seq![1u8, 0u8];
    law_data_frame_on_the_wire(0x0F, number, state);
    if failure is None {
        let frames = worker::data_frames(0x0F, number, state);
        assert(frames =~= seq![data_frame(0x0F, number, state)]);
        assert(worker::wires(frames) =~= seq![frame::wire(data_frame(0x0F, number, state))]);
        assert(frame::wire(data_frame(0x0F, number, state)) =~= seq![
            0x3Du8,
            0x04,
            number,
            2,
            1,
            0,
        ]);
    } else {
        let n = worker::repeat_count(old(w).cfg);
        let frames = byte_views(r.0.frames@);
        assert forall|i: int| 0 <= i < n implies frame_says(
            #[trigger] frames[i],
            number + i,
            "Wifi connection failed"@,
        ) by {
            lemma_frame_says(((number + i) % 256) as u8, "Wifi connection failed"@);
        }
    }
}

/// A scan that failed is reported with error 0x0b; one that found a single network is answered with
/// it, and the device then waits for the app again.
pub proof fn law_scan_is_answered(w: &mut BluFiWorker, found: Option<Vec<ScanItem>>, b: Burst)
    requires
        call_ensures(BluFiWorker::scan_done, (w, found), b),
    ensures
        final(w)@.state == BluFiState::WaitApp,
        found is None ==> byte_views(b.frames@) == seq![
            seq![0x49u8, 0x04, old(w)@.seq_out, 1, 0x0b],
        ],
        found is Some && old(w).cfg.scan_single_frame_bytes == 0 && found->0@.len() == 1
            && utf8::encode_utf8(found->0@[0]@.ssid).len() < 200 ==> byte_views(b.frames@) == seq![
            seq![
                0x45u8,
                0x04,
                old(w)@.seq_out,
                codec::scan_entry(found->0@[0]@).len() as u8,
            ] + codec::scan_entry(found->0@[0]@),
        ],
{
    let number = old(w)@.seq_out;
    let code = seq![0x0bu8];
    law_data_frame_on_the_wire(0x12, number, code);
    if found is None {
        let f = data_frame(0x12, number, code);
        assert(worker::wires(seq![f]) =~= seq![frame::wire(f)]);
        assert(frame::wire(f) =~= seq![0x49u8, 0x04, number, 1, 0x0b]);
    } else if old(w).cfg.scan_single_frame_bytes == 0 && found->0@.len() == 1 && utf8::encode_utf8(
        found->0@[0]@.ssid,
    ).len() < 200 {
        let i = found->0@[0]@;
        let views = codec::scan_views(found->0@);
        assert(views =~= seq![i]);
        assert(views.drop_last() =~= Seq::<ScanView>::empty());
        assert(worker::strongest_first(views.drop_last()) =~= Seq::<ScanView>::empty());
        assert(worker::strongest_first(views) =~= seq![i]);
        law_network_on_the_wire(i);
        let data = codec::scan_entry(i);
        law_data_frame_on_the_wire(0x11, number, data);
        let f = data_frame(0x11, number, data);
        assert(worker::data_frames(0x11, number, data) =~= seq![f]);
        assert(worker::wires(seq![f]) =~= seq![frame::wire(f)]);
    }
}

/// An app that has connected anew starts with an empty message, and the next frame of the device is
/// number 1.
pub proof fn law_new_session(w: &mut BluFiWorker, anew: bool)
    requires
        call_ensures(BluFiWorker::handle_new_session, (w, anew), ()),
    ensures
        anew ==> final(w)@ == (WorkerView {
            assembler: AssemblerView { total: None, buf: Seq::empty() },
            seq_out: 1,
            ..old(w)@
        }),
        !anew ==> final(w)@ == old(w)@,
{
}

/// What provisioning data without a network or a password is refused with, and what a later field
/// of the same name does: it replaces the earlier one.
pub proof fn law_fields_of_provisioning(d: codec::Draft, value: Seq<char>)
    ensures
        codec::field_read(d, "SSID:"@ + value) == Some(codec::Draft { ssid: Some(value), ..d }),
        codec::field_read(d, "PWD:"@ + value) == Some(codec::Draft { pwd: Some(value), ..d }),
        codec::field_read(d, "IP:"@ + value) == Some(codec::Draft { ip: Some(value), ..d }),
{
    reveal_strlit("SSID:");
    reveal_strlit("PWD:");
    reveal_strlit("IP:");
    let a = "SSID:"@ + value;
    let b = "PWD:"@ + value;
    let c = "IP:"@ + value;
    assert("SSID:"@.len() == 5 && "PWD:"@.len() == 4 && "IP:"@.len() == 3);
    assert(a.take(5) =~= "SSID:"@ && a.skip(5) =~= value);
    assert(b.take(4) =~= "PWD:"@ && b.skip(4) =~= value);
    assert(c.take(3) =~= "IP:"@ && c.skip(3) =~= value);
    assert("SSID:"@[0] == 'S' && "PWD:"@[0] == 'P' && "IP:"@[0] == 'I');
    assert(b[0] == 'P' && c[0] == 'I');
    assert(!crate::text::starts(b, "SSID:"@)) by {
        if crate::text::starts(b, "SSID:"@) {
            assert(b.take(5)[0] == "SSID:"@[0]);
        }
    }
    assert(!crate::text::starts(c, "SSID:"@)) by {
        if crate::text::starts(c, "SSID:"@) {
            assert(c.take(5)[0] == "SSID:"@[0]);
        }
    }
    assert(!crate::text::starts(c, "PWD:"@)) by {
        if crate::text::starts(c, "PWD:"@) {
            assert(c.take(4)[0] == "PWD:"@[0]);
        }
    }
}

/// A network without a password in the data is an open one, and the device is asked to join it
/// without one.
pub proof fn law_open_network(
    w: WorkerView,
    cfg: BluFiConfig,
    payload: Seq<u8>,
    p: ProvisioningView,
)
    requires
        read_provisioning(payload) == Ok::<ProvisioningView, codec::CodecErrorView>(p),
        p.pwd.len() == 0,
    ensures
        message_handled(w, cfg, 1, 0x13, payload, None).1.need == (NeedView::Connect {
            ssid: p.ssid,
            pwd: None,
        }),
{
}

/// A message that does not fit into one frame begins with its whole length, the low byte first, in a
/// frame with the flag 0x10; the frame carries 255 bytes with that.
pub proof fn law_long_message_on_the_wire(subtype: u8, number: u8, data: Seq<u8>)
    requires
        255 < data.len() <= 65535,
    ensures
        ({
            let frames = worker::data_frames(subtype, number, data);
            &&& frames.len() >= 2
            &&& frames[0].frame_ctrl == 0x14
            &&& frames[0].sequence == number
            &&& frames[0].data.len() == 255
            &&& frames[0].data[0] + 256 * frames[0].data[1] == data.len()
            &&& frames[0].data.skip(2) == data.take(253)
            &&& frames[1].frame_ctrl == 0x04
            &&& frames[1].sequence == (number + 1) % 256
            &&& data.len() <= 508 ==> frames.len() == 2 && frames[1].data == data.skip(253)
        }),
{
    assert(4u8 | 16u8 == 0x14u8) by (bit_vector);
    let frames = worker::data_frames(subtype, number, data);
    let rest = data.skip(253);
    let next = ((number + 1) % 256) as u8;
    let tail = frame::continuation(1, subtype, 0x04, next, rest, 255);
    assert(frames[0].data.skip(2) =~= data.take(253));
    assert(frames[1] == tail[0]);
    if data.len() <= 508 {
        assert(rest.take(rest.len() as int) =~= rest);
        assert(rest.skip(rest.len() as int) =~= Seq::<u8>::empty());
        reveal_with_fuel(frame::continuation, 2);
        assert(tail.len() == 1);
    }
}

/// A frame with the flag 0x10 begins a message with the length that it says, or adds to one; a frame
/// without it ends the message when all has come, and is a message by itself where none was begun.
pub proof fn law_fragments(a: AssemblerView, f: FrameView)
    ensures
        f.frame_ctrl & 0x10 == 0 && a.total is None ==> frame::fed(a, f) == (
            a,
            Ok::<Option<Seq<u8>>, frame::FrameError>(Some(f.data)),
        ),
        f.frame_ctrl & 0x10 != 0 && a.total is None && f.data.len() >= 2 ==> frame::fed(a, f) == (
            AssemblerView {
                total: Some((f.data[0] + 256 * f.data[1]) as usize),
                buf: f.data.subrange(2, f.data.len() as int),
            },
            Ok::<Option<Seq<u8>>, frame::FrameError>(None),
        ),
        f.frame_ctrl & 0x10 == 0 && a.total is Some && a.buf.len() + f.data.len() == a.total->0
            ==> frame::fed(a, f).1 == Ok::<Option<Seq<u8>>, frame::FrameError>(Some(a.buf + f.data))
            && frame::fed(a, f).0 == (AssemblerView { total: None, buf: Seq::empty() }),
        f.frame_ctrl & 0x10 == 0 && a.total is Some && a.buf.len() + f.data.len() < a.total->0
            ==> frame::fed(a, f).1 == Ok::<Option<Seq<u8>>, frame::FrameError>(None) && frame::fed(
            a,
            f,
        ).0 == (AssemblerView { total: a.total, buf: a.buf + f.data }),
{
    if f.data.len() >= 2 {
        assert(f.data.skip(2) =~= f.data.subrange(2, f.data.len() as int));
    }
    let whole = a.buf + f.data;
    assert(whole.take(whole.len() as int) =~= whole);
}

/// The numbers of the functions and the flags.
pub proof fn law_numbers_of_functions()
    ensures
        crate::blufi::ftype::ACK == 0x00,
        crate::blufi::ftype::GET_WIFI_LIST == 0x09,
        crate::blufi::ftype::CONNECT_STATE == 0x0F,
        crate::blufi::ftype::VERSION == 0x10,
        crate::blufi::ftype::WIFI_LIST == 0x11,
        crate::blufi::ftype::REPORT_ERROR == 0x12,
        crate::blufi::ftype::CUSTOM_DATA == 0x13,
        crate::blufi::fc::HAS_CHECKSUM == 0x02,
        crate::blufi::fc::DIRECTION == 0x04,
        crate::blufi::fc::NEED_ACK == 0x08,
        crate::blufi::fc::FRAGMENTED == 0x10,
{
}

/// A frame whose checksum is not that of its number, its length and its data is refused.
pub proof fn law_checksum_is_checked(raw: Seq<u8>)
    requires
        raw.len() >= 6,
        raw[1] & 0x02 != 0,
        raw[3] == raw.len() - 6,
    ensures
        ({
            let n = raw.len() as int;
            let data = raw.subrange(4, n - 2);
            let sum = frame::checksum_of(raw[2], raw[3], data) as int;
            &&& decoded(raw) is Ok <==> raw[n - 2] + 256 * raw[n - 1] == sum
            &&& decoded(raw) matches Ok(f) ==> f.data == data && f.sequence == raw[2]
        }),
{
}

/// The app is sent all networks that were found, the strongest first, one after the other, where no
/// limit is configured.
pub proof fn law_networks_are_sent(
    w: &mut BluFiWorker,
    items: Vec<ScanItem>,
    b: Burst,
    some: Seq<ScanView>,
    one: ScanView,
)
    requires
        old(w).cfg.scan_single_frame_bytes == 0,
        call_ensures(BluFiWorker::scan_done, (w, Some(items)), b),
    ensures
        ({
            let sorted = worker::strongest_first(codec::scan_views(items@));
            &&& byte_views(b.frames@) == worker::wires(
                worker::data_frames(0x11, old(w)@.seq_out, codec::scan_list(sorted)),
            )
            &&& worker::falling(sorted)
            &&& sorted.to_multiset() == codec::scan_views(items@).to_multiset()
        }),
        codec::scan_list(some.push(one)) == codec::scan_list(some) + codec::scan_entry(one),
{
    worker::law_strongest_first(codec::scan_views(items@));
    assert(some.push(one).drop_last() =~= some);
}

} // verus!
