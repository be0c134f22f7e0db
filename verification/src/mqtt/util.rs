//! The encodings that MQTT packets are made of: variable-byte integers and length-prefixed
//! strings.

use crate::mqtt::bounded;
use crate::mqtt::error::{MqttError, ProtocolError};
use crate::mqtt::packet::Property;
use crate::mqtt::transport::ErrorPlaceHolder;
use crate::text;
use heapless::Vec as BoundedVec;
use vstd::prelude::*;
use vstd::utf8;

verus! {

/// `s` with `bytes` written over it from `pos` on.
pub open spec fn splice(s: Seq<u8>, pos: int, bytes: Seq<u8>) -> Seq<u8> {
    s.take(pos) + bytes + s.skip(pos + bytes.len())
}

/// A number in base 128, lowest digit first, with the high bit set on all but the last byte.
pub open spec fn varint(n: nat) -> Seq<u8>
    decreases n,
{
    if n < 128 {
        seq![n as u8]
    } else {
        seq![(n % 128 + 128) as u8] + varint(n / 128)
    }
}

/// The number that `s` starts with, and how many bytes it takes, if it ends within `limit` bytes.
pub open spec fn varint_read(s: Seq<u8>, limit: nat) -> Option<(nat, nat)>
    decreases limit,
{
    if limit == 0 || s.len() == 0 {
        None
    } else if s[0] < 128 {
        Some((s[0] as nat, 1))
    } else {
        match varint_read(s.drop_first(), (limit - 1) as nat) {
            None => None,
            Some((v, n)) => Some(((s[0] - 128 + 128 * v) as nat, n + 1)),
        }
    }
}

/// The number at `pos`, and how many bytes it takes; it may take four.
pub open spec fn varint_at(buf: Seq<u8>, pos: int) -> Option<(nat, nat)> {
    if pos > buf.len() {
        None
    } else {
        varint_read(buf.skip(pos), 4)
    }
}

pub open spec fn malformed() -> MqttError<ErrorPlaceHolder> {
    MqttError::Protocol(ProtocolError::MalformedPacket)
}

/// Reads a variable-byte integer at the cursor, and moves the cursor behind it.
///
/// An integer that does not end within four bytes, or within the buffer, is malformed; the
/// cursor then stays.
pub fn read_variable_byte_integer(cursor: &mut usize, buf: &[u8]) -> (r: Result<
    usize,
    MqttError<ErrorPlaceHolder>,
>)
    ensures
        match varint_at(buf@, *old(cursor) as int) {
            Some((v, n)) => r == Ok::<usize, MqttError<ErrorPlaceHolder>>(v as usize) && v
                <= usize::MAX && *final(cursor) == *old(cursor) + n && *final(cursor)
                <= buf@.len(),
            None => r == Err::<usize, MqttError<ErrorPlaceHolder>>(malformed()) && *final(cursor)
                == *old(cursor),
        },
{
    if *cursor > buf.len() {
        return Err(MqttError::Protocol(ProtocolError::MalformedPacket));
    }
    let ghost whole = varint_read(buf@.skip(*cursor as int), 4);
    let mut multiplier: usize = 1;
    let mut value: usize = 0;
    let mut i: usize = 0;
    while i < 4
        invariant
            i <= 4,
            *cursor == *old(cursor),
            *cursor + i <= buf@.len(),
            multiplier == if i == 0 {
                1int
            } else if i == 1 {
                128
            } else if i == 2 {
                16384
            } else if i == 3 {
                2097152
            } else {
                268435456
            },
            value < multiplier,
            whole == match varint_read(buf@.skip(*cursor + i), (4 - i) as nat) {
                None => None::<(nat, nat)>,
                Some((v, n)) => Some(((value + multiplier * v) as nat, (n + i) as nat)),
            },
            whole == varint_read(buf@.skip(*old(cursor) as int), 4),
        decreases 4 - i,
    {
        if buf.len() - *cursor <= i {
            assert(buf@.skip(*cursor + i).len() == 0);
            return Err(MqttError::Protocol(ProtocolError::MalformedPacket));
        }
        let byte: u8 = buf[*cursor + i];
        assert((byte & 127) == byte % 128 && ((byte & 128) == 0 <==> byte < 128)) by (bit_vector);
        let ghost rest = buf@.skip(*cursor + i);
        let digit: usize = (byte & 127) as usize;
        assert(digit * multiplier <= 127 * multiplier) by (nonlinear_arith)
            requires
                digit <= 127,
        ;
        value = value + digit * multiplier;
        if byte & 128 == 0 {
            assert(multiplier * digit == digit * multiplier) by (nonlinear_arith);
            *cursor = *cursor + i + 1;
            return Ok(value);
        }
        proof {
            assert(rest.drop_first() =~= buf@.skip(*cursor + i + 1));
            match varint_read(rest.drop_first(), (3 - i) as nat) {
                None => {},
                Some((v, n)) => {
                    assert(multiplier * (digit + 128 * v) == digit * multiplier + (multiplier * 128)
                        * v) by (nonlinear_arith);
                },
            }
        }
        multiplier = multiplier * 128;
        i = i + 1;
    }
    Err(MqttError::Protocol(ProtocolError::MalformedPacket))
}

/// The bytes of `varint(n)` that fit into `room`.
pub open spec fn varint_fitting(n: nat, room: int) -> Seq<u8> {
    if varint(n).len() <= room {
        varint(n)
    } else {
        varint(n).take(room)
    }
}

/// `buf` after writing `varint(n)` at `pos`, as far as there is room.
pub open spec fn varint_written(buf: Seq<u8>, pos: int, n: nat) -> Seq<u8> {
    if pos > buf.len() {
        buf
    } else {
        splice(buf, pos, varint_fitting(n, buf.len() - pos))
    }
}

proof fn lemma_splice_grows(s: Seq<u8>, start: int, done: Seq<u8>, b: u8)
    requires
        0 <= start,
        start + done.len() < s.len(),
    ensures
        splice(s, start, done).update(start + done.len(), b) == splice(s, start, done.push(b)),
{
    assert(splice(s, start, done).update(start + done.len(), b) =~= splice(
        s,
        start,
        done.push(b),
    ));
}

/// Writes a variable-byte integer at the cursor, and moves the cursor behind it.
///
/// Where the buffer ends first, the bytes that fit have been written, and the cursor stands at
/// the end of the buffer.
pub fn write_variable_byte_integer(cursor: &mut usize, buf: &mut [u8], val: usize) -> (r: Result<
    (),
    MqttError<ErrorPlaceHolder>,
>)
    ensures
        r == if *old(cursor) + varint(val as nat).len() <= old(buf)@.len() {
            Ok::<(), MqttError<ErrorPlaceHolder>>(())
        } else {
            Err(MqttError::BufferTooSmall)
        },
        final(buf)@ == varint_written(old(buf)@, *old(cursor) as int, val as nat),
        *final(cursor) == if r is Ok {
            *old(cursor) + varint(val as nat).len()
        } else if *old(cursor) > old(buf)@.len() {
            *old(cursor) as int
        } else {
            old(buf)@.len() as int
        },
{
    if *cursor > buf.len() {
        return Err(MqttError::BufferTooSmall);
    }
    let ghost start = *cursor as int;
    let ghost all = varint(val as nat);
    let ghost mut done = Seq::<u8>::empty();
    let mut rest: usize = val;
    assert(splice(old(buf)@, start, done) =~= old(buf)@);
    assert(done + varint(rest as nat) =~= all);
    loop
        invariant
            buf@.len() == old(buf)@.len(),
            *cursor == start + done.len(),
            *cursor <= buf@.len(),
            start == *old(cursor),
            buf@ == splice(old(buf)@, start, done),
            all == done + varint(rest as nat),
            all == varint(val as nat),
        decreases rest,
    {
        let low: u8 = (rest % 128) as u8;
        let next: usize = rest / 128;
        let byte: u8 = if next > 0 {
            low + 128
        } else {
            low
        };
        if *cursor >= buf.len() {
            proof {
                assert(all.take(done.len() as int) =~= done);
            }
            return Err(MqttError::BufferTooSmall);
        }
        proof {
            lemma_splice_grows(old(buf)@, start, done, byte);
            if next > 0 {
                assert(all =~= done.push(byte) + varint(next as nat));
            } else {
                assert(all =~= done.push(byte));
            }
            done = done.push(byte);
        }
        buf[*cursor] = byte;
        *cursor = *cursor + 1;
        if next == 0 {
            return Ok(());
        }
        rest = next;
    }
}

/// Writes a variable-byte integer at the start of the buffer, and returns how many bytes it took.
pub fn write_variable_byte_integer_len(buf: &mut [u8], val: usize) -> (r: Result<
    usize,
    MqttError<ErrorPlaceHolder>,
>)
    ensures
        r == if varint(val as nat).len() <= old(buf)@.len() {
            Ok::<usize, MqttError<ErrorPlaceHolder>>(varint(val as nat).len() as usize)
        } else {
            Err(MqttError::BufferTooSmall)
        },
        final(buf)@ == varint_written(old(buf)@, 0, val as nat),
{
    let mut cursor: usize = 0;
    write_variable_byte_integer(&mut cursor, buf, val)?;
    Ok(cursor)
}

proof fn lemma_varint_read_of_varint(n: nat, tail: Seq<u8>, limit: nat)
    requires
        varint(n).len() <= limit,
    ensures
        varint_read(varint(n) + tail, limit) == Some((n, varint(n).len())),
    decreases n,
{
    let s = varint(n) + tail;
    if n >= 128 {
        lemma_varint_read_of_varint(n / 128, tail, (limit - 1) as nat);
        assert(s.drop_first() =~= varint(n / 128) + tail);
    }
}

/// How many bytes a number takes: one for each digit in base 128.
pub proof fn lemma_varint_len(n: nat)
    ensures
        varint(n).len() >= 1,
        n < 128 ==> varint(n).len() == 1,
        128 <= n < 16384 ==> varint(n).len() == 2,
        16384 <= n < 2097152 ==> varint(n).len() == 3,
        2097152 <= n < 268435456 ==> varint(n).len() == 4,
        268435456 <= n ==> varint(n).len() >= 5,
{
    reveal_with_fuel(varint, 5);
}

/// Reading a number back where it was written gives the same number, and consumes what was
/// written: for every number below 2^28 that fits.
pub proof fn law_varint_round_trip(buf: Seq<u8>, pos: int, n: nat)
    requires
        n < 268435456,
        0 <= pos,
        pos + varint(n).len() <= buf.len(),
    ensures
        varint_at(varint_written(buf, pos, n), pos) == Some((n, varint(n).len())),
{
    let after = varint_written(buf, pos, n);
    let tail = buf.skip(pos + varint(n).len());
    assert(after.skip(pos) =~= varint(n) + tail);
    lemma_varint_len(n);
    lemma_varint_read_of_varint(n, tail, 4);
}

/// A byte string behind its length as two bytes, the high one first.
pub open spec fn prefixed(bytes: Seq<u8>) -> Seq<u8> {
    seq![(bytes.len() / 256 % 256) as u8, (bytes.len() % 256) as u8] + bytes
}

/// What stands at `pos`: the text of a length-prefixed string, or what is wrong with it; and
/// where the cursor is afterwards. The cursor passes the length even where the text is refused.
pub open spec fn text_read(buf: Seq<u8>, pos: int) -> (
    Result<Seq<char>, MqttError<ErrorPlaceHolder>>,
    int,
) {
    let n = buf[pos] * 256 + buf[pos + 1];
    let body = buf.subrange(pos + 2, pos + 2 + n);
    if pos + 2 > buf.len() {
        (Err(malformed()), pos)
    } else if pos + 2 + n > buf.len() {
        (Err(malformed()), pos + 2)
    } else if !utf8::valid_utf8(body) {
        (Err(MqttError::Protocol(ProtocolError::InvalidUtf8String)), pos + 2)
    } else {
        (Ok(utf8::decode_utf8(body)), pos + 2 + n)
    }
}

/// A borrowed text by its contents.
pub open spec fn text_result(r: Result<&str, MqttError<ErrorPlaceHolder>>) -> Result<
    Seq<char>,
    MqttError<ErrorPlaceHolder>,
> {
    match r {
        Ok(s) => Ok(s@),
        Err(e) => Err(e),
    }
}

/// Reads a UTF-8 string with a two-byte length in front, and moves the cursor behind it.
pub fn read_utf8_string<'a>(cursor: &mut usize, buf: &'a [u8]) -> (r: Result<
    &'a str,
    MqttError<ErrorPlaceHolder>,
>)
    ensures
        text_result(r) == text_read(buf@, *old(cursor) as int).0,
        *final(cursor) == text_read(buf@, *old(cursor) as int).1,
{
    if *cursor > buf.len() || buf.len() - *cursor < 2 {
        return Err(MqttError::Protocol(ProtocolError::MalformedPacket));
    }
    let len: usize = buf[*cursor] as usize * 256 + buf[*cursor + 1] as usize;
    *cursor = *cursor + 2;
    if buf.len() - *cursor < len {
        return Err(MqttError::Protocol(ProtocolError::MalformedPacket));
    }
    let body: &'a [u8] = vstd::slice::slice_subrange(buf, *cursor, *cursor + len);
    match text::utf8_text(body) {
        Ok(s) => {
            proof {
                utf8::encode_utf8_decode_utf8(s@);
            }
            *cursor = *cursor + len;
            Ok(s)
        },
        Err(_) => Err(MqttError::Protocol(ProtocolError::InvalidUtf8String)),
    }
}

/// Writes `bytes` over the buffer from `pos` on.
pub fn put_bytes(buf: &mut [u8], pos: usize, bytes: &[u8])
    requires
        pos + bytes@.len() <= old(buf)@.len(),
    ensures
        final(buf)@ == splice(old(buf)@, pos as int, bytes@),
{
    let room: usize = buf.len();
    let mut i: usize = 0;
    assert(splice(old(buf)@, pos as int, bytes@.take(0)) =~= old(buf)@);
    while i < bytes.len()
        invariant
            i <= bytes@.len(),
            pos + bytes@.len() <= room == buf@.len(),
            buf@.len() == old(buf)@.len(),
            buf@ == splice(old(buf)@, pos as int, bytes@.take(i as int)),
        decreases bytes@.len() - i,
    {
        proof {
            lemma_splice_grows(old(buf)@, pos as int, bytes@.take(i as int), bytes@[i as int]);
            assert(bytes@.take(i as int).push(bytes@[i as int]) =~= bytes@.take(i as int + 1));
        }
        buf[pos + i] = bytes[i];
        i += 1;
    }
    assert(bytes@.take(i as int) =~= bytes@);
}

/// Why a byte string cannot be written with a length prefix into `room` bytes, if it cannot.
pub open spec fn field_error(bytes: Seq<u8>, room: int) -> Option<MqttError<ErrorPlaceHolder>> {
    if bytes.len() > 65535 {
        Some(MqttError::Protocol(ProtocolError::PayloadTooLarge))
    } else if 2 + bytes.len() > room {
        Some(MqttError::BufferTooSmall)
    } else {
        None
    }
}

/// Writes a byte string with a two-byte length in front at `pos`, and returns how many bytes
/// that took; a refused string leaves the buffer as it was.
pub fn put_field(buf: &mut [u8], pos: usize, bytes: &[u8]) -> (r: Result<
    usize,
    MqttError<ErrorPlaceHolder>,
>)
    requires
        pos <= old(buf)@.len(),
    ensures
        match field_error(bytes@, old(buf)@.len() - pos) {
            Some(e) => r == Err::<usize, MqttError<ErrorPlaceHolder>>(e) && final(buf)@
                == old(buf)@,
            None => r == Ok::<usize, MqttError<ErrorPlaceHolder>>((2 + bytes@.len()) as usize)
                && final(buf)@ == splice(old(buf)@, pos as int, prefixed(bytes@)),
        },
{
    let len: usize = bytes.len();
    if len > 65535 {
        return Err(MqttError::Protocol(ProtocolError::PayloadTooLarge));
    }
    if buf.len() - pos < 2 + len {
        return Err(MqttError::BufferTooSmall);
    }
    buf[pos] = (len / 256) as u8;
    buf[pos + 1] = (len % 256) as u8;
    put_bytes(buf, pos + 2, bytes);
    assert(buf@ =~= splice(old(buf)@, pos as int, prefixed(bytes@)));
    Ok(2 + len)
}

/// Writes a UTF-8 string with a two-byte length in front at the start of the buffer, and returns
/// how many bytes that took.
pub fn write_utf8_string(buf: &mut [u8], s: &str) -> (r: Result<
    usize,
    MqttError<ErrorPlaceHolder>,
>)
    ensures
        match field_error(utf8::encode_utf8(s@), old(buf)@.len() as int) {
            Some(e) => r == Err::<usize, MqttError<ErrorPlaceHolder>>(e) && final(buf)@
                == old(buf)@,
            None => r == Ok::<usize, MqttError<ErrorPlaceHolder>>(
                (2 + utf8::encode_utf8(s@).len()) as usize,
            ) && final(buf)@ == splice(old(buf)@, 0, prefixed(utf8::encode_utf8(s@))),
        },
{
    put_field(buf, 0, s.as_bytes())
}

/// Reading a string back where it was written gives the same text, and leaves the cursor behind
/// it.
pub proof fn law_text_round_trip(buf: Seq<u8>, pos: int, s: Seq<char>)
    requires
        0 <= pos,
        field_error(utf8::encode_utf8(s), buf.len() - pos) is None,
    ensures
        text_read(splice(buf, pos, prefixed(utf8::encode_utf8(s))), pos) == (
            Ok::<Seq<char>, MqttError<ErrorPlaceHolder>>(s),
            pos + 2 + utf8::encode_utf8(s).len(),
        ),
{
    let bytes = utf8::encode_utf8(s);
    let after = splice(buf, pos, prefixed(bytes));
    let n = bytes.len() as int;
    assert(after[pos] == (n / 256 % 256) as u8);
    assert(after[pos + 1] == (n % 256) as u8);
    assert(after[pos] * 256 + after[pos + 1] == n);
    assert(after.subrange(pos + 2, pos + 2 + n) =~= bytes);
    utf8::encode_utf8_valid_utf8(s);
    utf8::encode_utf8_decode_utf8(s);
}

/// How many properties a section of `len` bytes holds, at two bytes each.
pub open spec fn property_count(len: nat) -> nat {
    (len + 1) / 2
}

/// `n` properties of one identifier and one data byte each.
pub open spec fn property_pairs(buf: Seq<u8>, pos: int, n: nat) -> Seq<(u8, Seq<u8>)> {
    Seq::new(n, |i: int| (buf[pos + 2 * i], seq![buf[pos + 2 * i + 1]]))
}

/// Whether the properties that the section at `pos` announces lie within the buffer, up to the
/// first one for which there is no place.
pub open spec fn properties_present(buf: Seq<u8>, pos: int) -> bool {
    match varint_at(buf, pos) {
        None => true,
        Some((len, n)) => {
            let count = property_count(len);
            pos + n + 2 * if count > 8 {
                9
            } else {
                count
            } <= buf.len()
        },
    }
}

/// The properties of the section at `pos`, or why it is refused; and where the cursor is
/// afterwards.
pub open spec fn properties_read(buf: Seq<u8>, pos: int) -> (
    Result<Seq<(u8, Seq<u8>)>, MqttError<ErrorPlaceHolder>>,
    int,
) {
    match varint_at(buf, pos) {
        None => (Err(malformed()), pos),
        Some((len, n)) => {
            let count = property_count(len);
            if count > 8 {
                (Err(MqttError::Protocol(ProtocolError::TooManyProperties)), pos + n + 18)
            } else {
                (Ok(property_pairs(buf, pos + n, count)), pos + n + 2 * count)
            }
        },
    }
}

/// A list of properties by its contents.
pub open spec fn properties_result(
    r: Result<BoundedVec<Property<'_>, 8>, MqttError<ErrorPlaceHolder>>,
) -> Result<Seq<(u8, Seq<u8>)>, MqttError<ErrorPlaceHolder>> {
    match r {
        Ok(v) => Ok(bounded::properties_in(v)),
        Err(e) => Err(e),
    }
}

/// Reads the properties of an MQTT v5 packet: a length, then identifiers with one data byte each.
pub fn read_properties<'a>(cursor: &mut usize, buf: &'a [u8]) -> (r: Result<
    BoundedVec<Property<'a>, 8>,
    MqttError<ErrorPlaceHolder>,
>)
    requires
        properties_present(buf@, *old(cursor) as int),
    ensures
        properties_result(r) == properties_read(buf@, *old(cursor) as int).0,
        *final(cursor) == properties_read(buf@, *old(cursor) as int).1,
{
    let mut properties: BoundedVec<Property<'a>, 8> = bounded::no_properties();
    let prop_len: usize = read_variable_byte_integer(cursor, buf)?;
    let start: usize = *cursor;
    let mut i: usize = 0;
    let count: usize = prop_len / 2 + prop_len % 2;
    assert(property_pairs(buf@, start as int, 0) =~= bounded::properties_in(properties));
    while i < count
        invariant
            i <= count,
            i <= 8,
            count == property_count(prop_len as nat),
            *cursor == start + 2 * i,
            start + 2 * (if count > 8 {
                9
            } else {
                count
            }) <= buf@.len(),
            bounded::properties_in(properties) == property_pairs(buf@, start as int, i as nat),
            properties_read(buf@, *old(cursor) as int) == if count > 8 {
                (
                    Err::<Seq<(u8, Seq<u8>)>, MqttError<ErrorPlaceHolder>>(
                        MqttError::Protocol(ProtocolError::TooManyProperties),
                    ),
                    start + 18,
                )
            } else {
                (Ok(property_pairs(buf@, start as int, count as nat)), start + 2 * count)
            },
        decreases count - i,
    {
        let room: usize = buf.len();
        let id: u8 = buf[*cursor];
        let data: &'a [u8] = vstd::slice::slice_subrange(buf, *cursor + 1, *cursor + 2);
        *cursor = *cursor + 2;
        let pushed: bool = bounded::push_property(&mut properties, Property { id, data });
        if !pushed {
            return Err(MqttError::Protocol(ProtocolError::TooManyProperties));
        }
        proof {
            let pairs = property_pairs(buf@, start as int, i as nat);
            assert(data@ =~= seq![buf@[start + 2 * i + 1]]);
            assert(pairs.push((id, data@)) =~= property_pairs(buf@, start as int, (i + 1) as nat));
        }
        i += 1;
    }
    Ok(properties)
}

/// The bytes of some properties: each is its identifier and its data.
pub open spec fn property_bytes(props: Seq<(u8, Seq<u8>)>) -> Seq<u8>
    decreases props.len(),
{
    if props.len() == 0 {
        Seq::empty()
    } else {
        property_bytes(props.drop_last()).push(props.last().0) + props.last().1
    }
}

/// `buf` after writing some properties at `pos`: the properties from the next byte on, then
/// their length in base 128 from `pos` on.
pub open spec fn properties_written(buf: Seq<u8>, pos: int, props: Seq<(u8, Seq<u8>)>) -> Seq<u8> {
    let body = property_bytes(props);
    let filled = if body.len() == 0 {
        buf
    } else {
        splice(buf, pos + 1, body)
    };
    varint_written(filled, pos, body.len())
}

/// Two writes next to each other are one write.
pub proof fn lemma_splice_append(s: Seq<u8>, pos: int, a: Seq<u8>, b: Seq<u8>)
    requires
        0 <= pos,
        pos + a.len() + b.len() <= s.len(),
    ensures
        splice(splice(s, pos, a), pos + a.len(), b) == splice(s, pos, a + b),
{
    assert(splice(splice(s, pos, a), pos + a.len(), b) =~= splice(s, pos, a + b));
}

proof fn lemma_property_bytes_grow(props: Seq<(u8, Seq<u8>)>, i: int)
    requires
        0 <= i <= props.len(),
    ensures
        property_bytes(props.take(i)).len() + (props.len() - i) <= property_bytes(props).len(),
    decreases props.len() - i,
{
    if i < props.len() {
        lemma_property_bytes_grow(props, i + 1);
        assert(props.take(i + 1).drop_last() =~= props.take(i));
    } else {
        assert(props.take(i) =~= props);
    }
}

/// Writes the properties of an MQTT v5 packet.
///
/// One byte is reserved for the length; a length that takes more runs over what follows it.
pub fn write_properties(cursor: &mut usize, buf: &mut [u8], properties: &[Property<'_>]) -> (r: Result<
    (),
    MqttError<ErrorPlaceHolder>,
>)
    requires
        *old(cursor) < usize::MAX,
        properties@.len() > 0 ==> *old(cursor) + 1 + property_bytes(
            bounded::property_views(properties@),
        ).len() <= old(buf)@.len(),
    ensures
        r == if *old(cursor) < old(buf)@.len() {
            Ok::<(), MqttError<ErrorPlaceHolder>>(())
        } else {
            Err(MqttError::BufferTooSmall)
        },
        final(buf)@ == properties_written(
            old(buf)@,
            *old(cursor) as int,
            bounded::property_views(properties@),
        ),
        *final(cursor) == *old(cursor) + 1 + property_bytes(
            bounded::property_views(properties@),
        ).len(),
{
    let ghost props = bounded::property_views(properties@);
    let start: usize = *cursor;
    *cursor = *cursor + 1;
    let mut i: usize = 0;
    proof {
        assert(props.take(0) =~= Seq::empty());
        if properties@.len() > 0 {
            assert(splice(buf@, start + 1, property_bytes(props.take(0))) =~= buf@);
        }
    }
    while i < properties.len()
        invariant
            i <= properties@.len(),
            props == bounded::property_views(properties@),
            properties@.len() > 0 ==> start + 1 + property_bytes(props).len() <= buf@.len(),
            buf@.len() == old(buf)@.len(),
            start == *old(cursor),
            *cursor == start + 1 + property_bytes(props.take(i as int)).len(),
            properties@.len() > 0 ==> buf@ == splice(
                old(buf)@,
                start + 1,
                property_bytes(props.take(i as int)),
            ),
            properties@.len() == 0 ==> buf@ == old(buf)@,
        decreases properties@.len() - i,
    {
        let room: usize = buf.len();
        let ghost done = property_bytes(props.take(i as int));
        let ghost data = properties@[i as int].data@;
        proof {
            let longer = props.take(i as int + 1);
            assert(longer.drop_last() =~= props.take(i as int));
            assert(longer.last() == (properties@[i as int].id, data));
            lemma_property_bytes_grow(props, i as int + 1);
        }
        buf[*cursor] = properties[i].id;
        assert(buf@ =~= splice(old(buf)@, start + 1, done.push(properties@[i as int].id)));
        *cursor = *cursor + 1;
        put_bytes(buf, *cursor, properties[i].data);
        proof {
            lemma_splice_append(
                old(buf)@,
                start + 1,
                done.push(properties@[i as int].id),
                data,
            );
        }
        *cursor = *cursor + properties[i].data.len();
        i += 1;
    }
    proof {
        assert(props.take(i as int) =~= props);
        lemma_property_bytes_grow(props, 0);
        lemma_varint_len(property_bytes(props).len());
        lemma_varint_short(property_bytes(props).len());
    }
    let total: usize = *cursor - (start + 1);
    let mut at: usize = start;
    write_variable_byte_integer(&mut at, buf, total)?;
    Ok(())
}

/// A number above zero is at least as large as the count of its digits less one.
pub proof fn lemma_varint_short(n: nat)
    ensures
        varint(n).len() <= 1 + n,
    decreases n,
{
    if n >= 128 {
        lemma_varint_short(n / 128);
    }
}

proof fn lemma_property_pairs(props: Seq<(u8, Seq<u8>)>)
    requires
        forall|i: int| 0 <= i < props.len() ==> (#[trigger] props[i]).1.len() == 1,
    ensures
        property_bytes(props).len() == 2 * props.len(),
        forall|i: int|
            0 <= i < props.len() ==> property_bytes(props)[2 * i] == (#[trigger] props[i]).0
                && property_bytes(props)[2 * i + 1] == props[i].1[0],
    decreases props.len(),
{
    if props.len() > 0 {
        lemma_property_pairs(props.drop_last());
        assert forall|i: int| 0 <= i < props.len() implies property_bytes(props)[2 * i] == (
        #[trigger] props[i]).0 && property_bytes(props)[2 * i + 1] == props[i].1[0] by {
            if i < props.len() - 1 {
                assert(props.drop_last()[i] == props[i]);
            }
        }
    }
}

/// Properties that are written are read back as they were, as far as a section holds them: eight
/// of them, with one byte of data each.
pub proof fn law_properties_round_trip(buf: Seq<u8>, pos: int, props: Seq<(u8, Seq<u8>)>)
    requires
        props.len() <= 8,
        forall|i: int| 0 <= i < props.len() ==> (#[trigger] props[i]).1.len() == 1,
        0 <= pos,
        pos + 1 + 2 * props.len() <= buf.len(),
    ensures
        properties_present(properties_written(buf, pos, props), pos),
        properties_read(properties_written(buf, pos, props), pos) == (
            Ok::<Seq<(u8, Seq<u8>)>, MqttError<ErrorPlaceHolder>>(props),
            pos + 1 + 2 * props.len(),
        ),
{
    lemma_property_pairs(props);
    let body = property_bytes(props);
    let out = properties_written(buf, pos, props);
    let n = body.len();
    reveal_with_fuel(varint, 2);
    reveal_with_fuel(varint_read, 2);
    assert(varint(n) =~= seq![n as u8]);
    assert(out.len() == buf.len());
    assert(out[pos] == n);
    assert(varint_at(out, pos) == Some((n, 1nat)));
    assert forall|k: int| 0 <= k < n implies out[pos + 1 + k] == body[k] by {}
    let pairs = property_pairs(out, pos + 1, property_count(n));
    assert forall|i: int| 0 <= i < props.len() implies #[trigger] pairs[i] == props[i] by {
        assert(out[pos + 1 + 2 * i] == body[2 * i]);
        assert(out[pos + 1 + (2 * i + 1)] == body[2 * i + 1]);
        assert(pairs[i].1 =~= props[i].1);
    }
    assert(pairs =~= props);
}

} // verus!
