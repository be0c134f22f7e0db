//! What MQTT packets look like on the wire.

use crate::mqtt::bounded;
use crate::mqtt::client::MqttVersion;
use crate::mqtt::error::{MqttError, ProtocolError};
use crate::mqtt::packet::{
    fields_bytes, framed_len, packet_type, Connect, ConnAck, DecodePacket, Disconnect, EncodePacket,
    PingReq, Publish, SubAck, Subscribe,
};
use crate::mqtt::packet;
use crate::mqtt::packet::QoS;
use crate::mqtt::transport::ErrorPlaceHolder;
use crate::mqtt::util;
use vstd::prelude::*;
use vstd::utf8;

verus! {

/// How many bytes the length behind the first byte of a packet takes: all but the last have their
/// highest bit set.
pub open spec fn length_size(b: Seq<u8>) -> int {
    if b[1] < 128 {
        1
    } else if b[2] < 128 {
        2
    } else if b[3] < 128 {
        3
    } else {
        4
    }
}

/// The length behind the first byte of a packet: seven bits of each byte, the lowest first.
pub open spec fn length_value(b: Seq<u8>) -> int {
    let k = length_size(b);
    b[1] % 128 + (if k > 1 {
        b[2] % 128 * 128
    } else {
        0
    }) + (if k > 2 {
        b[3] % 128 * 16384
    } else {
        0
    }) + (if k > 3 {
        b[4] % 128 * 2097152
    } else {
        0
    })
}

/// A number of two bytes, the high one first.
pub open spec fn two_bytes(b: Seq<u8>, at: int) -> int {
    b[at] * 256 + b[at + 1]
}

/// A packet that takes the first `n` bytes says so: its length counts what stands behind it.
pub open spec fn length_is_right(b: Seq<u8>, n: int) -> bool {
    1 + length_size(b) + length_value(b) == n
}

/// A byte string behind its length of two bytes.
pub open spec fn has_field(b: Seq<u8>, at: int, bytes: Seq<u8>) -> bool {
    &&& at + 2 + bytes.len() <= b.len()
    &&& two_bytes(b, at) == bytes.len()
    &&& b.subrange(at + 2, at + 2 + bytes.len()) == bytes
}

/// Byte strings one after the other, each behind its length of two bytes.
pub open spec fn has_fields(b: Seq<u8>, at: int, fields: Seq<Seq<u8>>) -> bool
    decreases fields.len(),
{
    fields.len() > 0 ==> has_field(b, at, fields[0]) && has_fields(
        b,
        at + 2 + fields[0].len(),
        fields.drop_first(),
    )
}

/// How many bytes some byte strings take with their lengths.
pub open spec fn fields_size(fields: Seq<Seq<u8>>) -> int
    decreases fields.len(),
{
    if fields.len() == 0 {
        0
    } else {
        2 + fields[0].len() + fields_size(fields.drop_first())
    }
}

proof fn lemma_fields_in(b: Seq<u8>, at: int, fields: Seq<Seq<u8>>, room: int)
    requires
        packet::fields_error(fields, room) is None,
        0 <= at,
        at + fields_bytes(fields).len() <= b.len(),
        b.subrange(at, at + fields_bytes(fields).len()) == fields_bytes(fields),
    ensures
        has_fields(b, at, fields),
        fields_bytes(fields).len() == fields_size(fields),
    decreases fields.len(),
{
    if fields.len() > 0 {
        let all = fields_bytes(fields);
        let first = util::prefixed(fields[0]);
        let rest = fields_bytes(fields.drop_first());
        let n = fields[0].len() as int;
        assert(all == first + rest);
        assert(b.subrange(at, at + all.len())[0] == first[0]);
        assert(b[at] == all[0] && b[at + 1] == all[1]);
        assert(first[0] == (n / 256 % 256) as u8 && first[1] == (n % 256) as u8);
        assert(n <= 65535);
        assert(two_bytes(b, at) == n);
        assert forall|i: int| 0 <= i < n implies b.subrange(at + 2, at + 2 + n)[i]
            == #[trigger] fields[0][i] by {
            assert(b.subrange(at, at + all.len())[2 + i] == all[2 + i]);
        }
        assert(b.subrange(at + 2, at + 2 + n) =~= fields[0]);
        let next = at + 2 + n;
        assert forall|i: int| 0 <= i < rest.len() implies b.subrange(next, next + rest.len())[i]
            == #[trigger] rest[i] by {
            assert(b.subrange(at, at + all.len())[2 + n + i] == all[2 + n + i]);
        }
        assert(b.subrange(next, next + rest.len()) =~= rest);
        lemma_fields_in(b, next, fields.drop_first(), room - 2 - n);
    }
}

proof fn lemma_varint_bytes(n: nat)
    requires
        n < 268435456,
    ensures
        ({
            let v = util::varint(n);
            &&& 1 <= v.len() <= 4
            &&& v.len() > 1 ==> v[0] >= 128
            &&& v.len() > 2 ==> v[1] >= 128
            &&& v.len() > 3 ==> v[2] >= 128
            &&& v[v.len() - 1] < 128
            &&& n == v[0] % 128 + (if v.len() > 1 {
                v[1] % 128 * 128
            } else {
                0
            }) + (if v.len() > 2 {
                v[2] % 128 * 16384
            } else {
                0
            }) + (if v.len() > 3 {
                v[3] % 128 * 2097152
            } else {
                0
            })
        }),
{
    reveal_with_fuel(util::varint, 5);
    if n >= 128 {
        let a = n / 128;
        assert(util::varint(n) == seq![(n % 128 + 128) as u8] + util::varint(a));
        if a >= 128 {
            let b = a / 128;
            assert(util::varint(a) == seq![(a % 128 + 128) as u8] + util::varint(b));
            if b >= 128 {
                let c = b / 128;
                assert(util::varint(b) == seq![(b % 128 + 128) as u8] + util::varint(c));
                assert(c < 128);
            }
        }
    }
}

/// The frame of a packet that has been written: its first byte, its length, and its content.
proof fn lemma_frame(buf: Seq<u8>, first: u8, content: Seq<u8>)
    requires
        content.len() < 268435456,
        5 + content.len() <= buf.len(),
        framed_len(content) <= buf.len(),
    ensures
        ({
            let out = packet::packet_written(buf, first, content);
            let at = 1 + length_size(out);
            &&& out.len() == buf.len()
            &&& out[0] == first
            &&& length_is_right(out, framed_len(content))
            &&& length_value(out) == content.len()
            &&& at + content.len() == framed_len(content)
            &&& out.subrange(at, at + content.len()) == content
            &&& forall|i: int| 0 <= i < content.len() ==> out[at + i] == #[trigger] content[i]
        }),
{
    let out = packet::packet_written(buf, first, content);
    let v = util::varint(content.len());
    lemma_varint_bytes(content.len());
    packet::lemma_packet_in_front(buf, first, content);
    let whole = packet::framed(first, content);
    assert(out.take(framed_len(content)) == whole);
    assert forall|i: int| 0 <= i < framed_len(content) implies out[i] == #[trigger] whole[i] by {
        assert(out.take(framed_len(content))[i] == whole[i]);
    }
    assert(whole[0] == first);
    assert forall|i: int| 0 <= i < v.len() implies out[1 + i] == #[trigger] v[i] by {
        assert(whole[1 + i] == v[i]);
    }
    assert(out[1] == v[0]);
    if v.len() > 1 {
        assert(out[2] == v[1]);
    }
    if v.len() > 2 {
        assert(out[3] == v[2]);
    }
    if v.len() > 3 {
        assert(out[4] == v[3]);
    }
    assert(length_size(out) == v.len());
    let at = 1 + length_size(out);
    assert forall|i: int| 0 <= i < content.len() implies out[at + i] == #[trigger] content[i] by {
        assert(whole[at + i] == content[i]);
    }
    assert(out.subrange(at, at + content.len()) =~= content);
}

/// What follows the flags and the keep-alive time of a connect packet, in this order: the client's
/// name, the topic and the payload of the will, the user name, and the password, as far as they
/// are there.
pub open spec fn payload_of(c: Connect<'_>) -> Seq<Seq<u8>> {
    let id = seq![utf8::encode_utf8(c.client_id@)];
    let will = match c.will {
        Some(w) => seq![utf8::encode_utf8(w.topic@), w.payload@],
        None => Seq::empty(),
    };
    let user = match c.username {
        Some(u) => seq![utf8::encode_utf8(u@)],
        None => Seq::empty(),
    };
    let key = match c.password {
        Some(p) => seq![p@],
        None => Seq::empty(),
    };
    id + will + user + key
}

/// The flags of a connect packet.
pub open spec fn flags_say(f: u8, c: Connect<'_>) -> bool {
    &&& f & 0x80 == 0x80 <==> c.username is Some
    &&& f & 0x40 == 0x40 <==> c.password is Some
    &&& f & 0x20 == 0x20 <==> c.will is Some && c.will->0.retain
    &&& c.will is Some && c.will->0.qos == QoS::AtMostOnce ==> f & 0x18 == 0
    &&& c.will is Some && c.will->0.qos == QoS::AtLeastOnce ==> f & 0x18 == 0x08
    &&& c.will is Some && c.will->0.qos == QoS::ExactlyOnce ==> f & 0x18 == 0x10
    &&& c.will is None ==> f & 0x38 == 0
    &&& f & 0x04 == 0x04 <==> c.will is Some
    &&& f & 0x02 == 0x02 <==> c.clean_session
    &&& f & 0x01 == 0
}

/// A connect packet on the wire, read as MQTT has it: the protocol's name and level; behind them
/// the flags, which say which fields follow; the keep-alive time; in version 5 the properties behind
/// their length, where that takes one byte; and the fields in their order. The packet ends with the
/// last of them.
#[verifier::rlimit(50)]
#[verifier::spinoff_prover]
pub proof fn law_connect_on_the_wire(c: Connect<'_>, buf: Seq<u8>, version: MqttVersion)
    requires
        buf.len() < 268435456,
        c.encodable(buf.len(), version),
        c.encoding(buf, version).0 is Ok,
        util::property_bytes(bounded::properties_in(c.properties)).len() < 128,
    ensures
        ({
            let out = c.encoding(buf, version).1;
            let n = c.encoding(buf, version).0->Ok_0 as int;
            let at = 1 + length_size(out);
            let properties = util::property_bytes(bounded::properties_in(c.properties));
            let payload = if version == MqttVersion::V5 {
                at + 11 + properties.len()
            } else {
                at + 10
            };
            &&& n <= out.len() == buf.len()
            &&& out[0] == 0x10
            &&& length_is_right(out, n)
            &&& out[at] == 0 && out[at + 1] == 4
            &&& out[at + 2] == 0x4D && out[at + 3] == 0x51 && out[at + 4] == 0x54 && out[at + 5]
                == 0x54
            &&& version == MqttVersion::V5 ==> out[at + 6] == 5
            &&& version == MqttVersion::V3 ==> out[at + 6] == 4
            &&& flags_say(out[at + 7], c)
            &&& two_bytes(out, at + 8) == c.keep_alive
            &&& version == MqttVersion::V5 ==> out[at + 10] == properties.len() && out.subrange(
                at + 11,
                payload,
            ) == properties
            &&& has_fields(out, payload, payload_of(c))
            &&& payload + fields_size(payload_of(c)) == n
        }),
{
    let v = c@;
    let content = v.content(version);
    let before = v.preamble(version);
    let room = buf.len() - 5 - before.len();
    assert(v.fields() =~= payload_of(c));
    packet::lemma_fields_whole(v.fields(), room);
    util::lemma_varint_len(content.len());
    lemma_frame(buf, 0x10, content);
    let out = packet::packet_written(buf, 0x10, content);
    let at = 1 + length_size(out);
    let properties = util::property_bytes(v.properties);
    let head = v.head(version);
    assert(head.len() == 10);
    if version == MqttVersion::V5 {
        lemma_section(v.properties);
        assert(v.section(version) == seq![properties.len() as u8] + properties);
        assert(before.len() == 11 + properties.len());
    } else {
        assert(v.section(version) =~= Seq::<u8>::empty());
        assert(before.len() == 10);
    }
    assert forall|i: int| 0 <= i < 10 implies out[at + i] == #[trigger] head[i] by {
        assert(content[i] == head[i]);
    }
    assert(out[at] == head[0] && out[at + 1] == head[1] && out[at + 2] == head[2] && out[at + 3]
        == head[3]);
    assert(out[at + 4] == head[4] && out[at + 5] == head[5] && out[at + 6] == head[6]);
    assert(out[at + 7] == head[7] && out[at + 8] == head[8] && out[at + 9] == head[9]);
    if version == MqttVersion::V5 {
        assert(content[10] == properties.len() as u8);
        assert(out[at + 10] == content[10]);
        assert(content.subrange(11, 11 + properties.len() as int) =~= properties);
        lemma_part(out, at, content, 11, properties);
    }
    lemma_flags(c, out[at + 7]);
    let fb = fields_bytes(v.fields());
    let payload = at + before.len();
    assert forall|i: int| 0 <= i < fb.len() implies out.subrange(payload, payload + fb.len())[i]
        == #[trigger] fb[i] by {
        assert(content[before.len() + i] == fb[i]);
        assert(out[at + (before.len() + i)] == content[before.len() + i]);
    }
    assert(out.subrange(payload, payload + fb.len()) =~= fb);
    lemma_fields_in(out, payload, v.fields(), room);
}

proof fn lemma_flags(c: Connect<'_>, f: u8)
    requires
        f == c@.flags() as u8,
    ensures
        flags_say(f, c),
{
    let a: u8 = if c.clean_session {
        2
    } else {
        0
    };
    let q: u8 = match c.will {
        Some(w) => w.qos.level(),
        None => 0,
    };
    let w: u8 = match c.will {
        Some(w) => 1,
        None => 0,
    };
    let r: u8 = match c.will {
        Some(w) => if w.retain {
            1
        } else {
            0
        },
        None => 0,
    };
    let p: u8 = if c.password is Some {
        1
    } else {
        0
    };
    let u: u8 = if c.username is Some {
        1
    } else {
        0
    };
    let d: u8 = if c.clean_session {
        1
    } else {
        0
    };
    assert(c@.flags() == d * 2 + w * 4 + q * 8 + r * 32 + p * 64 + u * 128);
    assert(f == d * 2 + w * 4 + q * 8 + r * 32 + p * 64 + u * 128);
    assert(f & 0x80 == 0x80 <==> u == 1) by (bit_vector)
        requires
            f == d * 2 + w * 4 + q * 8 + r * 32 + p * 64 + u * 128,
            d <= 1,
            w <= 1,
            q <= 2,
            r <= 1,
            p <= 1,
            u <= 1,
    ;
    assert(f & 0x40 == 0x40 <==> p == 1) by (bit_vector)
        requires
            f == d * 2 + w * 4 + q * 8 + r * 32 + p * 64 + u * 128,
            d <= 1,
            w <= 1,
            q <= 2,
            r <= 1,
            p <= 1,
            u <= 1,
    ;
    assert((f & 0x20 == 0x20 <==> r == 1) && (f & 0x18 == q * 8) && (f & 0x04 == 0x04 <==> w == 1)
        && (f & 0x02 == 0x02 <==> d == 1) && f & 0x01 == 0 && (q == 0 && r == 0 ==> f & 0x38 == 0))
        by (bit_vector)
        requires
            f == d * 2 + w * 4 + q * 8 + r * 32 + p * 64 + u * 128,
            d <= 1,
            w <= 1,
            q <= 2,
            r <= 1,
            p <= 1,
            u <= 1,
    ;
}

/// A published message on the wire: the quality of service and the retain flag in the first byte,
/// the topic, the packet's number where the quality of service asks for one, and the payload up to
/// the end.
#[verifier::rlimit(50)]
#[verifier::spinoff_prover]
pub proof fn law_publish_on_the_wire(p: Publish<'_>, buf: Seq<u8>, version: MqttVersion)
    requires
        buf.len() < 268435456,
        p.encodable(buf.len(), version),
        p.encoding(buf, version).0 is Ok,
    ensures
        ({
            let out = p.encoding(buf, version).1;
            let n = p.encoding(buf, version).0->Ok_0 as int;
            let at = 1 + length_size(out);
            let topic = utf8::encode_utf8(p.topic@);
            let behind = at + 2 + topic.len();
            let numbered = p.packet_id is Some && p.qos != QoS::AtMostOnce;
            let payload = if numbered {
                behind + 2
            } else {
                behind
            };
            &&& n <= out.len() == buf.len()
            &&& out[0] / 16 == 3
            &&& out[0] / 8 % 2 == 0
            &&& p.qos == QoS::AtMostOnce ==> out[0] / 2 % 4 == 0
            &&& p.qos == QoS::AtLeastOnce ==> out[0] / 2 % 4 == 1
            &&& p.qos == QoS::ExactlyOnce ==> out[0] / 2 % 4 == 2
            &&& out[0] % 2 == 1 <==> p.retain
            &&& length_is_right(out, n)
            &&& has_field(out, at, topic)
            &&& numbered ==> two_bytes(out, behind) == p.packet_id->0
            &&& payload + p.payload@.len() == n
            &&& out.subrange(payload, n) == p.payload@
        }),
{
    let v = p@;
    let content = v.content();
    let topic = utf8::encode_utf8(p.topic@);
    let head = util::prefixed(topic);
    let k = topic.len() as int;
    util::lemma_varint_len(content.len());
    lemma_frame(buf, v.first_byte(), content);
    let out = packet::packet_written(buf, v.first_byte(), content);
    let at = 1 + length_size(out);
    let pre = v.preamble();
    assert(content[0] == head[0] && content[1] == head[1]);
    assert(out[at + 0] == content[0] && out[at + 1] == content[1]);
    assert(two_bytes(out, at) == k);
    assert(content.subrange(2, 2 + k) =~= topic);
    lemma_part(out, at, content, 2, topic);
    if p.packet_id is Some && p.qos != QoS::AtMostOnce {
        let id = p.packet_id->0;
        assert(v.id_bytes() =~= seq![(id / 256) as u8, (id % 256) as u8]);
        assert(content[2 + k] == v.id_bytes()[0]);
        assert(content[3 + k] == v.id_bytes()[1]);
        assert(out[at + (2 + k)] == content[2 + k]);
        assert(out[at + (3 + k)] == content[3 + k]);
        assert(pre.len() == 4 + k);
    } else {
        assert(v.id_bytes() =~= Seq::<u8>::empty());
        assert(pre.len() == 2 + k);
    }
    assert(content.subrange(pre.len() as int, content.len() as int) =~= p.payload@);
    lemma_part(out, at, content, pre.len() as int, p.payload@);
    lemma_first_byte(p);
}

/// A part of the content stands where the content does.
proof fn lemma_part(out: Seq<u8>, at: int, content: Seq<u8>, from: int, part: Seq<u8>)
    requires
        0 <= at,
        0 <= from,
        from + part.len() <= content.len(),
        at + content.len() <= out.len(),
        out.subrange(at, at + content.len()) == content,
        content.subrange(from, from + part.len()) == part,
    ensures
        out.subrange(at + from, at + from + part.len()) == part,
{
    assert(out.subrange(at, at + content.len()).subrange(from, from + part.len()) =~= out.subrange(
        at + from,
        at + from + part.len(),
    ));
}

proof fn lemma_first_byte(p: Publish<'_>)
    ensures
        ({
            let b = p@.first_byte();
            &&& b / 16 == 3
            &&& b / 8 % 2 == 0
            &&& p.qos == QoS::AtMostOnce ==> b / 2 % 4 == 0
            &&& p.qos == QoS::AtLeastOnce ==> b / 2 % 4 == 1
            &&& p.qos == QoS::ExactlyOnce ==> b / 2 % 4 == 2
            &&& b % 2 == 1 <==> p.retain
        }),
{
}

/// A subscription to one topic on the wire: its number, the topic, and the quality of service that
/// is asked for.
#[verifier::spinoff_prover]
pub proof fn law_subscribe_on_the_wire(
    s: Subscribe<'_>,
    topic: Seq<char>,
    qos: QoS,
    buf: Seq<u8>,
    version: MqttVersion,
)
    requires
        buf.len() < 268435456,
        bounded::filters_in(s.topics) == seq![(topic, qos)],
        s.encodable(buf.len(), version),
        s.encoding(buf, version).0 is Ok,
    ensures
        ({
            let out = s.encoding(buf, version).1;
            let n = s.encoding(buf, version).0->Ok_0 as int;
            let at = 1 + length_size(out);
            let bytes = utf8::encode_utf8(topic);
            &&& n <= out.len() == buf.len()
            &&& out[0] == 0x82
            &&& length_is_right(out, n)
            &&& two_bytes(out, at) == s.packet_id
            &&& has_field(out, at + 2, bytes)
            &&& at + 2 + 2 + bytes.len() + 1 == n
            &&& qos == QoS::AtMostOnce ==> out[n - 1] == 0
            &&& qos == QoS::AtLeastOnce ==> out[n - 1] == 1
            &&& qos == QoS::ExactlyOnce ==> out[n - 1] == 2
        }),
{
    let filters = bounded::filters_in(s.topics);
    let one = packet::filter_bytes((topic, qos));
    assert(filters.drop_first() =~= Seq::empty());
    reveal_with_fuel(packet::filters_bytes, 2);
    reveal_with_fuel(packet::filters_end_well, 2);
    assert(packet::filters_bytes(filters) =~= one);
    let content = packet::subscribe_content(s.packet_id, filters);
    let bytes = utf8::encode_utf8(topic);
    let k = bytes.len() as int;
    util::lemma_varint_len(content.len());
    assert(content.len() == 5 + k);
    lemma_frame(buf, 0x82, content);
    let out = packet::packet_written(buf, 0x82, content);
    let at = 1 + length_size(out);
    assert(out[at + 0] == content[0] && out[at + 1] == content[1]);
    assert(out[at + 2] == content[2] && out[at + 3] == content[3]);
    assert(content[2] == one[0] && content[3] == one[1]);
    assert(two_bytes(out, at + 2) == k);
    assert forall|i: int| 0 <= i < k implies #[trigger] out[at + 4 + i] == bytes[i] by {
        assert(content[4 + i] == one[2 + i] == bytes[i]);
        assert(out[at + (4 + i)] == content[4 + i]);
    }
    assert(out.subrange(at + 4, at + 4 + k) =~= bytes);
    assert(content[4 + k] == one[2 + k] == qos.level());
    assert(out[at + (4 + k)] == content[4 + k]);
}

/// A ping and a goodbye are two bytes each.
pub proof fn law_bare_packets_on_the_wire(
    p: PingReq,
    d: Disconnect<'_>,
    buf: Seq<u8>,
    version: MqttVersion,
)
    requires
        buf.len() >= 2,
    ensures
        p.encoding(buf, version).0 == Ok::<usize, MqttError<ErrorPlaceHolder>>(2),
        p.encoding(buf, version).1.take(2) == seq![0xC0u8, 0x00],
        d.encoding(buf, version).0 == Ok::<usize, MqttError<ErrorPlaceHolder>>(2),
        d.encoding(buf, version).1.take(2) == seq![0xE0u8, 0x00],
        p.encoding(buf, version).1.skip(2) == buf.skip(2),
        d.encoding(buf, version).1.skip(2) == buf.skip(2),
{
    assert(p.encoding(buf, version).1.take(2) =~= seq![0xC0u8, 0x00]);
    assert(d.encoding(buf, version).1.take(2) =~= seq![0xE0u8, 0x00]);
    assert(p.encoding(buf, version).1.skip(2) =~= buf.skip(2));
    assert(d.encoding(buf, version).1.skip(2) =~= buf.skip(2));
}

/// The broker's answer to a connect packet: whether it has kept the session is the lowest bit of
/// its third byte, and its reason is the fourth; in version 3 nothing else is looked at.
pub proof fn law_connack_is_read(
    buf: Seq<u8>,
    version: MqttVersion,
    r: Result<ConnAck<'_>, MqttError<ErrorPlaceHolder>>,
)
    requires
        ConnAck::decodable(buf, version),
        ConnAck::decodes(buf, version, r),
    ensures
        buf.len() >= 4,
        r matches Ok(a) ==> a.session_present == (buf[2] & 1 == 1) && a.reason_code == buf[3],
        version == MqttVersion::V3 ==> r is Ok,
{
    let b = buf[2];
    assert((b & 1 == 1) == (b % 2 == 1)) by (bit_vector);
}

/// The broker's answer to a subscription in version 3: its number, and one reason for each topic.
pub proof fn law_suback_is_read(
    buf: Seq<u8>,
    code: u8,
    r: Result<SubAck<'_>, MqttError<ErrorPlaceHolder>>,
)
    requires
        buf.len() == 5,
        buf[1] == 3,
        buf[4] == code,
        SubAck::decodes(buf, MqttVersion::V3, r),
    ensures
        r matches Ok(a) && a.packet_id == buf[2] * 256 + buf[3] && bounded::codes_in(a.reason_codes)
            == seq![code],
{
    reveal_with_fuel(util::varint_read, 2);
    assert(buf.skip(1)[0] == 3);
    assert(util::varint_at(buf, 1) == Some((3nat, 1nat)));
    assert(buf.subrange(4, 5) =~= seq![code]);
}

/// A published message that comes in, without properties: everything but the first byte and the
/// length is as on the way out.
pub proof fn law_publish_is_read(
    buf: Seq<u8>,
    version: MqttVersion,
    topic: Seq<char>,
    payload: Seq<u8>,
    r: Result<Publish<'_>, MqttError<ErrorPlaceHolder>>,
)
    requires
        ({
            let k = utf8::encode_utf8(topic).len() as int;
            let id = if buf[0] / 2 % 4 == 0 {
                0int
            } else {
                2
            };
            let none = if version == MqttVersion::V5 {
                1int
            } else {
                0
            };
            &&& buf.len() == 4 + k + id + none + payload.len()
            &&& version == MqttVersion::V5 ==> buf[4 + k + id] == 0
            &&& buf.len() < 128
            &&& buf[0] / 2 % 4 != 3
            &&& buf[1] == buf.len() - 2
            &&& has_field(buf, 2, utf8::encode_utf8(topic))
            &&& buf.skip(4 + k + id + none) == payload
        }),
        Publish::decodes(buf, version, r),
    ensures
        r matches Ok(p) && {
            let k = utf8::encode_utf8(topic).len() as int;
            &&& p.topic@ == topic
            &&& p.payload@ == payload
            &&& p.retain == (buf[0] % 2 == 1)
            &&& p.qos == QoS::AtMostOnce <==> buf[0] / 2 % 4 == 0
            &&& p.qos == QoS::AtLeastOnce <==> buf[0] / 2 % 4 == 1
            &&& p.qos == QoS::ExactlyOnce <==> buf[0] / 2 % 4 == 2
            &&& buf[0] / 2 % 4 == 0 ==> p.packet_id is None
            &&& buf[0] / 2 % 4 != 0 ==> p.packet_id is Some && p.packet_id->0 == two_bytes(
                buf,
                4 + k,
            )
        },
{
    reveal_with_fuel(util::varint_read, 2);
    assert(buf.skip(1)[0] == buf[1]);
    assert(util::varint_at(buf, 1) == Some((buf[1] as nat, 1nat)));
    let end = if buf[0] / 2 % 4 == 0 {
        4 + utf8::encode_utf8(topic).len() as int
    } else {
        6 + utf8::encode_utf8(topic).len() as int
    };
    if version == MqttVersion::V5 {
        assert(buf.skip(end)[0] == buf[end]);
        assert(util::varint_at(buf, end) == Some((0nat, 1nat)));
    }
    utf8::encode_utf8_valid_utf8(topic);
    utf8::encode_utf8_decode_utf8(topic);
}

/// The kind of a packet is the upper half of its first byte.
pub proof fn law_kind_of_a_packet<'a, T>(
    buf: Seq<u8>,
    version: MqttVersion,
    r: Result<Option<packet::MqttPacket<'a>>, MqttError<T>>,
)
    requires
        packet::packet_decodes(buf, version, r),
    ensures
        buf.len() == 0 <==> r == Ok::<Option<packet::MqttPacket<'a>>, MqttError<T>>(None),
        r matches Ok(Some(p)) ==> {
            &&& p is Connect <==> buf[0] / 16 == 1
            &&& p is ConnAck <==> buf[0] / 16 == 2
            &&& p is Publish <==> buf[0] / 16 == 3
            &&& p is PubAck <==> buf[0] / 16 == 4
            &&& p is Subscribe <==> buf[0] / 16 == 8
            &&& p is SubAck <==> buf[0] / 16 == 9
            &&& p is PingReq <==> buf[0] / 16 == 12
            &&& p is PingResp <==> buf[0] / 16 == 13
            &&& p is Disconnect <==> buf[0] / 16 == 14
        },
{
    assert(buf.len() > 0 ==> packet_type(buf) == buf[0] / 16);
}

/// A message that does not fit is not sent: a topic of more than 65535 bytes is refused as such, and
/// anything else that does not fit into the buffer as too large for it.
pub proof fn law_publish_that_does_not_fit(p: Publish<'_>, buf: Seq<u8>, version: MqttVersion)
    requires
        buf.len() >= 5,
        p.encodable(buf.len(), version),
    ensures
        utf8::encode_utf8(p.topic@).len() > 65535 ==> p.encoding(buf, version).0 == Err::<
            usize,
            MqttError<ErrorPlaceHolder>,
        >(MqttError::Protocol(ProtocolError::PayloadTooLarge)),
        utf8::encode_utf8(p.topic@).len() <= 65535 && utf8::encode_utf8(p.topic@).len()
            + p.payload@.len() + 7 > buf.len() ==> p.encoding(buf, version).0 == Err::<
            usize,
            MqttError<ErrorPlaceHolder>,
        >(MqttError::BufferTooSmall),
{
}

/// A message with a quality of service that there is not is refused.
pub proof fn law_malformed_publish(buf: Seq<u8>, version: MqttVersion, r: Result<Publish<'_>, MqttError<ErrorPlaceHolder>>)
    requires
        buf.len() > 0,
        buf[0] / 2 % 4 == 3,
        Publish::decodes(buf, version, r),
    ensures
        r == Err::<Publish<'_>, MqttError<ErrorPlaceHolder>>(
            MqttError::Protocol(ProtocolError::MalformedPacket),
        ),
{
}

/// A packet of a kind that there is not is refused with its kind.
pub proof fn law_unknown_kind<'a, T>(
    buf: Seq<u8>,
    version: MqttVersion,
    r: Result<Option<packet::MqttPacket<'a>>, MqttError<T>>,
)
    requires
        buf.len() > 0,
        packet::packet_decodes(buf, version, r),
        ({
            let t = buf[0] / 16;
            t == 0 || t == 5 || t == 6 || t == 7 || t == 10 || t == 11 || t == 15
        }),
    ensures
        r == Err::<Option<packet::MqttPacket<'a>>, MqttError<T>>(
            MqttError::Protocol(ProtocolError::InvalidPacketType(buf[0] / 16)),
        ),
{
}

/// What the packets of the client are made of is what they are made with.
pub proof fn law_made_packets<'a>(
    id: &'a str,
    keep_alive: u16,
    clean: bool,
    user: Option<&'a str>,
    key: Option<&'a [u8]>,
    c: Connect<'a>,
    d: Connect<'a>,
    number: u16,
    topic: &'a str,
    qos: QoS,
    s: Subscribe<'a>,
)
    requires
        call_ensures(Connect::<'a>::new, (id, keep_alive, clean), c),
        call_ensures(
            Connect::<'a>::with_credentials,
            (id, keep_alive, clean, user, key, None::<crate::mqtt::client::LastWill<'a>>),
            d,
        ),
        call_ensures(Subscribe::<'a>::new, (number, topic, qos), s),
    ensures
        c.client_id@ == id@ && c.keep_alive == keep_alive && c.clean_session == clean,
        c.username is None && c.password is None && c.will is None,
        d.client_id@ == id@ && d.keep_alive == keep_alive && d.clean_session == clean,
        d.will is None,
        user is Some <==> d.username is Some,
        user is Some ==> d.username->0@ == user->0@,
        key is Some <==> d.password is Some,
        key is Some ==> d.password->0@ == key->0@,
        s.packet_id == number,
        bounded::filters_in(s.topics) == seq![(topic@, qos)],
{
    assert(c@.client_id == c.client_id@ && d@.client_id == d.client_id@);
    assert(d@.username == packet::opt_text(d.username));
    assert(d@.password == packet::opt_bytes(d.password));
    assert(d@.will == packet::opt_will(d.will));
    assert(c@.username == packet::opt_text(c.username));
    assert(c@.password == packet::opt_bytes(c.password));
    assert(c@.will == packet::opt_will(c.will));
}

proof fn lemma_section(props: Seq<(u8, Seq<u8>)>)
    requires
        util::property_bytes(props).len() < 128,
    ensures
        ({
            let body = util::property_bytes(props);
            util::properties_written(seq![0u8] + body, 0, props) == seq![body.len() as u8] + body
        }),
{
    let body = util::property_bytes(props);
    reveal_with_fuel(util::varint, 2);
    assert(util::varint(body.len()) =~= seq![body.len() as u8]);
    assert(util::properties_written(seq![0u8] + body, 0, props) =~= seq![body.len() as u8] + body);
}

/// A property is its identifier and its data, behind those that stand in front of it.
pub proof fn law_properties_in_order(props: Seq<(u8, Seq<u8>)>, id: u8, data: Seq<u8>)
    ensures
        util::property_bytes(Seq::empty()) == Seq::<u8>::empty(),
        util::property_bytes(props.push((id, data))) == util::property_bytes(props) + seq![id]
            + data,
{
    assert(props.push((id, data)).drop_last() =~= props);
    assert(util::property_bytes(props.push((id, data))) =~= util::property_bytes(props) + seq![id]
        + data);
}

/// The broker's answer to a subscription of up to eight topics in version 3: one reason for each, in
/// their order.
pub proof fn law_reasons_are_read(buf: Seq<u8>, r: Result<SubAck<'_>, MqttError<ErrorPlaceHolder>>)
    requires
        5 <= buf.len() <= 12,
        buf[1] == buf.len() - 2,
        SubAck::decodes(buf, MqttVersion::V3, r),
    ensures
        r matches Ok(a) && a.packet_id == two_bytes(buf, 2) && bounded::codes_in(a.reason_codes)
            == buf.subrange(4, buf.len() as int),
{
    reveal_with_fuel(util::varint_read, 2);
    assert(buf.skip(1)[0] == buf[1]);
    assert(util::varint_at(buf, 1) == Some((buf[1] as nat, 1nat)));
}

/// Where the fields of a connect packet stand when it is read, with the flags that announce them:
/// the client's name, the topic and the payload of the will, the user name, and the password.
pub open spec fn fields_stand(
    buf: Seq<u8>,
    start: int,
    id: Seq<char>,
    topic: Seq<char>,
    payload: Seq<u8>,
    user: Seq<char>,
    key: Seq<u8>,
) -> bool {
    let f = buf[8];
    let will = start + 2 + utf8::encode_utf8(id).len();
    let after_topic = will + 2 + utf8::encode_utf8(topic).len();
    let name = if f / 4 % 2 == 1 {
        after_topic + 2 + payload.len()
    } else {
        will
    };
    let password = if f / 128 % 2 == 1 {
        name + 2 + utf8::encode_utf8(user).len()
    } else {
        name
    };
    &&& has_field(buf, start, utf8::encode_utf8(id))
    &&& f / 4 % 2 == 1 ==> has_field(buf, will, utf8::encode_utf8(topic)) && has_field(
        buf,
        after_topic,
        payload,
    )
    &&& f / 128 % 2 == 1 ==> has_field(buf, name, utf8::encode_utf8(user))
    &&& f / 64 % 2 == 1 ==> has_field(buf, password, key)
}

/// A connect packet that is read: the ninth byte says which fields follow and the two bytes behind
/// it are the keep-alive time; in version 5 the length of the properties comes next, here zero; and
/// each field is what stands in its place.
pub proof fn law_connect_is_read(
    buf: Seq<u8>,
    version: MqttVersion,
    id: Seq<char>,
    topic: Seq<char>,
    payload: Seq<u8>,
    user: Seq<char>,
    key: Seq<u8>,
    r: Result<Connect<'_>, MqttError<ErrorPlaceHolder>>,
)
    requires
        buf.len() >= 13,
        version == MqttVersion::V5 ==> buf[11] == 0,
        buf[8] / 8 % 4 != 3,
        fields_stand(
            buf,
            if version == MqttVersion::V5 {
                12
            } else {
                11
            },
            id,
            topic,
            payload,
            user,
            key,
        ),
        Connect::decodes(buf, version, r),
    ensures
        r matches Ok(c) && {
            let f = buf[8];
            &&& c.client_id@ == id
            &&& c.keep_alive == two_bytes(buf, 9)
            &&& c.clean_session <==> f / 2 % 2 == 1
            &&& c.will is Some <==> f / 4 % 2 == 1
            &&& c.will is Some ==> {
                let w = c.will->0;
                &&& w.topic@ == topic
                &&& w.payload@ == payload
                &&& w.retain <==> f / 32 % 2 == 1
                &&& w.qos == QoS::AtMostOnce <==> f / 8 % 4 == 0
                &&& w.qos == QoS::AtLeastOnce <==> f / 8 % 4 == 1
                &&& w.qos == QoS::ExactlyOnce <==> f / 8 % 4 == 2
            }
            &&& c.username is Some <==> f / 128 % 2 == 1
            &&& c.username is Some ==> c.username->0@ == user
            &&& c.password is Some <==> f / 64 % 2 == 1
            &&& c.password is Some ==> c.password->0@ == key
            &&& bounded::properties_in(c.properties).len() == 0
        },
{
    reveal_with_fuel(util::varint_read, 2);
    utf8::encode_utf8_valid_utf8(id);
    utf8::encode_utf8_decode_utf8(id);
    utf8::encode_utf8_valid_utf8(topic);
    utf8::encode_utf8_decode_utf8(topic);
    utf8::encode_utf8_valid_utf8(user);
    utf8::encode_utf8_decode_utf8(user);
    if version == MqttVersion::V5 {
        assert(buf.skip(11)[0] == buf[11]);
        assert(util::varint_at(buf, 11) == Some((0nat, 1nat)));
    }
}

/// The properties of a packet that is read: behind their length, in bytes, an identifier and a byte
/// of data each, in the order in which they stand. More than eight are refused.
pub proof fn law_properties_are_read(buf: Seq<u8>, at: int, i: int)
    requires
        0 <= at < buf.len(),
        buf[at] < 128,
        0 <= i < buf[at] as int / 2,
    ensures
        buf[at] % 2 == 0 && buf[at] <= 16 ==> (util::properties_read(buf, at).0 matches Ok(l) && {
            &&& 2 * l.len() == buf[at]
            &&& l[i].0 == buf[at + 1 + 2 * i]
            &&& l[i].1 == seq![buf[at + 2 + 2 * i]]
        }) && util::properties_read(buf, at).1 == at + 1 + buf[at],
        buf[at] > 16 ==> util::properties_read(buf, at).0 == Err::<
            Seq<(u8, Seq<u8>)>,
            MqttError<ErrorPlaceHolder>,
        >(MqttError::Protocol(ProtocolError::TooManyProperties)),
{
    reveal_with_fuel(util::varint_read, 2);
    assert(buf.skip(at)[0] == buf[at]);
    assert(util::varint_at(buf, at) == Some((buf[at] as nat, 1nat)));
}

} // verus!
