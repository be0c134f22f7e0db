//! MQTT packets: what they hold, and how they are written to and read from a buffer.

use crate::mqtt::bounded;
use crate::mqtt::client::{LastWill, LastWillView, MqttVersion};
use crate::mqtt::error;
use crate::mqtt::error::{MqttError, ProtocolError};
use crate::mqtt::transport::{ErrorPlaceHolder, TransportError};
use crate::mqtt::util;
use heapless::Vec as BoundedVec;
use vstd::prelude::*;
use vstd::utf8;

verus! {

/// Quality of service of a message.
#[derive(Debug, Clone, Copy, PartialEq, Eq, Structural)]
pub enum QoS {
    AtMostOnce,
    AtLeastOnce,
    ExactlyOnce,
}

impl QoS {
    /// The level as the two bits that stand for it on the wire.
    pub open spec fn level(self) -> u8 {
        match self {
            QoS::AtMostOnce => 0,
            QoS::AtLeastOnce => 1,
            QoS::ExactlyOnce => 2,
        }
    }

    /// The level as the two bits that stand for it on the wire.
    pub fn code(self) -> (n: u8)
        ensures
            n == self.level(),
    {
        match self {
            QoS::AtMostOnce => 0,
            QoS::AtLeastOnce => 1,
            QoS::ExactlyOnce => 2,
        }
    }

    /// The level that two bits stand for; three stands for none.
    pub fn from_code(n: u8) -> (q: Option<QoS>)
        ensures
            match q {
                Some(qos) => qos.level() == n,
                None => n > 2,
            },
    {
        if n == 0 {
            Some(QoS::AtMostOnce)
        } else if n == 1 {
            Some(QoS::AtLeastOnce)
        } else if n == 2 {
            Some(QoS::ExactlyOnce)
        } else {
            None
        }
    }
}

/// A property of an MQTT v5 packet.
#[derive(Debug)]
pub struct Property<'a> {
    pub id: u8,
    pub data: &'a [u8],
}

/// A packet that can be written into a buffer.
pub trait EncodePacket {
    /// Whether a buffer of `len` bytes is one that the packet can be tried on.
    spec fn encodable(&self, len: nat, version: MqttVersion) -> bool;

    /// What encoding into `buf` returns, and the buffer afterwards.
    spec fn encoding(&self, buf: Seq<u8>, version: MqttVersion) -> (
        Result<usize, MqttError<ErrorPlaceHolder>>,
        Seq<u8>,
    );

    /// Writes the packet at the start of the buffer, and returns how many bytes it takes.
    fn encode(&self, buf: &mut [u8], version: MqttVersion) -> (r: Result<
        usize,
        MqttError<ErrorPlaceHolder>,
    >)
        requires
            self.encodable(old(buf)@.len(), version),
        ensures
            r == self.encoding(old(buf)@, version).0,
            final(buf)@ == self.encoding(old(buf)@, version).1,
    ;
}

/// A packet that can be read from a buffer.
pub trait DecodePacket<'a>: Sized {
    /// Whether the buffer holds the bytes that the decoder looks at.
    spec fn decodable(buf: Seq<u8>, version: MqttVersion) -> bool;

    /// Whether `r` is what the buffer decodes to.
    spec fn decodes(
        buf: Seq<u8>,
        version: MqttVersion,
        r: Result<Self, MqttError<ErrorPlaceHolder>>,
    ) -> bool;

    /// Reads the packet from a buffer that starts with it.
    fn decode(buf: &'a [u8], version: MqttVersion) -> (r: Result<
        Self,
        MqttError<ErrorPlaceHolder>,
    >)
        requires
            Self::decodable(buf@, version),
        ensures
            Self::decodes(buf@, version, r),
    ;
}

/// A packet: its first byte, the length of its content in base 128, and the content.
///
/// The length is written into four bytes in front of the content; one that takes more runs over
/// the first bytes of the content.
pub open spec fn framed(first: u8, content: Seq<u8>) -> Seq<u8> {
    let len = util::varint(content.len());
    seq![first] + len + if len.len() <= 4 {
        content
    } else {
        len.skip(4) + content.skip(len.len() - 4)
    }
}

/// How many bytes the packet takes.
pub open spec fn framed_len(content: Seq<u8>) -> int {
    (1 + util::varint(content.len()).len() + content.len()) as int
}

/// `buf` after writing the first byte and a part of the content.
pub open spec fn part_written(buf: Seq<u8>, first: u8, part: Seq<u8>) -> Seq<u8> {
    util::splice(util::splice(buf, 0, seq![first]), 5, part)
}

/// `buf` after writing a whole packet: the content stood behind five bytes before it was moved
/// up to its header.
pub open spec fn packet_written(buf: Seq<u8>, first: u8, content: Seq<u8>) -> Seq<u8> {
    util::splice(util::splice(buf, 5, content), 0, framed(first, content))
}

/// The packet is what stands in the first bytes of the buffer.
pub proof fn lemma_packet_in_front(buf: Seq<u8>, first: u8, content: Seq<u8>)
    requires
        5 + content.len() <= buf.len(),
        framed_len(content) <= buf.len(),
    ensures
        packet_written(buf, first, content).take(framed_len(content)) == framed(first, content),
        framed(first, content).len() == framed_len(content),
{
    util::lemma_varint_len(content.len());
    util::lemma_varint_short(content.len());
    assert(framed(first, content).len() == framed_len(content));
    assert(packet_written(buf, first, content).take(framed_len(content)) =~= framed(
        first,
        content,
    ));
}

/// Moves `len` bytes from `from` to `to`.
fn move_bytes(buf: &mut [u8], from: usize, len: usize, to: usize)
    requires
        from + len <= old(buf)@.len(),
        to + len <= old(buf)@.len(),
    ensures
        final(buf)@ == util::splice(
            old(buf)@,
            to as int,
            old(buf)@.subrange(from as int, from + len),
        ),
{
    let room: usize = buf.len();
    let ghost source = buf@.subrange(from as int, from + len);
    if to <= from {
        let mut i: usize = 0;
        while i < len
            invariant
                i <= len,
                to <= from,
                from + len <= room,
                room == buf@.len() == old(buf)@.len(),
                forall|k: int|
                    0 <= k < buf@.len() ==> #[trigger] buf@[k] == if to <= k < to + i {
                        old(buf)@[k - to + from]
                    } else {
                        old(buf)@[k]
                    },
            decreases len - i,
        {
            buf[to + i] = buf[from + i];
            i += 1;
        }
    } else {
        let mut n: usize = len;
        while n > 0
            invariant
                n <= len,
                from < to,
                to + len <= room,
                room == buf@.len() == old(buf)@.len(),
                forall|k: int|
                    0 <= k < buf@.len() ==> #[trigger] buf@[k] == if to + n <= k < to + len {
                        old(buf)@[k - to + from]
                    } else {
                        old(buf)@[k]
                    },
            decreases n,
        {
            n -= 1;
            buf[to + n] = buf[from + n];
        }
    }
    assert(buf@ =~= util::splice(old(buf)@, to as int, source));
}

/// Writes the length of the content that stands behind five bytes, and moves the content up to
/// its header.
fn finish_packet(buf: &mut [u8], end: usize, Ghost(first): Ghost<u8>, Ghost(before): Ghost<
    Seq<u8>,
>) -> (r: Result<usize, MqttError<ErrorPlaceHolder>>)
    requires
        5 <= end <= old(buf)@.len(),
        before.len() == old(buf)@.len(),
        old(buf)@ == part_written(before, first, old(buf)@.subrange(5, end as int)),
        framed_len(old(buf)@.subrange(5, end as int)) <= old(buf)@.len(),
    ensures
        ({
            let content = old(buf)@.subrange(5, end as int);
            &&& r == Ok::<usize, MqttError<ErrorPlaceHolder>>(framed_len(content) as usize)
            &&& final(buf)@ == packet_written(before, first, content)
        }),
{
    let ghost content = buf@.subrange(5, end as int);
    let ghost start = buf@;
    let ghost len = util::varint(content.len());
    let room: usize = buf.len();
    let mut cursor: usize = 1;
    proof {
        util::lemma_varint_len(content.len());
        util::lemma_varint_short(content.len());
    }
    util::write_variable_byte_integer(&mut cursor, buf, end - 5)?;
    let ghost mid = buf@;
    move_bytes(buf, 5, end - 5, cursor);
    proof {
        let moved = mid.subrange(5, end as int);
        let wanted = if len.len() <= 4 {
            content
        } else {
            len.skip(4) + content.skip(len.len() - 4)
        };
        assert(moved =~= wanted);
        assert(buf@ =~= packet_written(before, first, content));
    }
    Ok(cursor + (end - 5))
}

/// Some byte strings, each behind its length.
pub open spec fn fields_bytes(fields: Seq<Seq<u8>>) -> Seq<u8>
    decreases fields.len(),
{
    if fields.len() == 0 {
        Seq::empty()
    } else {
        util::prefixed(fields[0]) + fields_bytes(fields.drop_first())
    }
}

/// The first error on the way through the fields.
pub open spec fn fields_error(fields: Seq<Seq<u8>>, room: int) -> Option<
    MqttError<ErrorPlaceHolder>,
>
    decreases fields.len(),
{
    if fields.len() == 0 {
        None
    } else if util::field_error(fields[0], room) is Some {
        util::field_error(fields[0], room)
    } else {
        fields_error(fields.drop_first(), room - 2 - fields[0].len())
    }
}

/// The bytes of the fields that can be written into `room` bytes.
pub open spec fn fields_written(fields: Seq<Seq<u8>>, room: int) -> Seq<u8>
    decreases fields.len(),
{
    if fields.len() == 0 || util::field_error(fields[0], room) is Some {
        Seq::empty()
    } else {
        util::prefixed(fields[0]) + fields_written(
            fields.drop_first(),
            room - 2 - fields[0].len(),
        )
    }
}

/// Fields without an error are written whole, and fit.
pub proof fn lemma_fields_whole(fields: Seq<Seq<u8>>, room: int)
    requires
        room >= 0,
    ensures
        fields_error(fields, room) is None ==> fields_written(fields, room) == fields_bytes(fields),
        fields_written(fields, room).len() <= room,
    decreases fields.len(),
{
    if fields.len() > 0 && util::field_error(fields[0], room) is None {
        lemma_fields_whole(fields.drop_first(), room - 2 - fields[0].len());
    }
}

/// The contents of a list of byte strings.
pub open spec fn slice_views(fields: Seq<&[u8]>) -> Seq<Seq<u8>> {
    fields.map_values(|f: &[u8]| f@)
}

/// Writes the fields from `pos` on; stops at the first that is refused.
fn put_fields(buf: &mut [u8], pos: usize, fields: &[&[u8]]) -> (r: Result<
    usize,
    MqttError<ErrorPlaceHolder>,
>)
    requires
        pos <= old(buf)@.len(),
    ensures
        ({
            let views = slice_views(fields@);
            let room = old(buf)@.len() - pos;
            &&& final(buf)@ == util::splice(old(buf)@, pos as int, fields_written(views, room))
            &&& match fields_error(views, room) {
                Some(e) => r == Err::<usize, MqttError<ErrorPlaceHolder>>(e),
                None => r == Ok::<usize, MqttError<ErrorPlaceHolder>>(
                    (pos + fields_written(views, room).len()) as usize,
                ),
            }
        }),
{
    let ghost views = slice_views(fields@);
    let ghost all = buf@.len() - pos;
    let ghost mut done = Seq::<u8>::empty();
    let mut at: usize = pos;
    let mut i: usize = 0;
    proof {
        assert(views.skip(0) =~= views);
        assert(done + fields_written(views, all) =~= fields_written(views, all));
        assert(util::splice(buf@, pos as int, done) =~= buf@);
    }
    while i < fields.len()
        invariant
            i <= fields@.len(),
            views == slice_views(fields@),
            buf@.len() == old(buf)@.len(),
            all == buf@.len() - pos,
            at == pos + done.len(),
            at <= buf@.len(),
            buf@ == util::splice(old(buf)@, pos as int, done),
            fields_written(views, all) == done + fields_written(
                views.skip(i as int),
                buf@.len() - at,
            ),
            fields_error(views, all) == fields_error(views.skip(i as int), buf@.len() - at),
        decreases fields@.len() - i,
    {
        let ghost rest = views.skip(i as int);
        let ghost room = buf@.len() - at;
        let size: usize = buf.len();
        assert(rest[0] == fields@[i as int]@);
        match util::put_field(buf, at, fields[i]) {
            Err(e) => {
                assert(done + Seq::<u8>::empty() =~= done);
                return Err(e);
            },
            Ok(n) => {
                proof {
                    let bytes = util::prefixed(rest[0]);
                    util::lemma_splice_append(old(buf)@, pos as int, done, bytes);
                    assert(rest.drop_first() =~= views.skip(i as int + 1));
                    assert(done + (bytes + fields_written(rest.drop_first(), room - n)) =~= (done
                        + bytes) + fields_written(rest.drop_first(), room - n));
                    done = done + bytes;
                }
                at = at + n;
            },
        }
        i += 1;
    }
    assert(views.skip(i as int) =~= Seq::<Seq<u8>>::empty());
    assert(done + Seq::<u8>::empty() =~= done);
    Ok(at)
}

/// Opens a session.
#[derive(Debug)]
pub struct Connect<'a> {
    pub clean_session: bool,
    pub keep_alive: u16,
    pub client_id: &'a str,
    pub username: Option<&'a str>,
    pub password: Option<&'a [u8]>,
    pub will: Option<LastWill<'a>>,
    pub properties: BoundedVec<Property<'a>, 8>,
}

/// The contents of a [`Connect`].
#[verifier::ext_equal]
pub struct ConnectView {
    pub clean_session: bool,
    pub keep_alive: u16,
    pub client_id: Seq<char>,
    pub username: Option<Seq<char>>,
    pub password: Option<Seq<u8>>,
    pub will: Option<LastWillView>,
    pub properties: Seq<(u8, Seq<u8>)>,
}

/// An optional text by its contents.
pub open spec fn opt_text(o: Option<&str>) -> Option<Seq<char>> {
    match o {
        Some(s) => Some(s@),
        None => None,
    }
}

/// An optional byte string by its contents.
pub open spec fn opt_bytes(o: Option<&[u8]>) -> Option<Seq<u8>> {
    match o {
        Some(b) => Some(b@),
        None => None,
    }
}

/// An optional last will by its contents.
pub open spec fn opt_will(o: Option<LastWill<'_>>) -> Option<LastWillView> {
    match o {
        Some(w) => Some(w@),
        None => None,
    }
}

impl<'a> View for Connect<'a> {
    type V = ConnectView;

    open spec fn view(&self) -> ConnectView {
        ConnectView {
            clean_session: self.clean_session,
            keep_alive: self.keep_alive,
            client_id: self.client_id@,
            username: opt_text(self.username),
            password: opt_bytes(self.password),
            will: opt_will(self.will),
            properties: bounded::properties_in(self.properties),
        }
    }
}

impl ConnectView {
    /// The connect flags.
    pub open spec fn flags(self) -> int {
        (if self.clean_session {
            2int
        } else {
            0
        }) + (match self.will {
            Some(w) => 4 + w.qos.level() * 8 + if w.retain {
                32int
            } else {
                0
            },
            None => 0,
        }) + (if self.password is Some {
            64int
        } else {
            0
        }) + (if self.username is Some {
            128int
        } else {
            0
        })
    }

    /// Protocol name, protocol level, flags and keep-alive time.
    pub open spec fn head(self, version: MqttVersion) -> Seq<u8> {
        seq![
            0,
            4,
            0x4D,
            0x51,
            0x54,
            0x54,
            if version == MqttVersion::V5 {
                5
            } else {
                4
            },
            self.flags() as u8,
            (self.keep_alive / 256) as u8,
            (self.keep_alive % 256) as u8,
        ]
    }

    /// The property section, which only version 5 has.
    pub open spec fn section(self, version: MqttVersion) -> Seq<u8> {
        if version == MqttVersion::V5 {
            util::properties_written(
                seq![0u8] + util::property_bytes(self.properties),
                0,
                self.properties,
            )
        } else {
            Seq::empty()
        }
    }

    /// The length-prefixed fields of the payload, in order.
    pub open spec fn fields(self) -> Seq<Seq<u8>> {
        seq![utf8::encode_utf8(self.client_id)] + (match self.will {
            Some(w) => seq![utf8::encode_utf8(w.topic), w.payload],
            None => Seq::empty(),
        }) + (match self.username {
            Some(u) => seq![utf8::encode_utf8(u)],
            None => Seq::empty(),
        }) + (match self.password {
            Some(p) => seq![p],
            None => Seq::empty(),
        })
    }

    /// What stands in front of the fields.
    pub open spec fn preamble(self, version: MqttVersion) -> Seq<u8> {
        self.head(version) + self.section(version)
    }

    /// Everything behind the packet's length.
    pub open spec fn content(self, version: MqttVersion) -> Seq<u8> {
        self.preamble(version) + fields_bytes(self.fields())
    }
}

/// Writing behind a part of the content makes the part longer.
proof fn lemma_part_grows(buf: Seq<u8>, first: u8, part: Seq<u8>, more: Seq<u8>)
    requires
        5 + part.len() + more.len() <= buf.len(),
    ensures
        util::splice(part_written(buf, first, part), 5 + part.len() as int, more) == part_written(
            buf,
            first,
            part + more,
        ),
{
    util::lemma_splice_append(util::splice(buf, 0, seq![first]), 5, part, more);
}

/// Writing properties into a buffer is writing their section.
proof fn lemma_section_written(buf: Seq<u8>, pos: int, props: Seq<(u8, Seq<u8>)>)
    requires
        0 <= pos,
        pos + 1 + util::property_bytes(props).len() <= buf.len(),
    ensures
        util::properties_written(buf, pos, props) == util::splice(
            buf,
            pos,
            util::properties_written(seq![0u8] + util::property_bytes(props), 0, props),
        ),
{
    let body = util::property_bytes(props);
    util::lemma_varint_len(body.len());
    util::lemma_varint_short(body.len());
    let alone = util::properties_written(seq![0u8] + body, 0, props);
    assert(alone.len() == 1 + body.len());
    assert(util::properties_written(buf, pos, props) =~= util::splice(buf, pos, alone));
}

impl<'a> Connect<'a> {
    pub fn new(client_id: &'a str, keep_alive: u16, clean_session: bool) -> (c: Self)
        ensures
            c@ == (ConnectView {
                clean_session,
                keep_alive,
                client_id: client_id@,
                username: None,
                password: None,
                will: None,
                properties: Seq::empty(),
            }),
    {
        Self {
            client_id,
            keep_alive,
            clean_session,
            username: None,
            password: None,
            will: None,
            properties: bounded::no_properties(),
        }
    }

    /// A connect packet with credentials and a last will.
    pub fn with_credentials(
        client_id: &'a str,
        keep_alive: u16,
        clean_session: bool,
        username: Option<&'a str>,
        password: Option<&'a [u8]>,
        will: Option<LastWill<'a>>,
    ) -> (c: Self)
        ensures
            c@ == (ConnectView {
                clean_session,
                keep_alive,
                client_id: client_id@,
                username: opt_text(username),
                password: opt_bytes(password),
                will: opt_will(will),
                properties: Seq::empty(),
            }),
    {
        Self {
            client_id,
            keep_alive,
            clean_session,
            username,
            password,
            will,
            properties: bounded::no_properties(),
        }
    }

    fn flag_byte(&self) -> (f: u8)
        ensures
            f == self@.flags(),
    {
        let mut flags: u8 = 0;
        if self.clean_session {
            flags += 2;
        }
        if let Some(will) = self.will {
            flags += 4 + will.qos.code() * 8;
            if will.retain {
                flags += 32;
            }
        }
        if self.username.is_some() {
            flags += 128;
        }
        if self.password.is_some() {
            flags += 64;
        }
        flags
    }

    fn put_head(&self, buf: &mut [u8], version: MqttVersion, Ghost(start): Ghost<Seq<u8>>)
        requires
            old(buf)@.len() == start.len() >= 15,
            old(buf)@ == part_written(start, 0x10, Seq::empty()),
        ensures
            final(buf)@ == part_written(start, 0x10, self@.head(version)),
    {
        buf[5] = 0;
        buf[6] = 4;
        buf[7] = 0x4D;
        buf[8] = 0x51;
        buf[9] = 0x54;
        buf[10] = 0x54;
        buf[11] = if version == MqttVersion::V5 {
            5
        } else {
            4
        };
        buf[12] = self.flag_byte();
        buf[13] = (self.keep_alive / 256) as u8;
        buf[14] = (self.keep_alive % 256) as u8;
        assert(buf@ =~= part_written(start, 0x10, self@.head(version)));
    }

    fn put_section(&self, buf: &mut [u8], version: MqttVersion, Ghost(start): Ghost<Seq<u8>>) -> (r:
        Result<usize, MqttError<ErrorPlaceHolder>>)
        requires
            old(buf)@.len() == start.len() >= 15,
            old(buf)@ == part_written(start, 0x10, self@.head(version)),
            self.encodable(start.len(), version),
        ensures
            match r {
                Ok(cursor) => cursor == 5 + self@.preamble(version).len() && cursor <= start.len()
                    && final(buf)@ == part_written(start, 0x10, self@.preamble(version)),
                Err(e) => e == MqttError::<ErrorPlaceHolder>::BufferTooSmall && 5 + self@.preamble(
                    version,
                ).len() > start.len() && final(buf)@ == old(buf)@,
            },
    {
        let mut cursor: usize = 15;
        if version == MqttVersion::V5 {
            let ghost props = self@.properties;
            let ghost body = util::property_bytes(props);
            let ghost section = self@.section(version);
            proof {
                util::lemma_varint_len(body.len());
                util::lemma_varint_short(body.len());
                assert(section.len() == 1 + body.len());
                assert(props.len() == 0 ==> body.len() == 0);
            }
            match util::write_properties(
                &mut cursor,
                buf,
                bounded::property_slice(&self.properties),
            ) {
                Err(e) => {
                    return Err(e);
                },
                Ok(_) => {},
            }
            proof {
                lemma_section_written(old(buf)@, 15, props);
                assert(buf@ =~= util::splice(old(buf)@, 15, section));
                lemma_part_grows(start, 0x10, self@.head(version), section);
            }
        } else {
            assert(self@.preamble(version) =~= self@.head(version));
        }
        Ok(cursor)
    }

    fn field_list(&self) -> (fields: Vec<&'a [u8]>)
        ensures
            slice_views(fields@) == self@.fields(),
    {
        let mut fields: Vec<&'a [u8]> = Vec::new();
        fields.push(self.client_id.as_bytes());
        if let Some(will) = self.will {
            fields.push(will.topic.as_bytes());
            fields.push(will.payload);
        }
        if let Some(username) = self.username {
            fields.push(username.as_bytes());
        }
        if let Some(password) = self.password {
            fields.push(password);
        }
        assert(slice_views(fields@) =~= self@.fields());
        fields
    }
}

impl<'a> EncodePacket for Connect<'a> {
    /// The head takes fifteen bytes; a buffer that holds its name but not the rest of it is no
    /// buffer to try, nor is one that ends within the properties.
    open spec fn encodable(&self, len: nat, version: MqttVersion) -> bool {
        let c = self@;
        &&& len >= 5
        &&& len < 11 || len >= 15
        &&& len >= 15 && version == MqttVersion::V5 && c.properties.len() > 0 ==> 16
            + util::property_bytes(c.properties).len() <= len
        &&& framed_len(c.content(version)) > len ==> 5 + c.content(version).len() > len
    }

    open spec fn encoding(&self, buf: Seq<u8>, version: MqttVersion) -> (
        Result<usize, MqttError<ErrorPlaceHolder>>,
        Seq<u8>,
    ) {
        let c = self@;
        let before = c.preamble(version);
        let room = buf.len() - 5 - before.len();
        if buf.len() < 11 {
            (Err(MqttError::BufferTooSmall), part_written(buf, 0x10, Seq::empty()))
        } else if room < 0 {
            (Err(MqttError::BufferTooSmall), part_written(buf, 0x10, c.head(version)))
        } else {
            match fields_error(c.fields(), room) {
                Some(e) => (
                    Err(e),
                    part_written(buf, 0x10, before + fields_written(c.fields(), room)),
                ),
                None => (
                    Ok(framed_len(c.content(version)) as usize),
                    packet_written(buf, 0x10, c.content(version)),
                ),
            }
        }
    }

    fn encode(&self, buf: &mut [u8], version: MqttVersion) -> (r: Result<
        usize,
        MqttError<ErrorPlaceHolder>,
    >) {
        let ghost start = buf@;
        let ghost c = self@;
        buf[0] = 0x10;
        assert(buf@ =~= part_written(start, 0x10, Seq::empty()));
        if buf.len() < 11 {
            return Err(MqttError::BufferTooSmall);
        }
        self.put_head(buf, version, Ghost(start));
        let cursor: usize = match self.put_section(buf, version, Ghost(start)) {
            Err(e) => {
                return Err(e);
            },
            Ok(cursor) => cursor,
        };
        let fields: Vec<&'a [u8]> = self.field_list();
        let ghost room = buf@.len() - cursor;
        let ghost pre = c.preamble(version);
        let put: Result<usize, MqttError<ErrorPlaceHolder>> = put_fields(
            buf,
            cursor,
            fields.as_slice(),
        );
        proof {
            let written = fields_written(c.fields(), room);
            lemma_fields_whole(c.fields(), room);
            lemma_part_grows(start, 0x10, pre, written);
        }
        match put {
            Err(e) => Err(e),
            Ok(end) => {
                assert(buf@.subrange(5, end as int) =~= c.content(version));
                finish_packet(buf, end, Ghost(0x10), Ghost(start))
            },
        }
    }
}

/// What stands at `pos`: a byte string behind its length, and where it ends.
pub open spec fn bytes_read(buf: Seq<u8>, pos: int) -> Option<(Seq<u8>, int)> {
    let n = buf[pos] * 256 + buf[pos + 1];
    if pos + 2 > buf.len() || pos + 2 + n > buf.len() {
        None
    } else {
        Some((buf.subrange(pos + 2, pos + 2 + n), pos + 2 + n))
    }
}

/// Reads a byte string behind its length.
fn read_bytes<'a>(buf: &'a [u8], pos: usize) -> (r: Option<(&'a [u8], usize)>)
    ensures
        match r {
            Some((b, end)) => bytes_read(buf@, pos as int) == Some((b@, end as int)) && end
                <= buf@.len(),
            None => bytes_read(buf@, pos as int) is None,
        },
{
    if pos > buf.len() || buf.len() - pos < 2 {
        return None;
    }
    let n: usize = buf[pos] as usize * 256 + buf[pos + 1] as usize;
    if buf.len() - pos - 2 < n {
        return None;
    }
    Some((vstd::slice::slice_subrange(buf, pos + 2, pos + 2 + n), pos + 2 + n))
}

/// Whether a bit of the connect flags is set.
pub open spec fn flag(flags: u8, weight: int) -> bool {
    flags as int / weight % 2 == 1
}

/// The last will that the flags announce at `pos`, or why it is refused; and where it ends.
pub open spec fn will_read(buf: Seq<u8>, flags: u8, pos: int) -> (
    Result<Option<LastWillView>, MqttError<ErrorPlaceHolder>>,
    int,
) {
    let level = flags as int / 8 % 4;
    let (topic, at) = util::text_read(buf, pos);
    if !flag(flags, 4) {
        (Ok(None), pos)
    } else if level == 3 {
        (Err(util::malformed()), pos)
    } else {
        match topic {
            Err(e) => (Err(e), at),
            Ok(topic) => match bytes_read(buf, at) {
                None => (Err(util::malformed()), at),
                Some((payload, end)) => (
                    Ok(
                        Some(
                            LastWillView {
                                topic,
                                payload,
                                qos: if level == 0 {
                                    QoS::AtMostOnce
                                } else if level == 1 {
                                    QoS::AtLeastOnce
                                } else {
                                    QoS::ExactlyOnce
                                },
                                retain: flag(flags, 32),
                            },
                        ),
                    ),
                    end,
                ),
            },
        }
    }
}

fn read_will<'a>(buf: &'a [u8], flags: u8, pos: usize) -> (r: Result<
    (Option<LastWill<'a>>, usize),
    MqttError<ErrorPlaceHolder>,
>)
    requires
        pos <= buf@.len(),
    ensures
        match r {
            Ok((w, end)) => will_read(buf@, flags, pos as int) == (
                Ok::<Option<LastWillView>, MqttError<ErrorPlaceHolder>>(opt_will(w)),
                end as int,
            ) && end <= buf@.len(),
            Err(e) => will_read(buf@, flags, pos as int).0 == Err::<
                Option<LastWillView>,
                MqttError<ErrorPlaceHolder>,
            >(e),
        },
{
    if flags / 4 % 2 == 0 {
        return Ok((None, pos));
    }
    let qos: QoS = match QoS::from_code(flags / 8 % 4) {
        Some(q) => q,
        None => {
            return Err(MqttError::Protocol(ProtocolError::MalformedPacket));
        },
    };
    let mut cursor: usize = pos;
    let topic: &'a str = match util::read_utf8_string(&mut cursor, buf) {
        Ok(t) => t,
        Err(e) => {
            return Err(e);
        },
    };
    match read_bytes(buf, cursor) {
        None => Err(MqttError::Protocol(ProtocolError::MalformedPacket)),
        Some((payload, end)) => {
            let will: LastWill<'a> = LastWill { topic, payload, qos, retain: flags / 32 % 2 == 1 };
            Ok((Some(will), end))
        },
    }
}

/// The user name that the flags announce at `pos`, or why it is refused; and where it ends.
pub open spec fn username_read(buf: Seq<u8>, flags: u8, pos: int) -> (
    Result<Option<Seq<char>>, MqttError<ErrorPlaceHolder>>,
    int,
) {
    if !flag(flags, 128) {
        (Ok(None), pos)
    } else {
        match util::text_read(buf, pos) {
            (Ok(s), end) => (Ok(Some(s)), end),
            (Err(e), end) => (Err(e), end),
        }
    }
}

/// The properties of a version 5 packet at `pos`; other versions have none.
pub open spec fn section_read(buf: Seq<u8>, version: MqttVersion, pos: int) -> (
    Result<Seq<(u8, Seq<u8>)>, MqttError<ErrorPlaceHolder>>,
    int,
) {
    if version == MqttVersion::V5 {
        util::properties_read(buf, pos)
    } else {
        (Ok(Seq::empty()), pos)
    }
}

/// Whether the property section at `pos` can be read.
pub open spec fn section_present(buf: Seq<u8>, version: MqttVersion, pos: int) -> bool {
    version == MqttVersion::V5 ==> util::properties_present(buf, pos)
}

fn read_section<'a>(buf: &'a [u8], version: MqttVersion, cursor: &mut usize) -> (r: Result<
    BoundedVec<Property<'a>, 8>,
    MqttError<ErrorPlaceHolder>,
>)
    requires
        section_present(buf@, version, *old(cursor) as int),
        *old(cursor) <= buf@.len(),
    ensures
        util::properties_result(r) == section_read(buf@, version, *old(cursor) as int).0,
        *final(cursor) == section_read(buf@, version, *old(cursor) as int).1,
        *final(cursor) <= buf@.len(),
{
    if version == MqttVersion::V5 {
        util::read_properties(cursor, buf)
    } else {
        Ok(bounded::no_properties())
    }
}

/// What the decoder of a connect packet finds in front of the password: the packet without it,
/// and where the password would stand.
///
/// The decoder takes the flags from the ninth byte and the keep-alive time from the two behind
/// it.
pub open spec fn connect_read(buf: Seq<u8>, version: MqttVersion) -> Result<
    (ConnectView, int),
    MqttError<ErrorPlaceHolder>,
> {
    let flags = buf[8];
    let (properties, at) = section_read(buf, version, 11);
    let (client_id, after_id) = util::text_read(buf, at);
    let (will, after_will) = will_read(buf, flags, after_id);
    let (username, end) = username_read(buf, flags, after_will);
    match (properties, client_id, will, username) {
        (Err(e), _, _, _) => Err(e),
        (Ok(_), Err(e), _, _) => Err(e),
        (Ok(_), Ok(_), Err(e), _) => Err(e),
        (Ok(_), Ok(_), Ok(_), Err(e)) => Err(e),
        (Ok(properties), Ok(client_id), Ok(will), Ok(username)) => Ok(
            (
                ConnectView {
                    clean_session: flag(flags, 2),
                    keep_alive: (buf[9] * 256 + buf[10]) as u16,
                    client_id,
                    username,
                    password: None,
                    will,
                    properties,
                },
                end,
            ),
        ),
    }
}

impl<'a> DecodePacket<'a> for Connect<'a> {
    open spec fn decodable(buf: Seq<u8>, version: MqttVersion) -> bool {
        &&& buf.len() >= 11
        &&& section_present(buf, version, 11)
        &&& match connect_read(buf, version) {
            Ok((_, end)) => flag(buf[8], 64) ==> bytes_read(buf, end) is Some,
            Err(_) => true,
        }
    }

    open spec fn decodes(
        buf: Seq<u8>,
        version: MqttVersion,
        r: Result<Self, MqttError<ErrorPlaceHolder>>,
    ) -> bool {
        match connect_read(buf, version) {
            Err(e) => r == Err::<Self, MqttError<ErrorPlaceHolder>>(e),
            Ok((c, end)) => r is Ok && r->Ok_0@ == if flag(buf[8], 64) {
                ConnectView { password: Some(bytes_read(buf, end).unwrap().0), ..c }
            } else {
                c
            },
        }
    }

    fn decode(buf: &'a [u8], version: MqttVersion) -> (r: Result<
        Self,
        MqttError<ErrorPlaceHolder>,
    >) {
        let flags: u8 = buf[8];
        let keep_alive: u16 = buf[9] as u16 * 256 + buf[10] as u16;
        let mut cursor: usize = 11;
        let properties: BoundedVec<Property<'a>, 8> = match read_section(
            buf,
            version,
            &mut cursor,
        ) {
            Ok(p) => p,
            Err(e) => {
                return Err(e);
            },
        };
        let client_id: &'a str = match util::read_utf8_string(&mut cursor, buf) {
            Ok(s) => s,
            Err(e) => {
                return Err(e);
            },
        };
        let (will, after_will): (Option<LastWill<'a>>, usize) = match read_will(
            buf,
            flags,
            cursor,
        ) {
            Ok(w) => w,
            Err(e) => {
                return Err(e);
            },
        };
        let mut end: usize = after_will;
        let username: Option<&'a str> = if flags / 128 % 2 == 1 {
            match util::read_utf8_string(&mut end, buf) {
                Ok(s) => Some(s),
                Err(e) => {
                    return Err(e);
                },
            }
        } else {
            None
        };
        let password: Option<&'a [u8]> = if flags / 64 % 2 == 1 {
            match read_bytes(buf, end) {
                Some((p, _)) => Some(p),
                None => None,
            }
        } else {
            None
        };
        Ok(
            Connect {
                clean_session: flags / 2 % 2 == 1,
                keep_alive,
                client_id,
                username,
                password,
                will,
                properties,
            },
        )
    }
}

/// The broker's answer to a [`Connect`].
#[derive(Debug)]
pub struct ConnAck<'a> {
    pub session_present: bool,
    pub reason_code: u8,
    pub properties: BoundedVec<Property<'a>, 8>,
}

impl<'a> DecodePacket<'a> for ConnAck<'a> {
    open spec fn decodable(buf: Seq<u8>, version: MqttVersion) -> bool {
        buf.len() >= 4 && section_present(buf, version, 4)
    }

    open spec fn decodes(
        buf: Seq<u8>,
        version: MqttVersion,
        r: Result<Self, MqttError<ErrorPlaceHolder>>,
    ) -> bool {
        match section_read(buf, version, 4).0 {
            Err(e) => r == Err::<Self, MqttError<ErrorPlaceHolder>>(e),
            Ok(properties) => {
                &&& r is Ok
                &&& r->Ok_0.session_present == (buf[2] % 2 == 1)
                &&& r->Ok_0.reason_code == buf[3]
                &&& bounded::properties_in(r->Ok_0.properties) == properties
            },
        }
    }

    fn decode(buf: &'a [u8], version: MqttVersion) -> (r: Result<
        Self,
        MqttError<ErrorPlaceHolder>,
    >) {
        let session_present: bool = buf[2] % 2 == 1;
        let reason_code: u8 = buf[3];
        let mut cursor: usize = 4;
        match read_section(buf, version, &mut cursor) {
            Ok(properties) => Ok(ConnAck { session_present, reason_code, properties }),
            Err(e) => Err(e),
        }
    }
}

/// A message on a topic.
#[derive(Debug)]
pub struct Publish<'a> {
    pub topic: &'a str,
    pub qos: QoS,
    /// When set, the broker keeps the message as the last one of its topic.
    pub retain: bool,
    pub payload: &'a [u8],
    pub packet_id: Option<u16>,
    pub properties: BoundedVec<Property<'a>, 8>,
}

/// The contents of a [`Publish`].
#[verifier::ext_equal]
pub struct PublishView {
    pub topic: Seq<char>,
    pub qos: QoS,
    pub retain: bool,
    pub payload: Seq<u8>,
    pub packet_id: Option<u16>,
    pub properties: Seq<(u8, Seq<u8>)>,
}

impl<'a> View for Publish<'a> {
    type V = PublishView;

    open spec fn view(&self) -> PublishView {
        PublishView {
            topic: self.topic@,
            qos: self.qos,
            retain: self.retain,
            payload: self.payload@,
            packet_id: self.packet_id,
            properties: bounded::properties_in(self.properties),
        }
    }
}

impl PublishView {
    /// Packet type, quality of service and retain flag.
    pub open spec fn first_byte(self) -> u8 {
        (0x30 + self.qos.level() * 2 + if self.retain {
            1int
        } else {
            0
        }) as u8
    }

    /// The packet identifier, which only messages above the lowest quality of service have.
    pub open spec fn id_bytes(self) -> Seq<u8> {
        match self.packet_id {
            Some(id) if self.qos != QoS::AtMostOnce => seq![(id / 256) as u8, (id % 256) as u8],
            _ => Seq::empty(),
        }
    }

    /// What stands in front of the payload.
    pub open spec fn preamble(self) -> Seq<u8> {
        util::prefixed(utf8::encode_utf8(self.topic)) + self.id_bytes()
    }

    /// Everything behind the packet's length.
    pub open spec fn content(self) -> Seq<u8> {
        self.preamble() + self.payload
    }
}

/// What a publish packet decodes to.
pub open spec fn publish_read(buf: Seq<u8>, version: MqttVersion) -> Result<
    PublishView,
    MqttError<ErrorPlaceHolder>,
> {
    let level = buf[0] as int / 2 % 4;
    let len_bytes = util::varint_at(buf, 1);
    let (topic, after_topic) = util::text_read(buf, 1 + len_bytes.unwrap().1 as int);
    let after_id = if level == 0 {
        after_topic
    } else {
        after_topic + 2
    };
    let (properties, end) = section_read(buf, version, after_id);
    if level == 3 || len_bytes is None {
        Err(util::malformed())
    } else {
        match (topic, properties) {
            (Err(e), _) => Err(e),
            (Ok(_), Err(e)) => Err(e),
            (Ok(topic), Ok(properties)) => Ok(
                PublishView {
                    topic,
                    qos: if level == 0 {
                        QoS::AtMostOnce
                    } else if level == 1 {
                        QoS::AtLeastOnce
                    } else {
                        QoS::ExactlyOnce
                    },
                    retain: buf[0] % 2 == 1,
                    payload: buf.skip(end),
                    packet_id: if level == 0 {
                        None
                    } else {
                        Some((buf[after_topic] * 256 + buf[after_topic + 1]) as u16)
                    },
                    properties,
                },
            ),
        }
    }
}

impl<'a> DecodePacket<'a> for Publish<'a> {
    open spec fn decodable(buf: Seq<u8>, version: MqttVersion) -> bool {
        let level = buf[0] as int / 2 % 4;
        let len_bytes = util::varint_at(buf, 1);
        let (topic, after_topic) = util::text_read(buf, 1 + len_bytes.unwrap().1 as int);
        let after_id = if level == 0 {
            after_topic
        } else {
            after_topic + 2
        };
        &&& buf.len() >= 1
        &&& level != 3 && len_bytes is Some && topic is Ok ==> after_id <= buf.len()
            && section_present(buf, version, after_id)
    }

    open spec fn decodes(
        buf: Seq<u8>,
        version: MqttVersion,
        r: Result<Self, MqttError<ErrorPlaceHolder>>,
    ) -> bool {
        match publish_read(buf, version) {
            Err(e) => r == Err::<Self, MqttError<ErrorPlaceHolder>>(e),
            Ok(p) => r is Ok && r->Ok_0@ == p,
        }
    }

    fn decode(buf: &'a [u8], version: MqttVersion) -> (r: Result<
        Self,
        MqttError<ErrorPlaceHolder>,
    >) {
        let retain: bool = buf[0] % 2 == 1;
        let qos: QoS = match QoS::from_code(buf[0] / 2 % 4) {
            Some(q) => q,
            None => {
                return Err(MqttError::Protocol(ProtocolError::MalformedPacket));
            },
        };
        let mut cursor: usize = 1;
        match util::read_variable_byte_integer(&mut cursor, buf) {
            Ok(_) => {},
            Err(e) => {
                return Err(e);
            },
        }
        let topic: &'a str = match util::read_utf8_string(&mut cursor, buf) {
            Ok(s) => s,
            Err(e) => {
                return Err(e);
            },
        };
        let packet_id: Option<u16> = if qos != QoS::AtMostOnce {
            let id: u16 = buf[cursor] as u16 * 256 + buf[cursor + 1] as u16;
            cursor = cursor + 2;
            Some(id)
        } else {
            None
        };
        let properties: BoundedVec<Property<'a>, 8> = match read_section(
            buf,
            version,
            &mut cursor,
        ) {
            Ok(p) => p,
            Err(e) => {
                return Err(e);
            },
        };
        let payload: &'a [u8] = vstd::slice::slice_subrange(buf, cursor, buf.len());
        assert(payload@ =~= buf@.skip(cursor as int));
        Ok(Publish { topic, qos, retain, payload, packet_id, properties })
    }
}

impl<'a> EncodePacket for Publish<'a> {
    /// A buffer that holds the topic but ends within the packet identifier is no buffer to try.
    open spec fn encodable(&self, len: nat, version: MqttVersion) -> bool {
        let p = self@;
        &&& len >= 5
        &&& util::field_error(utf8::encode_utf8(p.topic), len - 5) is None ==> 5
            + p.preamble().len() <= len
        &&& framed_len(p.content()) > len ==> 5 + p.content().len() > len
    }

    open spec fn encoding(&self, buf: Seq<u8>, version: MqttVersion) -> (
        Result<usize, MqttError<ErrorPlaceHolder>>,
        Seq<u8>,
    ) {
        let p = self@;
        match util::field_error(utf8::encode_utf8(p.topic), buf.len() - 5) {
            Some(e) => (Err(e), part_written(buf, p.first_byte(), Seq::empty())),
            None => if 5 + p.content().len() > buf.len() {
                (Err(MqttError::BufferTooSmall), part_written(buf, p.first_byte(), p.preamble()))
            } else {
                (
                    Ok(framed_len(p.content()) as usize),
                    packet_written(buf, p.first_byte(), p.content()),
                )
            },
        }
    }

    fn encode(&self, buf: &mut [u8], version: MqttVersion) -> (r: Result<
        usize,
        MqttError<ErrorPlaceHolder>,
    >) {
        let ghost start = buf@;
        let ghost p = self@;
        let ghost first = p.first_byte();
        let room: usize = buf.len();
        let retain_flag: u8 = if self.retain {
            1
        } else {
            0
        };
        buf[0] = 0x30 + self.qos.code() * 2 + retain_flag;
        assert(buf@ =~= part_written(start, first, Seq::empty()));
        let topic_len: usize = match util::put_field(buf, 5, self.topic.as_bytes()) {
            Ok(n) => n,
            Err(e) => {
                return Err(e);
            },
        };
        let mut cursor: usize = 5 + topic_len;
        proof {
            let topic = util::prefixed(utf8::encode_utf8(p.topic));
            lemma_part_grows(start, first, Seq::empty(), topic);
            assert(Seq::<u8>::empty() + topic =~= topic);
            assert(buf@ == part_written(start, first, topic));
        }
        if self.qos != QoS::AtMostOnce {
            if let Some(id) = self.packet_id {
                buf[cursor] = (id / 256) as u8;
                buf[cursor + 1] = (id % 256) as u8;
                cursor = cursor + 2;
            }
        }
        assert(buf@ =~= part_written(start, first, p.preamble()));
        if room - cursor < self.payload.len() {
            return Err(MqttError::BufferTooSmall);
        }
        util::put_bytes(buf, cursor, self.payload);
        cursor = cursor + self.payload.len();
        proof {
            lemma_part_grows(start, first, p.preamble(), p.payload);
            assert(buf@.subrange(5, cursor as int) =~= p.content());
        }
        finish_packet(buf, cursor, Ghost(first), Ghost(start))
    }
}

/// A published message that a version 3 session encodes can be decoded, and gives the same message.
///
/// Messages of the lowest quality of service carry no packet identifier, the others do; and the
/// length of the packet stays below the most that four length bytes can say.
pub proof fn law_publish_round_trip(p: Publish<'_>, buf: Seq<u8>)
    requires
        p.packet_id is None <==> p.qos == QoS::AtMostOnce,
        p@.properties.len() == 0,
        p@.content().len() < 268435456,
        p.encoding(buf, MqttVersion::V3).0 is Ok,
    ensures
        ({
            let (n, out) = p.encoding(buf, MqttVersion::V3);
            let sent = out.take(n->Ok_0 as int);
            &&& Publish::decodable(sent, MqttVersion::V3)
            &&& publish_read(sent, MqttVersion::V3) == Ok::<
                PublishView,
                MqttError<ErrorPlaceHolder>,
            >(p@)
        }),
{
    let v = p@;
    util::lemma_varint_len(v.content().len());
    lemma_packet_in_front(buf, v.first_byte(), v.content());
    lemma_publish_header(v);
    lemma_publish_read(v);
}

proof fn lemma_publish_read(p: PublishView)
    requires
        p.packet_id is None <==> p.qos == QoS::AtMostOnce,
        p.properties.len() == 0,
        p.content().len() < 268435456,
        utf8::encode_utf8(p.topic).len() <= 65535,
    ensures
        publish_read(framed(p.first_byte(), p.content()), MqttVersion::V3) == Ok::<
            PublishView,
            MqttError<ErrorPlaceHolder>,
        >(p),
{
    lemma_publish_header(p);
    let raw = framed(p.first_byte(), p.content());
    let head = seq![p.first_byte()] + util::varint(p.content().len()) + util::prefixed(
        utf8::encode_utf8(p.topic),
    );
    let after = head.len() as int;
    assert(raw =~= head + p.id_bytes() + p.payload);
    assert(raw[0] == p.first_byte());
    let first = raw[0] as int;
    assert(first / 2 % 4 == p.qos.level() && (first % 2 == 1) == p.retain);
    assert(p.properties =~= Seq::empty());
    if p.qos != QoS::AtMostOnce {
        let id = p.packet_id->0;
        assert(raw[after] == p.id_bytes()[0]);
        assert(raw[after + 1] == p.id_bytes()[1]);
        assert((raw[after] * 256 + raw[after + 1]) as u16 == id);
        assert(raw.skip(after + 2) =~= p.payload);
    } else {
        assert(raw.skip(after) =~= p.payload);
    }
}

/// The length and the topic of an encoded message are read back as they were written.
proof fn lemma_publish_header(p: PublishView)
    requires
        p.content().len() < 268435456,
        utf8::encode_utf8(p.topic).len() <= 65535,
    ensures
        ({
            let raw = framed(p.first_byte(), p.content());
            let len = util::varint(p.content().len());
            let topic = utf8::encode_utf8(p.topic);
            &&& raw == seq![p.first_byte()] + len + util::prefixed(topic) + p.id_bytes()
                + p.payload
            &&& util::varint_at(raw, 1) == Some((p.content().len(), len.len()))
            &&& util::text_read(raw, 1 + len.len() as int) == (
                Ok::<Seq<char>, MqttError<ErrorPlaceHolder>>(p.topic),
                1 + len.len() as int + 2 + topic.len(),
            )
        }),
{
    let content = p.content();
    let raw = framed(p.first_byte(), content);
    let len = util::varint(content.len());
    let topic = utf8::encode_utf8(p.topic);
    util::lemma_varint_len(content.len());
    assert(raw =~= seq![p.first_byte()] + len + util::prefixed(topic) + p.id_bytes() + p.payload);
    assert(util::varint_written(raw, 1, content.len()) =~= raw);
    util::law_varint_round_trip(raw, 1, content.len());
    let at = 1 + len.len() as int;
    assert(util::splice(raw, at, util::prefixed(topic)) =~= raw);
    util::law_text_round_trip(raw, at, p.topic);
}

/// The acknowledgement of a message.
#[derive(Debug)]
pub struct PubAck<'a> {
    pub packet_id: u16,
    pub properties: BoundedVec<Property<'a>, 8>,
}

impl<'a> DecodePacket<'a> for PubAck<'a> {
    open spec fn decodable(buf: Seq<u8>, version: MqttVersion) -> bool {
        true
    }

    /// The decoder looks at nothing: every acknowledgement is one of packet 0.
    open spec fn decodes(
        buf: Seq<u8>,
        version: MqttVersion,
        r: Result<Self, MqttError<ErrorPlaceHolder>>,
    ) -> bool {
        &&& r is Ok
        &&& r->Ok_0.packet_id == 0
        &&& bounded::properties_in(r->Ok_0.properties).len() == 0
    }

    fn decode(buf: &'a [u8], version: MqttVersion) -> (r: Result<
        Self,
        MqttError<ErrorPlaceHolder>,
    >) {
        Ok(PubAck { packet_id: 0, properties: bounded::no_properties() })
    }
}

/// Asks for the messages of some topics.
#[derive(Debug)]
pub struct Subscribe<'a> {
    pub packet_id: u16,
    pub topics: BoundedVec<(&'a str, QoS), 8>,
    pub properties: BoundedVec<Property<'a>, 8>,
}

impl<'a> Subscribe<'a> {
    /// A subscription to one topic.
    pub fn new(packet_id: u16, topic: &'a str, qos: QoS) -> (s: Self)
        ensures
            s.packet_id == packet_id,
            bounded::filters_in(s.topics) == seq![(topic@, qos)],
            bounded::properties_in(s.properties).len() == 0,
    {
        let mut topics: BoundedVec<(&'a str, QoS), 8> = bounded::no_filters();
        let _ = bounded::push_filter(&mut topics, topic, qos);
        assert(bounded::filters_in(topics) =~= seq![(topic@, qos)]);
        Self { packet_id, topics, properties: bounded::no_properties() }
    }
}

impl<'a> DecodePacket<'a> for Subscribe<'a> {
    open spec fn decodable(buf: Seq<u8>, version: MqttVersion) -> bool {
        true
    }

    /// The decoder looks at nothing: a client receives no such packet.
    open spec fn decodes(
        buf: Seq<u8>,
        version: MqttVersion,
        r: Result<Self, MqttError<ErrorPlaceHolder>>,
    ) -> bool {
        &&& r is Ok
        &&& r->Ok_0.packet_id == 0
        &&& bounded::filters_in(r->Ok_0.topics).len() == 0
        &&& bounded::properties_in(r->Ok_0.properties).len() == 0
    }

    fn decode(buf: &'a [u8], version: MqttVersion) -> (r: Result<
        Self,
        MqttError<ErrorPlaceHolder>,
    >) {
        Ok(
            Subscribe {
                packet_id: 0,
                topics: bounded::no_filters(),
                properties: bounded::no_properties(),
            },
        )
    }
}

/// A topic filter on the wire: the topic behind its length, then the quality of service.
pub open spec fn filter_bytes(f: (Seq<char>, QoS)) -> Seq<u8> {
    util::prefixed(utf8::encode_utf8(f.0)).push(f.1.level())
}

/// Some topic filters on the wire.
pub open spec fn filters_bytes(filters: Seq<(Seq<char>, QoS)>) -> Seq<u8>
    decreases filters.len(),
{
    if filters.len() == 0 {
        Seq::empty()
    } else {
        filter_bytes(filters[0]) + filters_bytes(filters.drop_first())
    }
}

/// The first error on the way through the filters.
pub open spec fn filters_error(filters: Seq<(Seq<char>, QoS)>, room: int) -> Option<
    MqttError<ErrorPlaceHolder>,
>
    decreases filters.len(),
{
    if filters.len() == 0 {
        None
    } else {
        match util::field_error(utf8::encode_utf8(filters[0].0), room) {
            Some(e) => Some(e),
            None => filters_error(filters.drop_first(), room - filter_bytes(filters[0]).len()),
        }
    }
}

/// The bytes of the filters that can be written into `room` bytes.
pub open spec fn filters_written(filters: Seq<(Seq<char>, QoS)>, room: int) -> Seq<u8>
    decreases filters.len(),
{
    if filters.len() == 0 || util::field_error(utf8::encode_utf8(filters[0].0), room) is Some {
        Seq::empty()
    } else {
        filter_bytes(filters[0]) + filters_written(
            filters.drop_first(),
            room - filter_bytes(filters[0]).len(),
        )
    }
}

/// Whether every topic for which there is room leaves a byte for its quality of service.
pub open spec fn filters_end_well(filters: Seq<(Seq<char>, QoS)>, room: int) -> bool
    decreases filters.len(),
{
    filters.len() == 0 || util::field_error(utf8::encode_utf8(filters[0].0), room) is Some || {
        &&& filter_bytes(filters[0]).len() <= room
        &&& filters_end_well(filters.drop_first(), room - filter_bytes(filters[0]).len())
    }
}

proof fn lemma_filters_whole(filters: Seq<(Seq<char>, QoS)>, room: int)
    requires
        room >= 0,
        filters_end_well(filters, room),
    ensures
        filters_error(filters, room) is None ==> filters_written(filters, room) == filters_bytes(
            filters,
        ),
        filters_written(filters, room).len() <= room,
    decreases filters.len(),
{
    if filters.len() > 0 && util::field_error(utf8::encode_utf8(filters[0].0), room) is None {
        lemma_filters_whole(filters.drop_first(), room - filter_bytes(filters[0]).len());
    }
}

/// Writes the filters from `pos` on; stops at the first that is refused.
fn put_filters(buf: &mut [u8], pos: usize, filters: &[(&str, QoS)]) -> (r: Result<
    usize,
    MqttError<ErrorPlaceHolder>,
>)
    requires
        pos <= old(buf)@.len(),
        filters_end_well(bounded::filter_views(filters@), old(buf)@.len() - pos),
    ensures
        ({
            let views = bounded::filter_views(filters@);
            let room = old(buf)@.len() - pos;
            &&& final(buf)@ == util::splice(old(buf)@, pos as int, filters_written(views, room))
            &&& match filters_error(views, room) {
                Some(e) => r == Err::<usize, MqttError<ErrorPlaceHolder>>(e),
                None => r == Ok::<usize, MqttError<ErrorPlaceHolder>>(
                    (pos + filters_written(views, room).len()) as usize,
                ),
            }
        }),
{
    let ghost views = bounded::filter_views(filters@);
    let ghost all = buf@.len() - pos;
    let ghost mut done = Seq::<u8>::empty();
    let mut at: usize = pos;
    let mut i: usize = 0;
    proof {
        assert(views.skip(0) =~= views);
        assert(done + filters_written(views, all) =~= filters_written(views, all));
        assert(util::splice(buf@, pos as int, done) =~= buf@);
    }
    while i < filters.len()
        invariant
            i <= filters@.len(),
            views == bounded::filter_views(filters@),
            buf@.len() == old(buf)@.len(),
            all == buf@.len() - pos,
            at == pos + done.len(),
            at <= buf@.len(),
            buf@ == util::splice(old(buf)@, pos as int, done),
            filters_end_well(views.skip(i as int), buf@.len() - at),
            filters_written(views, all) == done + filters_written(
                views.skip(i as int),
                buf@.len() - at,
            ),
            filters_error(views, all) == filters_error(views.skip(i as int), buf@.len() - at),
        decreases filters@.len() - i,
    {
        let ghost rest = views.skip(i as int);
        let ghost room = buf@.len() - at;
        let size: usize = buf.len();
        let (topic, qos): (&str, QoS) = filters[i];
        assert(rest[0] == (topic@, qos));
        match util::put_field(buf, at, topic.as_bytes()) {
            Err(e) => {
                assert(done + Seq::<u8>::empty() =~= done);
                return Err(e);
            },
            Ok(n) => {
                buf[at + n] = qos.code();
                proof {
                    let bytes = filter_bytes(rest[0]);
                    assert(buf@ =~= util::splice(
                        util::splice(old(buf)@, pos as int, done),
                        at as int,
                        bytes,
                    ));
                    util::lemma_splice_append(old(buf)@, pos as int, done, bytes);
                    assert(rest.drop_first() =~= views.skip(i as int + 1));
                    let later = filters_written(rest.drop_first(), room - n - 1);
                    assert(done + (bytes + later) =~= (done + bytes) + later);
                    done = done + bytes;
                }
                at = at + n + 1;
            },
        }
        i += 1;
    }
    assert(views.skip(i as int) =~= Seq::<(Seq<char>, QoS)>::empty());
    assert(done + Seq::<u8>::empty() =~= done);
    Ok(at)
}

/// The content of a subscription: its identifier and its filters.
pub open spec fn subscribe_content(packet_id: u16, filters: Seq<(Seq<char>, QoS)>) -> Seq<u8> {
    seq![(packet_id / 256) as u8, (packet_id % 256) as u8] + filters_bytes(filters)
}

impl<'a> EncodePacket for Subscribe<'a> {
    open spec fn encodable(&self, len: nat, version: MqttVersion) -> bool {
        let filters = bounded::filters_in(self.topics);
        let content = subscribe_content(self.packet_id, filters);
        &&& len >= 7
        &&& filters_end_well(filters, len - 7)
        &&& framed_len(content) > len ==> 5 + content.len() > len
    }

    open spec fn encoding(&self, buf: Seq<u8>, version: MqttVersion) -> (
        Result<usize, MqttError<ErrorPlaceHolder>>,
        Seq<u8>,
    ) {
        let filters = bounded::filters_in(self.topics);
        let content = subscribe_content(self.packet_id, filters);
        match filters_error(filters, buf.len() - 7) {
            Some(e) => (
                Err(e),
                part_written(
                    buf,
                    0x82,
                    content.take(2) + filters_written(filters, buf.len() - 7),
                ),
            ),
            None => (Ok(framed_len(content) as usize), packet_written(buf, 0x82, content)),
        }
    }

    fn encode(&self, buf: &mut [u8], version: MqttVersion) -> (r: Result<
        usize,
        MqttError<ErrorPlaceHolder>,
    >) {
        let ghost start = buf@;
        let ghost filters = bounded::filters_in(self.topics);
        let ghost content = subscribe_content(self.packet_id, filters);
        buf[0] = 0x82;
        buf[5] = (self.packet_id / 256) as u8;
        buf[6] = (self.packet_id % 256) as u8;
        let ghost id = content.take(2);
        assert(id =~= seq![(self.packet_id / 256) as u8, (self.packet_id % 256) as u8]);
        assert(buf@ =~= part_written(start, 0x82, id));
        let put: Result<usize, MqttError<ErrorPlaceHolder>> = put_filters(
            buf,
            7,
            bounded::filter_slice(&self.topics),
        );
        proof {
            let room = start.len() - 7;
            lemma_filters_whole(filters, room);
            lemma_part_grows(start, 0x82, id, filters_written(filters, room));
        }
        match put {
            Err(e) => Err(e),
            Ok(end) => {
                assert(id + filters_bytes(filters) =~= content);
                assert(buf@.subrange(5, end as int) =~= content);
                finish_packet(buf, end, Ghost(0x82), Ghost(start))
            },
        }
    }
}

/// The broker's answer to a [`Subscribe`].
#[derive(Debug)]
pub struct SubAck<'a> {
    pub packet_id: u16,
    pub reason_codes: BoundedVec<u8, 8>,
    pub properties: BoundedVec<Property<'a>, 8>,
}

/// Where the reason codes of an acknowledgement start, if its properties can be read.
pub open spec fn suback_codes_at(buf: Seq<u8>, version: MqttVersion) -> (
    Result<Seq<(u8, Seq<u8>)>, MqttError<ErrorPlaceHolder>>,
    int,
) {
    section_read(buf, version, 1 + util::varint_at(buf, 1).unwrap().1 as int + 2)
}

/// At most the first eight of some bytes.
pub open spec fn first_eight(s: Seq<u8>) -> Seq<u8> {
    if s.len() > 8 {
        s.take(8)
    } else {
        s
    }
}

impl<'a> DecodePacket<'a> for SubAck<'a> {
    /// The reason codes that the packet's length announces lie within the buffer.
    open spec fn decodable(buf: Seq<u8>, version: MqttVersion) -> bool {
        match util::varint_at(buf, 1) {
            None => true,
            Some((len, n)) => {
                let (properties, at) = suback_codes_at(buf, version);
                let end = 1 + n + len;
                &&& 1 + n + 2 <= buf.len()
                &&& section_present(buf, version, 1 + n as int + 2)
                &&& properties is Ok && at < end ==> end <= buf.len()
            },
        }
    }

    /// The packet holds eight reason codes; those behind the eighth are passed over.
    open spec fn decodes(
        buf: Seq<u8>,
        version: MqttVersion,
        r: Result<Self, MqttError<ErrorPlaceHolder>>,
    ) -> bool {
        match util::varint_at(buf, 1) {
            None => r == Err::<Self, MqttError<ErrorPlaceHolder>>(util::malformed()),
            Some((len, n)) => {
                let (properties, at) = suback_codes_at(buf, version);
                let end = 1 + n + len;
                match properties {
                    Err(e) => r == Err::<Self, MqttError<ErrorPlaceHolder>>(e),
                    Ok(properties) => {
                        &&& r is Ok
                        &&& r->Ok_0.packet_id == buf[1 + n as int] * 256 + buf[1 + n as int + 1]
                        &&& bounded::codes_in(r->Ok_0.reason_codes) == if at < end {
                            first_eight(buf.subrange(at, end as int))
                        } else {
                            Seq::empty()
                        }
                        &&& bounded::properties_in(r->Ok_0.properties) == properties
                    },
                }
            },
        }
    }

    fn decode(buf: &'a [u8], version: MqttVersion) -> (r: Result<
        Self,
        MqttError<ErrorPlaceHolder>,
    >) {
        let mut cursor: usize = 1;
        let remaining_len: usize = match util::read_variable_byte_integer(&mut cursor, buf) {
            Ok(n) => n,
            Err(e) => {
                return Err(e);
            },
        };
        let room: usize = buf.len();
        let content_start: usize = cursor;
        let packet_id: u16 = buf[cursor] as u16 * 256 + buf[cursor + 1] as u16;
        cursor = cursor + 2;
        let properties: BoundedVec<Property<'a>, 8> = match read_section(
            buf,
            version,
            &mut cursor,
        ) {
            Ok(p) => p,
            Err(e) => {
                return Err(e);
            },
        };
        let mut reason_codes: BoundedVec<u8, 8> = bounded::no_codes();
        let start: usize = cursor;
        assert(first_eight(buf@.subrange(start as int, start as int)) =~= Seq::<u8>::empty());
        while cursor - content_start < remaining_len
            invariant
                content_start <= start <= cursor <= buf@.len(),
                start - content_start < remaining_len ==> content_start + remaining_len
                    <= buf@.len() && cursor - content_start <= remaining_len,
                start - content_start >= remaining_len ==> cursor == start,
                bounded::codes_in(reason_codes) == first_eight(
                    buf@.subrange(start as int, cursor as int),
                ),
            decreases remaining_len - (cursor - content_start),
        {
            let ghost seen = buf@.subrange(start as int, cursor as int);
            let _ = bounded::push_code(&mut reason_codes, buf[cursor]);
            cursor = cursor + 1;
            proof {
                let more = buf@.subrange(start as int, cursor as int);
                assert(more =~= seen.push(buf@[cursor - 1]));
                if seen.len() >= 8 {
                    assert(first_eight(more) =~= first_eight(seen));
                } else {
                    assert(first_eight(more) =~= more);
                }
            }
        }
        Ok(SubAck { packet_id, reason_codes, properties })
    }
}

/// Asks the broker for a sign of life.
#[derive(Debug)]
pub struct PingReq;

/// What writing a packet of the two bytes `first` and 0 returns and leaves.
pub open spec fn bare_packet(buf: Seq<u8>, first: u8) -> (
    Result<usize, MqttError<ErrorPlaceHolder>>,
    Seq<u8>,
) {
    if buf.len() < 2 {
        (Err(MqttError::BufferTooSmall), buf)
    } else {
        (Ok(2), util::splice(buf, 0, seq![first, 0u8]))
    }
}

fn put_bare_packet(buf: &mut [u8], first: u8) -> (r: Result<usize, MqttError<ErrorPlaceHolder>>)
    ensures
        r == bare_packet(old(buf)@, first).0,
        final(buf)@ == bare_packet(old(buf)@, first).1,
{
    if buf.len() < 2 {
        return Err(MqttError::BufferTooSmall);
    }
    buf[0] = first;
    buf[1] = 0x00;
    assert(buf@ =~= bare_packet(old(buf)@, first).1);
    Ok(2)
}

impl EncodePacket for PingReq {
    open spec fn encodable(&self, len: nat, version: MqttVersion) -> bool {
        true
    }

    open spec fn encoding(&self, buf: Seq<u8>, version: MqttVersion) -> (
        Result<usize, MqttError<ErrorPlaceHolder>>,
        Seq<u8>,
    ) {
        bare_packet(buf, 0xC0)
    }

    fn encode(&self, buf: &mut [u8], version: MqttVersion) -> (r: Result<
        usize,
        MqttError<ErrorPlaceHolder>,
    >) {
        put_bare_packet(buf, 0xC0)
    }
}

/// The broker's sign of life.
#[derive(Debug)]
pub struct PingResp;

/// Ends a session.
#[derive(Debug)]
pub struct Disconnect<'a> {
    pub reason_code: u8,
    pub properties: BoundedVec<Property<'a>, 8>,
}

impl<'a> DecodePacket<'a> for Disconnect<'a> {
    open spec fn decodable(buf: Seq<u8>, version: MqttVersion) -> bool {
        true
    }

    /// The decoder looks at nothing: every goodbye is an ordinary one.
    open spec fn decodes(
        buf: Seq<u8>,
        version: MqttVersion,
        r: Result<Self, MqttError<ErrorPlaceHolder>>,
    ) -> bool {
        &&& r is Ok
        &&& r->Ok_0.reason_code == 0
        &&& bounded::properties_in(r->Ok_0.properties).len() == 0
    }

    fn decode(buf: &'a [u8], version: MqttVersion) -> (r: Result<
        Self,
        MqttError<ErrorPlaceHolder>,
    >) {
        Ok(Disconnect { reason_code: 0, properties: bounded::no_properties() })
    }
}

impl<'a> EncodePacket for Disconnect<'a> {
    open spec fn encodable(&self, len: nat, version: MqttVersion) -> bool {
        true
    }

    open spec fn encoding(&self, buf: Seq<u8>, version: MqttVersion) -> (
        Result<usize, MqttError<ErrorPlaceHolder>>,
        Seq<u8>,
    ) {
        bare_packet(buf, 0xE0)
    }

    fn encode(&self, buf: &mut [u8], version: MqttVersion) -> (r: Result<
        usize,
        MqttError<ErrorPlaceHolder>,
    >) {
        put_bare_packet(buf, 0xE0)
    }
}

/// Any MQTT control packet.
#[derive(Debug)]
pub enum MqttPacket<'a> {
    Connect(Connect<'a>),
    ConnAck(ConnAck<'a>),
    Publish(Publish<'a>),
    PubAck(PubAck<'a>),
    Subscribe(Subscribe<'a>),
    SubAck(SubAck<'a>),
    PingReq,
    PingResp,
    Disconnect(Disconnect<'a>),
}

/// The packet type that a buffer starts with.
pub open spec fn packet_type(buf: Seq<u8>) -> u8 {
    buf[0] / 16
}

/// Whether the decoder of the packet that the buffer starts with can be tried on it.
pub open spec fn packet_decodable(buf: Seq<u8>, version: MqttVersion) -> bool {
    let t = packet_type(buf);
    buf.len() > 0 ==> {
        &&& t == 1 ==> Connect::decodable(buf, version)
        &&& t == 2 ==> ConnAck::decodable(buf, version)
        &&& t == 3 ==> Publish::decodable(buf, version)
        &&& t == 9 ==> SubAck::decodable(buf, version)
    }
}

/// Whether `r` is what a decoder's answer `inner` becomes: the packet in its variant, or the
/// error with the transport's error type.
pub open spec fn packet_result<'a, P, T>(
    inner: Result<P, MqttError<ErrorPlaceHolder>>,
    wrap: spec_fn(P) -> MqttPacket<'a>,
    r: Result<Option<MqttPacket<'a>>, MqttError<T>>,
) -> bool {
    match inner {
        Ok(p) => r == Ok::<Option<MqttPacket<'a>>, MqttError<T>>(Some(wrap(p))),
        Err(e) => r == Err::<Option<MqttPacket<'a>>, MqttError<T>>(error::cast_error(e)),
    }
}

/// Whether `r` is what the buffer decodes to.
pub open spec fn packet_decodes<'a, T>(
    buf: Seq<u8>,
    version: MqttVersion,
    r: Result<Option<MqttPacket<'a>>, MqttError<T>>,
) -> bool {
    let t = packet_type(buf);
    if buf.len() == 0 {
        r == Ok::<Option<MqttPacket<'a>>, MqttError<T>>(None)
    } else if t == 1 {
        exists|d: Result<Connect<'a>, MqttError<ErrorPlaceHolder>>| #[trigger]
            Connect::decodes(buf, version, d) && packet_result(
                d,
                |p: Connect<'a>| MqttPacket::Connect(p),
                r,
            )
    } else if t == 2 {
        exists|d: Result<ConnAck<'a>, MqttError<ErrorPlaceHolder>>| #[trigger]
            ConnAck::decodes(buf, version, d) && packet_result(
                d,
                |p: ConnAck<'a>| MqttPacket::ConnAck(p),
                r,
            )
    } else if t == 3 {
        exists|d: Result<Publish<'a>, MqttError<ErrorPlaceHolder>>| #[trigger]
            Publish::decodes(buf, version, d) && packet_result(
                d,
                |p: Publish<'a>| MqttPacket::Publish(p),
                r,
            )
    } else if t == 4 {
        exists|d: Result<PubAck<'a>, MqttError<ErrorPlaceHolder>>| #[trigger]
            PubAck::decodes(buf, version, d) && packet_result(
                d,
                |p: PubAck<'a>| MqttPacket::PubAck(p),
                r,
            )
    } else if t == 8 {
        exists|d: Result<Subscribe<'a>, MqttError<ErrorPlaceHolder>>| #[trigger]
            Subscribe::decodes(buf, version, d) && packet_result(
                d,
                |p: Subscribe<'a>| MqttPacket::Subscribe(p),
                r,
            )
    } else if t == 9 {
        exists|d: Result<SubAck<'a>, MqttError<ErrorPlaceHolder>>| #[trigger]
            SubAck::decodes(buf, version, d) && packet_result(
                d,
                |p: SubAck<'a>| MqttPacket::SubAck(p),
                r,
            )
    } else if t == 12 {
        r == Ok::<Option<MqttPacket<'a>>, MqttError<T>>(Some(MqttPacket::PingReq))
    } else if t == 13 {
        r == Ok::<Option<MqttPacket<'a>>, MqttError<T>>(Some(MqttPacket::PingResp))
    } else if t == 14 {
        exists|d: Result<Disconnect<'a>, MqttError<ErrorPlaceHolder>>| #[trigger]
            Disconnect::decodes(buf, version, d) && packet_result(
                d,
                |p: Disconnect<'a>| MqttPacket::Disconnect(p),
                r,
            )
    } else {
        r == Err::<Option<MqttPacket<'a>>, MqttError<T>>(
            MqttError::Protocol(ProtocolError::InvalidPacketType(t)),
        )
    }
}

/// Decodes the packet at the start of a buffer; an empty buffer holds none.
pub fn decode<'a, T: TransportError>(buf: &'a [u8], version: MqttVersion) -> (r: Result<
    Option<MqttPacket<'a>>,
    MqttError<T>,
>)
    requires
        packet_decodable(buf@, version),
    ensures
        packet_decodes(buf@, version, r),
{
    if buf.len() == 0 {
        return Ok(None);
    }
    let packet_type: u8 = buf[0] / 16;
    match packet_type {
        1 => match Connect::decode(buf, version) {
            Ok(p) => Ok(Some(MqttPacket::Connect(p))),
            Err(e) => Err(e.cast_transport_error()),
        },
        2 => match ConnAck::decode(buf, version) {
            Ok(p) => Ok(Some(MqttPacket::ConnAck(p))),
            Err(e) => Err(e.cast_transport_error()),
        },
        3 => match Publish::decode(buf, version) {
            Ok(p) => Ok(Some(MqttPacket::Publish(p))),
            Err(e) => Err(e.cast_transport_error()),
        },
        4 => match PubAck::decode(buf, version) {
            Ok(p) => Ok(Some(MqttPacket::PubAck(p))),
            Err(e) => Err(e.cast_transport_error()),
        },
        8 => match Subscribe::decode(buf, version) {
            Ok(p) => Ok(Some(MqttPacket::Subscribe(p))),
            Err(e) => Err(e.cast_transport_error()),
        },
        9 => match SubAck::decode(buf, version) {
            Ok(p) => Ok(Some(MqttPacket::SubAck(p))),
            Err(e) => Err(e.cast_transport_error()),
        },
        12 => Ok(Some(MqttPacket::PingReq)),
        13 => Ok(Some(MqttPacket::PingResp)),
        14 => match Disconnect::decode(buf, version) {
            Ok(p) => Ok(Some(MqttPacket::Disconnect(p))),
            Err(e) => Err(e.cast_transport_error()),
        },
        _ => Err(MqttError::Protocol(ProtocolError::InvalidPacketType(packet_type))),
    }
}

} // verus!
