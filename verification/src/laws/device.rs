//! How the device is named, what it moves over its streams, and how its modules work together.

use crate::blufi::name::{next_backoff, resolve_local_name};
use crate::blufi::worker::{after_poll, Polled};
use crate::blufi::{BluFiConfig, BlufiCmd, BlufiEvent};
use crate::runtime::module::{Interval, ModulePair, MqttModule, PublishOutbox, RequestView};
use crate::runtime::publisher::BufferedOutbox;
use crate::runtime::registry::TopicRegistry;
use crate::text;
use crate::transport::{recv, IoOutcome, IoStep, SendRun, StdError, StdErrorView};
use vstd::prelude::*;
use vstd::utf8;

verus! {

/// The name under which the device is found is its prefix, or its model where there is none, a
/// hyphen and its id; the short one does without the model.
pub proof fn law_names(c: &BluFiConfig, model: &str, id: &str, long: String, short: String)
    requires
        call_ensures(BluFiConfig::bluetooth_name, (c, model, id), long),
        call_ensures(BluFiConfig::local_name, (c, id), short),
    ensures
        c.name_prefix@.len() > 0 ==> long@ == c.name_prefix@ + "-"@ + id@ && short@ == long@,
        c.name_prefix@.len() == 0 ==> long@ == model@ + "-"@ + id@ && short@ == id@,
{
}

/// The name that is advertised is the alias where it has been set, that is, where it differs from
/// the system's name; else the fallback, where there is no other configuration. A name takes 29
/// bytes at most.
pub proof fn law_advertised_name(alias: Option<&str>, system: Option<&str>, fallback: &str, name: String)
    requires
        call_ensures(resolve_local_name, (alias, system, None::<&str>, fallback), name),
    ensures
        utf8::encode_utf8(name@).len() <= 29,
        ({
            let set = alias is Some && alias->0@.len() > 0 && !(system is Some && system->0@
                == alias->0@);
            &&& set && text::byte_len(alias->0@) <= 29 ==> name@ == alias->0@
            &&& !set && text::byte_len(fallback@) <= 29 ==> name@ == fallback@
        }),
{
    text::lemma_truncated_fits(
        crate::blufi::name::best_name(
            text::opt_str(alias),
            text::opt_str(system),
            None,
            fallback@,
        ),
        29,
    );
}

/// The pause between two attempts doubles, up to thirty seconds.
pub proof fn law_backoff(secs: u64, next: u64)
    requires
        call_ensures(next_backoff, (secs,), next),
    ensures
        secs <= 15 ==> next == 2 * secs,
        secs > 15 ==> next == 30,
{
}

/// The provisioning worker stops where it is told to, and reports that, or where nobody is left to
/// tell it.
pub proof fn law_orders(p: Polled, r: (bool, Option<BlufiEvent>))
    requires
        call_ensures(after_poll, (p,), r),
    ensures
        p is Closed ==> !r.0 && r.1 is None,
        p is Nothing ==> r.0 && r.1 is None,
        p == Polled::Order(BlufiCmd::StopConfig) ==> !r.0 && r.1 == Some(BlufiEvent::ExitConfigMode),
        p == Polled::Order(BlufiCmd::StartConfig) ==> r.0 && r.1 is None,
{
}

/// An attempt that moves nothing shows that the other side has closed the stream; one that would
/// block is repeated when others have run, and one that was interrupted at once.
pub proof fn law_attempts(o: IoOutcome, r: Result<IoStep, StdError>)
    requires
        call_ensures(recv, (o,), r),
    ensures
        o == IoOutcome::Moved(0) ==> (r matches Err(e) && e@ == StdErrorView::ConnectionClosed),
        o matches IoOutcome::Moved(n) ==> (n > 0 ==> r == Ok::<IoStep, StdError>(IoStep::Moved(n))),
        o is WouldBlock ==> r == Ok::<IoStep, StdError>(IoStep::Yield),
        o is Interrupted ==> r == Ok::<IoStep, StdError>(IoStep::Again),
        o matches IoOutcome::Failed(m) ==> (r matches Err(e) && e@ == StdErrorView::Io(m@)),
{
}

/// What was handed over is not sent again, and all else still is.
pub proof fn law_sending(s: &mut SendRun, o: IoOutcome, r: Result<IoStep, StdError>)
    requires
        old(s).well_formed(),
        o matches IoOutcome::Moved(n) ==> n <= old(s).total() - old(s).written(),
        call_ensures(SendRun::send, (s, o), r),
    ensures
        final(s).total() == old(s).total(),
        o matches IoOutcome::Moved(n) ==> final(s).written() == old(s).written() + n,
        !(o is Moved) ==> final(s).written() == old(s).written(),
        o == IoOutcome::Moved(0) ==> r is Err,
{
}

/// A topic is registered where there is room for it and it takes 128 bytes at most.
pub proof fn law_registering<const N: usize>(r: &mut TopicRegistry<N>, topic: &str, taken: bool)
    requires
        call_ensures(TopicRegistry::<N>::add_topic, (r, topic), taken),
    ensures
        taken <==> utf8::encode_utf8(topic@).len() <= 128 && old(r)@.len() < N,
        taken ==> final(r)@ == old(r)@.push(topic@),
        !taken ==> final(r)@ == old(r)@,
{
}

/// An outbox keeps a message with all that belongs to it where it has room for it, and drops it
/// otherwise; what is drained leaves in order.
pub proof fn law_outbox<const N: usize, const T: usize, const P: usize>(
    o: BufferedOutbox<N, T, P>,
    m: RequestView,
)
    ensures
        utf8::encode_utf8(m.topic).len() <= T && m.payload.len() <= P && o@.len() < N ==> o.after(m)
            == o@.push(m),
        utf8::encode_utf8(m.topic).len() > T || m.payload.len() > P || o@.len() >= N ==> o.after(m)
            == o@,
        o.queued() == o@,
{
}

/// Both modules of a pair tick, the first one first, and the pair ticks again when the first of them
/// wants to.
pub proof fn law_pair_ticks<A: MqttModule, B: MqttModule>(
    before: ModulePair<A, B>,
    after: ModulePair<A, B>,
    queue: Seq<RequestView>,
    queue_after: Seq<RequestView>,
    next: Interval,
)
    requires
        before.ticks(&after, queue, queue_after, next),
    ensures
        exists|mid: Seq<RequestView>, a: Interval, b: Interval|
            {
                &&& #[trigger] before.first.ticks(&after.first, queue, mid, a)
                &&& #[trigger] before.second.ticks(&after.second, mid, queue_after, b)
                &&& next.millis <= a.millis
                &&& next.millis <= b.millis
                &&& next == a || next == b
            },
{
}

/// Both modules of a pair are started, publish, receive every message and register their topics; the
/// pair is urgent where one of them is.
pub proof fn law_pair_serves_both<A: MqttModule, B: MqttModule>(
    before: ModulePair<A, B>,
    after: ModulePair<A, B>,
    queue: Seq<RequestView>,
    queue_after: Seq<RequestView>,
    topic: Seq<char>,
    payload: Seq<u8>,
    topics: Seq<Seq<char>>,
    topics_after: Seq<Seq<char>>,
)
    ensures
        before.starts(&after, queue, queue_after) ==> exists|mid: Seq<RequestView>| #[trigger]
            before.first.starts(&after.first, queue, mid) && before.second.starts(
                &after.second,
                mid,
                queue_after,
            ),
        before.publishes(&after, queue, queue_after) ==> exists|mid: Seq<RequestView>| #[trigger]
            before.first.publishes(&after.first, queue, mid) && before.second.publishes(
                &after.second,
                mid,
                queue_after,
            ),
        before.receives(&after, topic, payload) <==> before.first.receives(
            &after.first,
            topic,
            payload,
        ) && before.second.receives(&after.second, topic, payload),
        before.registers(topics, topics_after) ==> exists|mid: Seq<Seq<char>>| #[trigger]
            before.first.registers(topics, mid) && before.second.registers(mid, topics_after),
        before.answers_urgent(false) ==> before.first.answers_urgent(false)
            && before.second.answers_urgent(false),
        before.answers_urgent(true) ==> before.first.answers_urgent(true)
            || before.second.answers_urgent(true),
{
}

/// The messages of errors.
pub proof fn law_messages(
    a: &crate::protocol::ProtocolError,
    b: &crate::config::ConfigError,
    c: &StdError,
    d: &crate::blufi::codec::CodecError,
    e: &crate::blufi::BleLinkError,
    s: String,
)
    ensures
        call_ensures(crate::protocol::ProtocolError::message, (a,), s) ==> s@ == "protocol: "@
            + a.0@,
        call_ensures(crate::config::ConfigError::message, (b,), s) ==> (
        b matches crate::config::ConfigError::Invalid(m) && s@ == "invalid config: "@ + m@),
        call_ensures(StdError::message, (c,), s) ==> {
            &&& c matches StdError::Io(m) ==> s@ == "io: "@ + m@
            &&& c is NotConnected ==> s@ == "not connected"@
            &&& c is ConnectionClosed ==> s@ == "connection closed"@
            &&& c is ConnectTimeout ==> s@ == "connect timeout"@
            &&& c is InvalidAddr ==> s@ == "invalid address"@
        },
        call_ensures(crate::blufi::codec::CodecError::message, (d,), s) ==> {
            &&& d matches crate::blufi::codec::CodecError::MissingField(k) ==> s@
                == "missing field: "@ + k@
            &&& d is InvalidPort ==> s@ == "invalid port"@
            &&& d matches crate::blufi::codec::CodecError::Utf8(m) ==> s@ == "utf8: "@ + m@
        },
        call_ensures(crate::blufi::BleLinkError::message, (e,), s) ==> {
            &&& e matches crate::blufi::BleLinkError::Send(m) ==> s@ == "send: "@ + m@
            &&& e matches crate::blufi::BleLinkError::Recv(m) ==> s@ == "recv: "@ + m@
            &&& e is Closed ==> s@ == "closed"@
        },
{
}

/// A line of the Bluetooth configuration that begins with `Name =` sets the name to what stands
/// behind it.
pub proof fn law_name_of_a_line(name: Seq<char>)
    requires
        name.len() > 0,
        !text::is_space(name[0]) && !text::is_space(name.last()),
        name[0] != '"' && name.last() != '"',
    ensures
        crate::blufi::name::name_in_line("Name = "@ + name) == Some(name),
        crate::blufi::name::name_in(seq!["Name = "@ + name]) == Some(name),
{
    reveal_strlit("Name = ");
    reveal_strlit("Name");
    reveal_strlit("=");
    let line = "Name = "@ + name;
    assert("Name = "@.len() == 7 && "Name"@.len() == 4 && "="@.len() == 1);
    assert(line[0] == 'N');
    assert(line.last() == name.last());
    assert(text::trimmed_start(line) == line);
    assert(text::trimmed(line) == line);
    assert(line.take(4) =~= "Name"@);
    let rest = line.skip(4);
    assert(rest[0] == ' ' && rest[1] == '=' && rest[2] == ' ');
    let eq = rest.drop_first();
    assert(eq[0] == '=');
    assert(text::trimmed_start(rest) == text::trimmed_start(eq));
    assert(text::trimmed_start(eq) == eq);
    assert(eq.take(1) =~= "="@);
    let value = eq.skip(1);
    assert(value[0] == ' ');
    assert(value.drop_first() =~= name);
    assert(text::trimmed_start(value) == text::trimmed_start(name));
    assert(text::trimmed_start(name) == name);
    assert(text::trimmed(value) == name);
    let quote = seq!['"'];
    assert(quote[0] == '"');
    assert(!quote.contains(name[0]) && !quote.contains(name.last()));
    assert(text::stripped_start(name, quote) == name);
    assert(text::stripped_end(name, quote) == name);
}

/// The configured name is advertised where no alias has been set.
pub proof fn law_configured_name(conf: &str, fallback: &str, name: String, n: Seq<char>)
    requires
        call_ensures(resolve_local_name, (None::<&str>, None::<&str>, Some(conf), fallback), name),
        crate::blufi::name::name_in(text::lines_of(conf@)) == Some(n),
        text::byte_len(n) <= 29,
    ensures
        name@ == n,
{
}

} // verus!
