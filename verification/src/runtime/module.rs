//! Modules: reusable MQTT integrations, and how two of them are combined into one.

use crate::mqtt::packet::{Publish, QoS};
use vstd::prelude::*;

verus! {

/// The time until a module wants to be called again.
#[derive(Debug, Clone, Copy, PartialEq, Eq, Structural)]
pub struct Interval {
    pub millis: u64,
}

impl Interval {
    /// The interval of a module that does not name one.
    pub open spec fn minute() -> Interval {
        Interval { millis: 60_000 }
    }
}

/// A message that has been queued for publishing.
#[verifier::ext_equal]
pub struct RequestView {
    pub topic: Seq<char>,
    pub payload: Seq<u8>,
    pub qos: QoS,
    pub retain: bool,
}

/// Takes the topics that modules want to subscribe to.
pub trait TopicCollector {
    /// The topics taken so far.
    spec fn topics(&self) -> Seq<Seq<char>>;

    /// Adds a topic; `false` means that it was not taken.
    fn add(&mut self, topic: &str) -> (taken: bool)
        ensures
            final(self).topics() == if taken {
                old(self).topics().push(topic@)
            } else {
                old(self).topics()
            },
    ;
}

/// Takes the messages that modules want to publish.
pub trait PublishOutbox {
    /// The messages taken so far.
    spec fn queued(&self) -> Seq<RequestView>;

    /// Queues a message. This returns at once; the message is published later, or dropped where
    /// the outbox has no room for it.
    fn publish(&mut self, topic: &str, payload: &[u8], qos: QoS)
        ensures
            taken_or_dropped(
                old(self).queued(),
                final(self).queued(),
                RequestView { topic: topic@, payload: payload@, qos, retain: false },
            ),
    ;

    /// Queues a message with an explicit retain flag.
    fn publish_with_retain(&mut self, topic: &str, payload: &[u8], qos: QoS, retain: bool)
        ensures
            taken_or_dropped(
                old(self).queued(),
                final(self).queued(),
                RequestView { topic: topic@, payload: payload@, qos, retain },
            ),
    ;
}

/// The queue after a request that was taken, or dropped.
pub open spec fn taken_or_dropped(
    before: Seq<RequestView>,
    after: Seq<RequestView>,
    r: RequestView,
) -> bool {
    after == before.push(r) || after == before
}

/// Neither the module nor the queue has changed.
pub open spec fn quiet<M: ?Sized>(
    before: &M,
    after: &M,
    queue: Seq<RequestView>,
    queue_after: Seq<RequestView>,
) -> bool {
    before == after && queue == queue_after
}

/// A module that handles messages and runs periodically.
///
/// Modules are composed with [`ModulePair`] and driven by the event loop. What a module does is
/// given by one relation for each method, between the module and the queue before and after the
/// call; a module that gives none promises nothing. A module that only registers its topics and
/// handles messages is written as a [`Listener`], and [`Listening`] does the rest.
pub trait MqttModule {
    /// What registering does.
    open spec fn registers(&self, before: Seq<Seq<char>>, after: Seq<Seq<char>>) -> bool {
        true
    }

    /// What a message does.
    open spec fn receives(&self, after: &Self, topic: Seq<char>, payload: Seq<u8>) -> bool {
        true
    }

    /// What a tick does.
    open spec fn ticks(
        &self,
        after: &Self,
        queue: Seq<RequestView>,
        queue_after: Seq<RequestView>,
        next: Interval,
    ) -> bool {
        true
    }

    /// What the start of a session does.
    open spec fn starts(
        &self,
        after: &Self,
        queue: Seq<RequestView>,
        queue_after: Seq<RequestView>,
    ) -> bool {
        true
    }

    /// What an immediate publish does.
    open spec fn publishes(
        &self,
        after: &Self,
        queue: Seq<RequestView>,
        queue_after: Seq<RequestView>,
    ) -> bool {
        true
    }

    /// Whether the module may answer `urgent`.
    open spec fn answers_urgent(&self, urgent: bool) -> bool {
        true
    }

    /// Registers the topics that the module wants to receive messages of.
    fn register<C: TopicCollector + ?Sized>(&self, collector: &mut C)
        ensures
            self.registers(old(collector).topics(), final(collector).topics()),
    ;

    /// Handles an incoming message. Answers are published later, by `on_tick` or `on_publish`.
    fn on_message(&mut self, msg: &Publish<'_>)
        ensures
            old(self).receives(final(self), msg.topic@, msg.payload@),
    ;

    /// Performs periodic work, and returns the time until the next tick.
    fn on_tick<O: PublishOutbox + ?Sized>(&mut self, outbox: &mut O) -> (next: Interval)
        ensures
            old(self).ticks(final(self), old(outbox).queued(), final(outbox).queued(), next),
    ;

    /// Called once when the session is up and the subscriptions are done.
    fn on_start<O: PublishOutbox + ?Sized>(&mut self, outbox: &mut O)
        ensures
            old(self).starts(final(self), old(outbox).queued(), final(outbox).queued()),
    ;

    /// Whether `on_publish` is to be called right after a message.
    fn needs_immediate_publish(&self) -> (urgent: bool)
        ensures
            self.answers_urgent(urgent),
    ;

    /// Publishes what a message asked for.
    fn on_publish<O: PublishOutbox + ?Sized>(&mut self, outbox: &mut O)
        ensures
            old(self).publishes(final(self), old(outbox).queued(), final(outbox).queued()),
    ;
}

/// What a module that only listens has to say: its topics, and what it does with a message.
pub trait Listener {
    /// What subscribing does.
    open spec fn subscribes(&self, before: Seq<Seq<char>>, after: Seq<Seq<char>>) -> bool {
        true
    }

    /// What a message does.
    open spec fn hears(&self, after: &Self, topic: Seq<char>, payload: Seq<u8>) -> bool {
        true
    }

    /// Adds the topics that the listener wants to receive messages of.
    fn subscribe<C: TopicCollector + ?Sized>(&self, collector: &mut C)
        ensures
            self.subscribes(old(collector).topics(), final(collector).topics()),
    ;

    /// Handles an incoming message.
    fn hear(&mut self, msg: &Publish<'_>)
        ensures
            old(self).hears(final(self), msg.topic@, msg.payload@),
    ;
}

/// A listener as a module: it ticks once a minute, does nothing then or at the start of a
/// session, and never asks to publish.
pub struct Listening<L> {
    pub listener: L,
}

impl<L: Listener> MqttModule for Listening<L> {
    open spec fn registers(&self, before: Seq<Seq<char>>, after: Seq<Seq<char>>) -> bool {
        self.listener.subscribes(before, after)
    }

    open spec fn receives(&self, after: &Self, topic: Seq<char>, payload: Seq<u8>) -> bool {
        self.listener.hears(&after.listener, topic, payload)
    }

    open spec fn ticks(
        &self,
        after: &Self,
        queue: Seq<RequestView>,
        queue_after: Seq<RequestView>,
        next: Interval,
    ) -> bool {
        quiet(self, after, queue, queue_after) && next == Interval::minute()
    }

    open spec fn starts(
        &self,
        after: &Self,
        queue: Seq<RequestView>,
        queue_after: Seq<RequestView>,
    ) -> bool {
        quiet(self, after, queue, queue_after)
    }

    open spec fn publishes(
        &self,
        after: &Self,
        queue: Seq<RequestView>,
        queue_after: Seq<RequestView>,
    ) -> bool {
        quiet(self, after, queue, queue_after)
    }

    open spec fn answers_urgent(&self, urgent: bool) -> bool {
        !urgent
    }

    fn register<C: TopicCollector + ?Sized>(&self, collector: &mut C) {
        self.listener.subscribe(collector);
    }

    fn on_message(&mut self, msg: &Publish<'_>) {
        self.listener.hear(msg);
    }

    fn on_tick<O: PublishOutbox + ?Sized>(&mut self, _outbox: &mut O) -> (next: Interval) {
        Interval { millis: 60_000 }
    }

    fn on_start<O: PublishOutbox + ?Sized>(&mut self, _outbox: &mut O) {
    }

    fn needs_immediate_publish(&self) -> (urgent: bool) {
        false
    }

    fn on_publish<O: PublishOutbox + ?Sized>(&mut self, _outbox: &mut O) {
    }
}

/// A module that does nothing.
pub struct NoopModule;

impl MqttModule for NoopModule {
    open spec fn registers(&self, before: Seq<Seq<char>>, after: Seq<Seq<char>>) -> bool {
        before == after
    }

    open spec fn receives(&self, after: &Self, topic: Seq<char>, payload: Seq<u8>) -> bool {
        self == after
    }

    open spec fn ticks(
        &self,
        after: &Self,
        queue: Seq<RequestView>,
        queue_after: Seq<RequestView>,
        next: Interval,
    ) -> bool {
        quiet(self, after, queue, queue_after) && next == Interval::minute()
    }

    open spec fn starts(
        &self,
        after: &Self,
        queue: Seq<RequestView>,
        queue_after: Seq<RequestView>,
    ) -> bool {
        quiet(self, after, queue, queue_after)
    }

    open spec fn publishes(
        &self,
        after: &Self,
        queue: Seq<RequestView>,
        queue_after: Seq<RequestView>,
    ) -> bool {
        quiet(self, after, queue, queue_after)
    }

    open spec fn answers_urgent(&self, urgent: bool) -> bool {
        !urgent
    }

    fn register<C: TopicCollector + ?Sized>(&self, _collector: &mut C) {
    }

    fn on_message(&mut self, _msg: &Publish<'_>) {
    }

    fn on_tick<O: PublishOutbox + ?Sized>(&mut self, _outbox: &mut O) -> (next: Interval) {
        Interval { millis: 60_000 }
    }

    fn on_start<O: PublishOutbox + ?Sized>(&mut self, _outbox: &mut O) {
    }

    fn needs_immediate_publish(&self) -> (urgent: bool) {
        false
    }

    fn on_publish<O: PublishOutbox + ?Sized>(&mut self, _outbox: &mut O) {
    }
}

impl Listener for NoopModule {
    open spec fn subscribes(&self, before: Seq<Seq<char>>, after: Seq<Seq<char>>) -> bool {
        before == after
    }

    open spec fn hears(&self, after: &Self, topic: Seq<char>, payload: Seq<u8>) -> bool {
        self == after
    }

    fn subscribe<C: TopicCollector + ?Sized>(&self, _collector: &mut C) {
    }

    fn hear(&mut self, _msg: &Publish<'_>) {
    }
}

/// Two modules as one: both receive every message and every tick, the first one first.
pub struct ModulePair<M1, M2> {
    pub first: M1,
    pub second: M2,
}

impl<M1, M2> ModulePair<M1, M2> {
    /// Combines two modules.
    pub fn new(first: M1, second: M2) -> (pair: Self)
        ensures
            pair.first == first,
            pair.second == second,
    {
        Self { first, second }
    }
}

/// The shorter of two intervals.
pub open spec fn shorter(a: Interval, b: Interval) -> Interval {
    if a.millis < b.millis {
        a
    } else {
        b
    }
}

impl<M1: MqttModule, M2: MqttModule> MqttModule for ModulePair<M1, M2> {
    open spec fn registers(&self, before: Seq<Seq<char>>, after: Seq<Seq<char>>) -> bool {
        exists|mid: Seq<Seq<char>>| #[trigger]
            self.first.registers(before, mid) && self.second.registers(mid, after)
    }

    open spec fn receives(&self, after: &Self, topic: Seq<char>, payload: Seq<u8>) -> bool {
        self.first.receives(&after.first, topic, payload) && self.second.receives(
            &after.second,
            topic,
            payload,
        )
    }

    /// Both modules tick, and the pair ticks as often as the one that wants it more often.
    open spec fn ticks(
        &self,
        after: &Self,
        queue: Seq<RequestView>,
        queue_after: Seq<RequestView>,
        next: Interval,
    ) -> bool {
        exists|mid: Seq<RequestView>, d1: Interval, d2: Interval|
            {
                &&& #[trigger] self.first.ticks(&after.first, queue, mid, d1)
                &&& #[trigger] self.second.ticks(&after.second, mid, queue_after, d2)
                &&& next == shorter(d1, d2)
            }
    }

    open spec fn starts(
        &self,
        after: &Self,
        queue: Seq<RequestView>,
        queue_after: Seq<RequestView>,
    ) -> bool {
        exists|mid: Seq<RequestView>| #[trigger]
            self.first.starts(&after.first, queue, mid) && self.second.starts(
                &after.second,
                mid,
                queue_after,
            )
    }

    open spec fn publishes(
        &self,
        after: &Self,
        queue: Seq<RequestView>,
        queue_after: Seq<RequestView>,
    ) -> bool {
        exists|mid: Seq<RequestView>| #[trigger]
            self.first.publishes(&after.first, queue, mid) && self.second.publishes(
                &after.second,
                mid,
                queue_after,
            )
    }

    /// The second module is asked where the first one has nothing urgent.
    open spec fn answers_urgent(&self, urgent: bool) -> bool {
        exists|b1: bool| #[trigger]
            self.first.answers_urgent(b1) && if b1 {
                urgent
            } else {
                self.second.answers_urgent(urgent)
            }
    }

    fn register<C: TopicCollector + ?Sized>(&self, collector: &mut C) {
        self.first.register(collector);
        self.second.register(collector);
    }

    fn on_message(&mut self, msg: &Publish<'_>) {
        self.first.on_message(msg);
        self.second.on_message(msg);
    }

    fn on_tick<O: PublishOutbox + ?Sized>(&mut self, outbox: &mut O) -> (next: Interval) {
        let ghost queue = outbox.queued();
        let d1: Interval = self.first.on_tick(outbox);
        let ghost mid = outbox.queued();
        let d2: Interval = self.second.on_tick(outbox);
        proof {
            assert(old(self).first.ticks(&self.first, queue, mid, d1));
            assert(old(self).second.ticks(&self.second, mid, outbox.queued(), d2));
        }
        if d1.millis < d2.millis {
            d1
        } else {
            d2
        }
    }

    fn on_start<O: PublishOutbox + ?Sized>(&mut self, outbox: &mut O) {
        let ghost queue = outbox.queued();
        self.first.on_start(outbox);
        let ghost mid = outbox.queued();
        self.second.on_start(outbox);
        assert(old(self).first.starts(&self.first, queue, mid));
    }

    fn needs_immediate_publish(&self) -> (urgent: bool) {
        self.first.needs_immediate_publish() || self.second.needs_immediate_publish()
    }

    fn on_publish<O: PublishOutbox + ?Sized>(&mut self, outbox: &mut O) {
        let ghost queue = outbox.queued();
        self.first.on_publish(outbox);
        let ghost mid = outbox.queued();
        self.second.on_publish(outbox);
        assert(old(self).first.publishes(&self.first, queue, mid));
    }
}

} // verus!
