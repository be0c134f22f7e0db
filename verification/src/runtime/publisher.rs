//! Publish requests, and the outbox that collects them while a module runs.

use crate::mqtt::packet::QoS;
use crate::runtime::module::{PublishOutbox, RequestView};
use vstd::prelude::*;
use vstd::utf8;

verus! {

/// A request to publish a message, which borrows its topic and payload.
#[derive(Debug, Clone, Copy)]
pub struct PublishRequest<'a> {
    pub topic: &'a str,
    pub payload: &'a [u8],
    pub qos: QoS,
    pub retain: bool,
}

/// A request to publish a message, which owns its topic and payload.
pub struct OwnedPublishRequest<const TOPIC_SIZE: usize, const PAYLOAD_SIZE: usize> {
    pub topic: String,
    pub payload: Vec<u8>,
    pub qos: QoS,
    pub retain: bool,
}

impl<const TOPIC_SIZE: usize, const PAYLOAD_SIZE: usize> View for OwnedPublishRequest<
    TOPIC_SIZE,
    PAYLOAD_SIZE,
> {
    type V = RequestView;

    open spec fn view(&self) -> RequestView {
        RequestView {
            topic: self.topic@,
            payload: self.payload@,
            qos: self.qos,
            retain: self.retain,
        }
    }
}

impl<const TOPIC_SIZE: usize, const PAYLOAD_SIZE: usize> Clone for OwnedPublishRequest<
    TOPIC_SIZE,
    PAYLOAD_SIZE,
> {
    fn clone(&self) -> (r: Self)
        ensures
            r@ == self@,
    {
        OwnedPublishRequest {
            topic: self.topic.as_str().to_owned(),
            payload: vstd::slice::slice_to_vec(self.payload.as_slice()),
            qos: self.qos,
            retain: self.retain,
        }
    }
}

/// Whether a request fits the sizes of an outbox.
pub open spec fn request_fits(r: RequestView, topic_size: int, payload_size: int) -> bool {
    utf8::encode_utf8(r.topic).len() <= topic_size && r.payload.len() <= payload_size
}

/// Collects the publish requests of a module, to be published when it has returned.
///
/// At most `CAPACITY` requests, with topics of at most `TOPIC_SIZE` and payloads of at most
/// `PAYLOAD_SIZE` bytes.
pub struct BufferedOutbox<const CAPACITY: usize, const TOPIC_SIZE: usize, const PAYLOAD_SIZE: usize> {
    requests: Vec<OwnedPublishRequest<TOPIC_SIZE, PAYLOAD_SIZE>>,
}

impl<const CAPACITY: usize, const TOPIC_SIZE: usize, const PAYLOAD_SIZE: usize> View for BufferedOutbox<
    CAPACITY,
    TOPIC_SIZE,
    PAYLOAD_SIZE,
> {
    type V = Seq<RequestView>;

    closed spec fn view(&self) -> Seq<RequestView> {
        self.requests@.map_values(|r: OwnedPublishRequest<TOPIC_SIZE, PAYLOAD_SIZE>| r@)
    }
}

impl<
    const CAPACITY: usize,
    const TOPIC_SIZE: usize,
    const PAYLOAD_SIZE: usize,
> BufferedOutbox<CAPACITY, TOPIC_SIZE, PAYLOAD_SIZE> {
    /// There are at most `CAPACITY` requests, and each fits the outbox.
    pub open spec fn well_formed(&self) -> bool {
        &&& self@.len() <= CAPACITY
        &&& forall|i: int|
            0 <= i < self@.len() ==> request_fits(
                #[trigger] self@[i],
                TOPIC_SIZE as int,
                PAYLOAD_SIZE as int,
            )
    }

    /// The outbox after a request: one that does not fit, or for which there is no place, is
    /// dropped.
    pub open spec fn after(self, r: RequestView) -> Seq<RequestView> {
        if request_fits(r, TOPIC_SIZE as int, PAYLOAD_SIZE as int) && self@.len() < CAPACITY {
            self@.push(r)
        } else {
            self@
        }
    }

    /// An empty outbox.
    pub fn new() -> (o: Self)
        ensures
            o@ == Seq::<RequestView>::empty(),
            o.well_formed(),
    {
        let o = Self { requests: Vec::new() };
        assert(o@ =~= Seq::<RequestView>::empty());
        o
    }

    /// Takes all collected requests out of the outbox, in order.
    pub fn drain(&mut self) -> (requests: Vec<OwnedPublishRequest<TOPIC_SIZE, PAYLOAD_SIZE>>)
        ensures
            requests@.map_values(|r: OwnedPublishRequest<TOPIC_SIZE, PAYLOAD_SIZE>| r@)
                == old(self)@,
            final(self)@ == Seq::<RequestView>::empty(),
            final(self).well_formed(),
    {
        let mut out: Vec<OwnedPublishRequest<TOPIC_SIZE, PAYLOAD_SIZE>> = Vec::new();
        std::mem::swap(&mut out, &mut self.requests);
        assert(self@ =~= Seq::<RequestView>::empty());
        out
    }

    /// Forgets all collected requests.
    pub fn clear(&mut self)
        ensures
            final(self)@ == Seq::<RequestView>::empty(),
            final(self).well_formed(),
    {
        self.requests.clear();
        assert(self@ =~= Seq::<RequestView>::empty());
    }

    pub fn is_empty(&self) -> (b: bool)
        ensures
            b == (self@.len() == 0),
    {
        self.requests.len() == 0
    }

    /// How many requests have been collected.
    pub fn len(&self) -> (n: usize)
        ensures
            n == self@.len(),
    {
        self.requests.len()
    }
}

impl<
    const CAPACITY: usize,
    const TOPIC_SIZE: usize,
    const PAYLOAD_SIZE: usize,
> Default for BufferedOutbox<CAPACITY, TOPIC_SIZE, PAYLOAD_SIZE> {
    fn default() -> (o: Self)
        ensures
            o@ == Seq::<RequestView>::empty(),
            o.well_formed(),
    {
        Self::new()
    }
}

impl<
    const CAPACITY: usize,
    const TOPIC_SIZE: usize,
    const PAYLOAD_SIZE: usize,
> PublishOutbox for BufferedOutbox<CAPACITY, TOPIC_SIZE, PAYLOAD_SIZE> {
    open spec fn queued(&self) -> Seq<RequestView> {
        self@
    }

    fn publish(&mut self, topic: &str, payload: &[u8], qos: QoS)
        ensures
            final(self)@ == old(self).after(
                RequestView { topic: topic@, payload: payload@, qos, retain: false },
            ),
            old(self).well_formed() ==> final(self).well_formed(),
    {
        self.publish_with_retain(topic, payload, qos, false);
    }

    fn publish_with_retain(&mut self, topic: &str, payload: &[u8], qos: QoS, retain: bool)
        ensures
            final(self)@ == old(self).after(
                RequestView { topic: topic@, payload: payload@, qos, retain },
            ),
            old(self).well_formed() ==> final(self).well_formed(),
    {
        if topic.as_bytes().len() > TOPIC_SIZE {
            return ;
        }
        if payload.len() > PAYLOAD_SIZE {
            return ;
        }
        if self.requests.len() >= CAPACITY {
            return ;
        }
        let req: OwnedPublishRequest<TOPIC_SIZE, PAYLOAD_SIZE> = OwnedPublishRequest {
            topic: topic.to_owned(),
            payload: vstd::slice::slice_to_vec(payload),
            qos,
            retain,
        };
        self.requests.push(req);
        assert(self@ =~= old(self)@.push(
            RequestView { topic: topic@, payload: payload@, qos, retain },
        ));
    }
}

} // verus!
