//! The topics that modules want to subscribe to.

use crate::runtime::module::TopicCollector;
use vstd::prelude::*;
use vstd::utf8;

verus! {

/// The most bytes that a topic may have.
pub const MAX_TOPIC_LEN: usize = 128;

/// Owns the topics that modules register, up to `MAX_TOPICS` of them.
pub struct TopicRegistry<const MAX_TOPICS: usize> {
    registered: Vec<String>,
}

impl<const MAX_TOPICS: usize> View for TopicRegistry<MAX_TOPICS> {
    type V = Seq<Seq<char>>;

    closed spec fn view(&self) -> Seq<Seq<char>> {
        self.registered@.map_values(|t: String| t@)
    }
}

impl<const MAX_TOPICS: usize> TopicRegistry<MAX_TOPICS> {
    /// There are at most `MAX_TOPICS` topics, of at most [`MAX_TOPIC_LEN`] bytes each.
    pub open spec fn well_formed(&self) -> bool {
        &&& self@.len() <= MAX_TOPICS
        &&& forall|i: int|
            0 <= i < self@.len() ==> utf8::encode_utf8(#[trigger] self@[i]).len() <= MAX_TOPIC_LEN
    }

    /// A registry without topics.
    pub fn new() -> (r: Self)
        ensures
            r@ == Seq::<Seq<char>>::empty(),
            r.well_formed(),
    {
        let r = Self { registered: Vec::new() };
        assert(r@ =~= Seq::<Seq<char>>::empty());
        r
    }

    /// Adds a copy of a topic; `false` means that the registry is full or the topic too long.
    pub fn add_topic(&mut self, topic: &str) -> (taken: bool)
        ensures
            taken == (utf8::encode_utf8(topic@).len() <= MAX_TOPIC_LEN && old(self)@.len()
                < MAX_TOPICS),
            final(self)@ == if taken {
                old(self)@.push(topic@)
            } else {
                old(self)@
            },
            old(self).well_formed() ==> final(self).well_formed(),
    {
        if topic.as_bytes().len() > MAX_TOPIC_LEN {
            return false;
        }
        if self.registered.len() >= MAX_TOPICS {
            return false;
        }
        self.registered.push(topic.to_owned());
        assert(self@ =~= old(self)@.push(topic@));
        true
    }

    /// The registered topics, in the order in which they came.
    pub fn iter(&self) -> (topics: Vec<&str>)
        ensures
            topics@.map_values(|t: &str| t@) == self@,
    {
        let mut topics: Vec<&str> = Vec::new();
        let mut i: usize = 0;
        while i < self.registered.len()
            invariant
                i <= self.registered@.len(),
                topics@.map_values(|t: &str| t@) == self@.take(i as int),
                self@.len() == self.registered@.len(),
            decreases self.registered@.len() - i,
        {
            let ghost before = topics@;
            topics.push(self.registered[i].as_str());
            assert(topics@.map_values(|t: &str| t@) =~= before.map_values(|t: &str| t@).push(
                self@[i as int],
            ));
            assert(self@.take(i as int).push(self@[i as int]) =~= self@.take(i as int + 1));
            i += 1;
        }
        assert(self@.take(i as int) =~= self@);
        topics
    }

    /// How many topics are registered.
    pub fn len(&self) -> (n: usize)
        ensures
            n == self@.len(),
    {
        self.registered.len()
    }

    pub fn is_empty(&self) -> (b: bool)
        ensures
            b == (self@.len() == 0),
    {
        self.registered.len() == 0
    }

    /// Forgets all topics.
    pub fn clear(&mut self)
        ensures
            final(self)@ == Seq::<Seq<char>>::empty(),
            final(self).well_formed(),
    {
        self.registered.clear();
        assert(self@ =~= Seq::<Seq<char>>::empty());
    }
}

impl<const MAX_TOPICS: usize> Default for TopicRegistry<MAX_TOPICS> {
    fn default() -> (r: Self)
        ensures
            r@ == Seq::<Seq<char>>::empty(),
            r.well_formed(),
    {
        Self::new()
    }
}

impl<const MAX_TOPICS: usize> TopicCollector for TopicRegistry<MAX_TOPICS> {
    open spec fn topics(&self) -> Seq<Seq<char>> {
        self@
    }

    fn add(&mut self, topic: &str) -> (taken: bool)
        ensures
            taken == (utf8::encode_utf8(topic@).len() <= MAX_TOPIC_LEN && old(self)@.len()
                < MAX_TOPICS),
            old(self).well_formed() ==> final(self).well_formed(),
    {
        self.add_topic(topic)
    }
}

} // verus!
