//! Topic dispatch: which mounted handler receives a message, by the exact
//! topic it arrived on.
use vstd::prelude::*;

use crate::text::{str_eq, views};

verus! {

/// The slot of topic `t` in `ts`: its first position.
pub open spec fn is_slot(ts: Seq<Seq<char>>, t: Seq<char>, i: int) -> bool {
    0 <= i < ts.len() && ts[i] == t && forall|j: int| 0 <= j < i ==> ts[j] != t
}

/// No topic is mounted twice.
pub open spec fn topics_unique(ts: Seq<Seq<char>>) -> bool {
    forall|i: int, j: int| 0 <= i < j < ts.len() ==> ts[i] != ts[j]
}

/// The mounted topics, each with a handler slot: the handler of topic
/// `topics[i]` is the caller's handler number `i`.
pub struct TopicDispatcher {
    topics: Vec<String>,
}

impl View for TopicDispatcher {
    type V = Seq<Seq<char>>;

    closed spec fn view(&self) -> Seq<Seq<char>> {
        views(self.topics@)
    }
}

impl TopicDispatcher {
    pub fn new() -> (r: TopicDispatcher)
        ensures
            r@ == Seq::<Seq<char>>::empty(),
    {
        let r = TopicDispatcher { topics: Vec::new() };
        assert(r@ =~= Seq::<Seq<char>>::empty());
        r
    }

    /// Mounts `topic` and returns its handler slot. A topic mounted again
    /// keeps its slot, so the handler stored there last wins.
    pub fn mount(&mut self, topic: &str) -> (r: usize)
        ensures
            (exists|i: int| 0 <= i < old(self)@.len() && old(self)@[i] == topic@) ==> final(self)@
                == old(self)@,
            !(exists|i: int| 0 <= i < old(self)@.len() && old(self)@[i] == topic@) ==> final(self)@
                == old(self)@.push(topic@),
            is_slot(final(self)@, topic@, r as int),
            topics_unique(old(self)@) ==> topics_unique(final(self)@),
    {
        match self.route(topic) {
            Some(i) => i,
            None => {
                let ghost before = self@;
                self.topics.push(String::from_str(topic));
                assert(self@ =~= before.push(topic@));
                self.topics.len() - 1
            },
        }
    }

    /// The handler slot of the topic a message arrived on; `None` when no
    /// handler is mounted there.
    pub fn route(&self, topic: &str) -> (r: Option<usize>)
        ensures
            match r {
                Some(i) => is_slot(self@, topic@, i as int),
                None => forall|j: int| 0 <= j < self@.len() ==> self@[j] != topic@,
            },
    {
        let mut i: usize = 0;
        while i < self.topics.len()
            invariant
                i <= self.topics@.len(),
                forall|j: int| 0 <= j < i ==> self@[j] != topic@,
            decreases self.topics@.len() - i,
        {
            if str_eq(self.topics[i].as_str(), topic) {
                return Some(i);
            }
            i += 1;
        }
        None
    }

    /// The mounted topics, in the order they were first mounted.
    pub fn topics(&self) -> (r: &Vec<String>)
        ensures
            views(r@) == self@,
    {
        &self.topics
    }
}

} // verus!
