use vstd::prelude::*;

use crate::topic_table::{pairs_to_map, topics_unique, TopicTable};
use crate::value::{is_publishable, Value};

verus! {

/// Values written while no connection was live, one per topic; a later write
/// to a topic replaces the earlier one.
pub struct WritingCacheState {
    pub(crate) pending: TopicTable<Value>,
}

impl View for WritingCacheState {
    type V = Map<Seq<char>, Value>;

    closed spec fn view(&self) -> Map<Seq<char>, Value> {
        self.pending.view()
    }
}

impl WritingCacheState {
    pub closed spec fn wf(&self) -> bool {
        &&& self.pending.wf()
        &&& forall|t: Seq<char>| #[trigger]
            self.pending.view().contains_key(t) ==> is_publishable(self.pending.view()[t])
    }

    /// An empty cache.
    pub fn new() -> (r: Self)
        ensures
            r.wf(),
            r@ == Map::<Seq<char>, Value>::empty(),
    {
        WritingCacheState { pending: TopicTable::new() }
    }

    /// Whether no write is pending.
    pub fn is_empty(&self) -> (r: bool)
        requires
            self.wf(),
        ensures
            r == (self@ == Map::<Seq<char>, Value>::empty()),
    {
        proof {
            self.pending.lemma_len();
        }
        let n = self.pending.len();
        if n != 0 {
            assert(self@.dom().len() > 0);
            assert(self@ != Map::<Seq<char>, Value>::empty());
        } else {
            assert(self@.dom() =~= Set::<Seq<char>>::empty());
            assert(self@ =~= Map::<Seq<char>, Value>::empty());
        }
        n == 0
    }

    /// The value pending for `topic`, if any.
    pub fn pending_value(&self, topic: &String) -> (r: Option<&Value>)
        requires
            self.wf(),
        ensures
            match r {
                Some(v) => self@.contains_key(topic@) && *v == self@[topic@],
                None => !self@.contains_key(topic@),
            },
    {
        self.pending.get(topic)
    }

    /// Keeps `value` as the pending write of `topic`.
    pub fn store(&mut self, topic: String, value: Value)
        requires
            old(self).wf(),
            is_publishable(value),
        ensures
            final(self).wf(),
            final(self)@ == old(self)@.insert(topic@, value),
    {
        self.pending.insert(topic, value);
    }

    /// Empties the cache, handing back every pending write once, in the order
    /// in which each topic was first written.
    pub fn drain(&mut self) -> (r: Vec<(String, Value)>)
        requires
            old(self).wf(),
        ensures
            final(self).wf(),
            final(self)@ == Map::<Seq<char>, Value>::empty(),
            topics_unique(pending_pairs(r@)),
            pairs_to_map(pending_pairs(r@)) == old(self)@,
            forall|i: int| 0 <= i < r@.len() ==> is_publishable(#[trigger] r@[i].1),
    {
        let r = self.pending.take_all();
        proof {
            assert(pending_pairs(r@) == old(self).pending.pairs());
            assert forall|i: int| 0 <= i < r@.len() implies is_publishable(#[trigger] r@[i].1) by {
                assert(pending_pairs(r@)[i] == (r@[i].0@, r@[i].1));
                crate::topic_table::lemma_map_lookup(pending_pairs(r@), i);
                assert(old(self).pending.view().contains_key(r@[i].0@));
            }
        }
        r
    }
}

impl Default for WritingCacheState {
    fn default() -> (r: Self)
        ensures
            r.wf(),
            r@ == Map::<Seq<char>, Value>::empty(),
    {
        WritingCacheState::new()
    }
}

/// Pending writes with each topic name read as its characters.
pub open spec fn pending_pairs(s: Seq<(String, Value)>) -> Seq<(Seq<char>, Value)> {
    s.map_values(|e: (String, Value)| (e.0@, e.1))
}

} // verus!
