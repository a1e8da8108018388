use vstd::prelude::*;

verus! {

/// Reads a sequence of `(topic, item)` pairs as a map: a later pair for the
/// same topic takes precedence over an earlier one.
pub open spec fn pairs_to_map<V>(s: Seq<(Seq<char>, V)>) -> Map<Seq<char>, V>
    decreases s.len(),
{
    if s.len() == 0 {
        Map::empty()
    } else {
        pairs_to_map(s.drop_last()).insert(s.last().0, s.last().1)
    }
}

/// No topic occurs twice.
pub open spec fn topics_unique<V>(s: Seq<(Seq<char>, V)>) -> bool {
    forall|i: int, j: int| 0 <= i < j < s.len() ==> #[trigger] s[i].0 != #[trigger] s[j].0
}

pub proof fn lemma_map_domain<V>(s: Seq<(Seq<char>, V)>, t: Seq<char>)
    ensures
        pairs_to_map(s).contains_key(t) <==> exists|i: int| 0 <= i < s.len() && (#[trigger] s[i]).0 == t,
    decreases s.len(),
{
    if s.len() > 0 {
        lemma_map_domain(s.drop_last(), t);
        if pairs_to_map(s.drop_last()).contains_key(t) {
            let i = choose|i: int| 0 <= i < s.drop_last().len() && (#[trigger] s.drop_last()[i]).0 == t;
            assert(s[i] == s.drop_last()[i]);
        }
        if exists|i: int| 0 <= i < s.len() && (#[trigger] s[i]).0 == t {
            let i = choose|i: int| 0 <= i < s.len() && (#[trigger] s[i]).0 == t;
            if i < s.len() - 1 {
                assert(s.drop_last()[i] == s[i]);
            }
        }
    }
}

pub proof fn lemma_map_lookup<V>(s: Seq<(Seq<char>, V)>, i: int)
    requires
        topics_unique(s),
        0 <= i < s.len(),
    ensures
        pairs_to_map(s).contains_key(s[i].0),
        pairs_to_map(s)[s[i].0] == s[i].1,
    decreases s.len(),
{
    if i < s.len() - 1 {
        let d = s.drop_last();
        assert(d[i] == s[i]);
        assert(topics_unique(d)) by {
            assert forall|a: int, b: int| 0 <= a < b < d.len() implies #[trigger] d[a].0 != #[trigger] d[b].0 by {
                assert(d[a] == s[a] && d[b] == s[b]);
            }
        }
        lemma_map_lookup(d, i);
        assert(s.last().0 != s[i].0);
    }
}

pub proof fn lemma_map_update<V>(s: Seq<(Seq<char>, V)>, i: int, v: V)
    requires
        topics_unique(s),
        0 <= i < s.len(),
    ensures
        topics_unique(s.update(i, (s[i].0, v))),
        pairs_to_map(s.update(i, (s[i].0, v))) == pairs_to_map(s).insert(s[i].0, v),
{
    let u = s.update(i, (s[i].0, v));
    assert(u.len() == s.len());
    assert(topics_unique(u)) by {
        assert forall|a: int, b: int| 0 <= a < b < u.len() implies #[trigger] u[a].0 != #[trigger] u[b].0 by {
            assert(u[a].0 == s[a].0 && u[b].0 == s[b].0);
        }
    }
    let m = pairs_to_map(s).insert(s[i].0, v);
    assert forall|t: Seq<char>| pairs_to_map(u).contains_key(t) <==> m.contains_key(t) by {
        lemma_map_domain(u, t);
        lemma_map_domain(s, t);
        if m.contains_key(t) {
            if t == s[i].0 {
                assert(u[i].0 == t);
            } else {
                let j = choose|j: int| 0 <= j < s.len() && (#[trigger] s[j]).0 == t;
                assert(u[j].0 == t);
            }
        }
        if pairs_to_map(u).contains_key(t) {
            let j = choose|j: int| 0 <= j < u.len() && (#[trigger] u[j]).0 == t;
            assert(s[j].0 == t);
        }
    }
    assert forall|t: Seq<char>| #[trigger] pairs_to_map(u).contains_key(t) implies pairs_to_map(u)[t] == m[t] by {
        lemma_map_domain(u, t);
        let j = choose|j: int| 0 <= j < u.len() && (#[trigger] u[j]).0 == t;
        lemma_map_lookup(u, j);
        if j != i {
            lemma_map_lookup(s, j);
        }
    }
    assert(pairs_to_map(u) =~= m);
}

pub proof fn lemma_map_push<V>(s: Seq<(Seq<char>, V)>, t: Seq<char>, v: V)
    requires
        topics_unique(s),
        !pairs_to_map(s).contains_key(t),
    ensures
        topics_unique(s.push((t, v))),
        pairs_to_map(s.push((t, v))) == pairs_to_map(s).insert(t, v),
{
    let p = s.push((t, v));
    assert(p.drop_last() =~= s);
    lemma_map_domain(s, t);
    assert(topics_unique(p)) by {
        assert forall|a: int, b: int| 0 <= a < b < p.len() implies #[trigger] p[a].0 != #[trigger] p[b].0 by {
            if b == s.len() {
                assert(p[a] == s[a]);
            } else {
                assert(p[a] == s[a] && p[b] == s[b]);
            }
        }
    }
}

pub proof fn lemma_map_remove<V>(s: Seq<(Seq<char>, V)>, i: int)
    requires
        topics_unique(s),
        0 <= i < s.len(),
    ensures
        topics_unique(s.remove(i)),
        pairs_to_map(s.remove(i)) == pairs_to_map(s).remove(s[i].0),
{
    let r = s.remove(i);
    assert forall|a: int| 0 <= a < r.len() implies #[trigger] r[a] == if a < i { s[a] } else { s[a + 1] } by {}
    assert(topics_unique(r)) by {
        assert forall|a: int, b: int| 0 <= a < b < r.len() implies #[trigger] r[a].0 != #[trigger] r[b].0 by {
            assert(r[a] == if a < i { s[a] } else { s[a + 1] });
            assert(r[b] == if b < i { s[b] } else { s[b + 1] });
        }
    }
    let m = pairs_to_map(s).remove(s[i].0);
    assert forall|t: Seq<char>| pairs_to_map(r).contains_key(t) <==> m.contains_key(t) by {
        lemma_map_domain(r, t);
        lemma_map_domain(s, t);
        if m.contains_key(t) {
            let j = choose|j: int| 0 <= j < s.len() && (#[trigger] s[j]).0 == t;
            assert(j != i);
            if j < i {
                assert(r[j] == s[j]);
            } else {
                assert(r[j - 1] == s[j]);
            }
        }
        if pairs_to_map(r).contains_key(t) {
            let j = choose|j: int| 0 <= j < r.len() && (#[trigger] r[j]).0 == t;
            if j < i {
                assert(r[j] == s[j]);
            } else {
                assert(r[j] == s[j + 1]);
            }
        }
    }
    assert forall|t: Seq<char>| #[trigger] pairs_to_map(r).contains_key(t) implies pairs_to_map(r)[t] == m[t] by {
        lemma_map_domain(r, t);
        let j = choose|j: int| 0 <= j < r.len() && (#[trigger] r[j]).0 == t;
        lemma_map_lookup(r, j);
        if j < i {
            assert(r[j] == s[j]);
            lemma_map_lookup(s, j);
        } else {
            assert(r[j] == s[j + 1]);
            lemma_map_lookup(s, j + 1);
        }
    }
    assert(pairs_to_map(r) =~= m);
}

/// A table keyed by topic name, at most one item per topic, in order of the
/// first insertion of each topic.
pub struct TopicTable<V> {
    entries: Vec<(String, V)>,
}

impl<V> TopicTable<V> {
    /// The entries with each topic name read as its characters.
    pub closed spec fn pairs(&self) -> Seq<(Seq<char>, V)> {
        self.entries@.map_values(|e: (String, V)| (e.0@, e.1))
    }

    pub open spec fn view(&self) -> Map<Seq<char>, V> {
        pairs_to_map(self.pairs())
    }

    pub open spec fn wf(&self) -> bool {
        topics_unique(self.pairs())
    }

    pub fn new() -> (r: Self)
        ensures
            r.wf(),
            r.view() == Map::<Seq<char>, V>::empty(),
            r.pairs().len() == 0,
    {
        let r = TopicTable { entries: Vec::new() };
        assert(r.pairs() =~= Seq::<(Seq<char>, V)>::empty());
        r
    }

    pub fn len(&self) -> (r: usize)
        requires
            self.wf(),
        ensures
            r == self.view().len(),
            r == self.pairs().len(),
    {
        proof {
            self.lemma_len();
        }
        self.entries.len()
    }

    pub proof fn lemma_len(&self)
        requires
            self.wf(),
        ensures
            self.view().len() == self.pairs().len(),
            self.view().dom().finite(),
    {
        lemma_unique_map_len(self.pairs());
    }

    /// The position of `topic`, if it has an entry.
    fn find(&self, topic: &String) -> (r: Option<usize>)
        requires
            self.wf(),
        ensures
            match r {
                Some(i) => i < self.pairs().len() && self.pairs()[i as int].0 == topic@,
                None => !self.view().contains_key(topic@),
            },
    {
        let mut i: usize = 0;
        while i < self.entries.len()
            invariant
                i <= self.entries@.len(),
                self.pairs().len() == self.entries@.len(),
                forall|j: int| 0 <= j < i ==> (#[trigger] self.pairs()[j]).0 != topic@,
            decreases self.entries@.len() - i,
        {
            if self.entries[i].0 == *topic {
                return Some(i);
            }
            i = i + 1;
        }
        proof {
            lemma_map_domain(self.pairs(), topic@);
        }
        None
    }

    pub fn contains(&self, topic: &String) -> (r: bool)
        requires
            self.wf(),
        ensures
            r == self.view().contains_key(topic@),
    {
        match self.find(topic) {
            Some(i) => {
                proof {
                    lemma_map_lookup(self.pairs(), i as int);
                }
                true
            },
            None => false,
        }
    }

    pub fn get(&self, topic: &String) -> (r: Option<&V>)
        requires
            self.wf(),
        ensures
            match r {
                Some(v) => self.view().contains_key(topic@) && *v == self.view()[topic@],
                None => !self.view().contains_key(topic@),
            },
    {
        match self.find(topic) {
            Some(i) => {
                proof {
                    lemma_map_lookup(self.pairs(), i as int);
                }
                Some(&self.entries[i].1)
            },
            None => None,
        }
    }

    /// Sets the item of `topic`, replacing the one it had.
    pub fn insert(&mut self, topic: String, item: V)
        requires
            old(self).wf(),
        ensures
            final(self).wf(),
            final(self).view() == old(self).view().insert(topic@, item),
    {
        match self.find(&topic) {
            Some(i) => {
                proof {
                    lemma_map_update(self.pairs(), i as int, item);
                }
                self.entries.set(i, (topic, item));
                assert(self.pairs() =~= old(self).pairs().update(i as int, (old(self).pairs()[i as int].0, item)));
            },
            None => {
                proof {
                    lemma_map_push(self.pairs(), topic@, item);
                }
                self.entries.push((topic, item));
                assert(self.pairs() =~= old(self).pairs().push((topic@, item)));
            },
        }
    }

    /// Removes the entry of `topic`, handing its item back.
    pub fn remove(&mut self, topic: &String) -> (r: Option<V>)
        requires
            old(self).wf(),
        ensures
            final(self).wf(),
            final(self).view() == old(self).view().remove(topic@),
            match r {
                Some(v) => old(self).view().contains_key(topic@) && v == old(self).view()[topic@],
                None => !old(self).view().contains_key(topic@),
            },
    {
        match self.find(topic) {
            Some(i) => {
                proof {
                    lemma_map_lookup(self.pairs(), i as int);
                    lemma_map_remove(self.pairs(), i as int);
                }
                let e = self.entries.remove(i);
                assert(self.pairs() =~= old(self).pairs().remove(i as int));
                Some(e.1)
            },
            None => {
                assert(old(self).view().remove(topic@) =~= old(self).view());
                None
            },
        }
    }

    /// Empties the table, handing back its entries in order.
    pub fn take_all(&mut self) -> (r: Vec<(String, V)>)
        requires
            old(self).wf(),
        ensures
            final(self).wf(),
            final(self).view() == Map::<Seq<char>, V>::empty(),
            r@.map_values(|e: (String, V)| (e.0@, e.1)) == old(self).pairs(),
    {
        let mut r: Vec<(String, V)> = Vec::new();
        std::mem::swap(&mut r, &mut self.entries);
        assert(self.pairs() =~= Seq::<(Seq<char>, V)>::empty());
        r
    }
}

/// With unique topics the map has one key per pair.
pub proof fn lemma_unique_map_len<V>(s: Seq<(Seq<char>, V)>)
    requires
        topics_unique(s),
    ensures
        pairs_to_map(s).len() == s.len(),
        pairs_to_map(s).dom().finite(),
    decreases s.len(),
{
    if s.len() > 0 {
        let d = s.drop_last();
        assert(topics_unique(d)) by {
            assert forall|a: int, b: int| 0 <= a < b < d.len() implies #[trigger] d[a].0 != #[trigger] d[b].0 by {
                assert(d[a] == s[a] && d[b] == s[b]);
            }
        }
        lemma_unique_map_len(d);
        lemma_map_domain(d, s.last().0);
        if pairs_to_map(d).contains_key(s.last().0) {
            let j = choose|j: int| 0 <= j < d.len() && (#[trigger] d[j]).0 == s.last().0;
            assert(d[j] == s[j]);
        }
    }
}

} // verus!
