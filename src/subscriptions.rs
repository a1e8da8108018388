use vstd::prelude::*;

use crate::error::SessionError;
use crate::topic_table::TopicTable;

verus! {

/// How many subscribers hold interest in `t` (zero where it has no entry).
pub open spec fn subscription_count(m: Map<Seq<char>, u64>, t: Seq<char>) -> nat {
    if m.contains_key(t) {
        m[t] as nat
    } else {
        0
    }
}

/// The registry after one more subscriber takes interest in `t`.
pub open spec fn after_subscribe(m: Map<Seq<char>, u64>, t: Seq<char>) -> Map<Seq<char>, u64> {
    m.insert(t, (subscription_count(m, t) + 1) as u64)
}

/// The registry after one subscriber of `t` drops its interest; the entry
/// goes when its count would reach zero.
pub open spec fn after_unsubscribe(m: Map<Seq<char>, u64>, t: Seq<char>) -> Map<Seq<char>, u64> {
    if subscription_count(m, t) <= 1 {
        m.remove(t)
    } else {
        m.insert(t, (subscription_count(m, t) - 1) as u64)
    }
}

/// Every entry has a positive count.
pub open spec fn counts_positive(m: Map<Seq<char>, u64>) -> bool {
    forall|t: Seq<char>| #[trigger] m.contains_key(t) ==> m[t] >= 1
}

/// The reference-counted registry of topics that are of interest, keyed by
/// literal topic name.
pub struct SubscriptionsState {
    counts: TopicTable<u64>,
}

impl View for SubscriptionsState {
    type V = Map<Seq<char>, u64>;

    closed spec fn view(&self) -> Map<Seq<char>, u64> {
        self.counts.view()
    }
}

impl SubscriptionsState {
    pub closed spec fn wf(&self) -> bool {
        self.counts.wf() && counts_positive(self@)
    }

    /// An empty registry.
    pub fn new() -> (r: Self)
        ensures
            r.wf(),
            r@ == Map::<Seq<char>, u64>::empty(),
    {
        SubscriptionsState { counts: TopicTable::new() }
    }

    /// Whether anyone currently holds interest in `topic` (exact match).
    pub fn is_subscribed_to(&self, topic: &String) -> (r: bool)
        requires
            self.wf(),
        ensures
            r == self@.contains_key(topic@),
            r == (subscription_count(self@, topic@) > 0),
    {
        self.counts.contains(topic)
    }

    /// The number of subscribers of `topic`.
    pub fn count_of(&self, topic: &String) -> (r: u64)
        requires
            self.wf(),
        ensures
            r as nat == subscription_count(self@, topic@),
    {
        match self.counts.get(topic) {
            Some(c) => *c,
            None => 0,
        }
    }
}

impl Default for SubscriptionsState {
    fn default() -> (r: Self)
        ensures
            r.wf(),
            r@ == Map::<Seq<char>, u64>::empty(),
    {
        SubscriptionsState::new()
    }
}

/// Records one more subscriber of `topic`, creating its entry at one.
pub fn subscribe(topic: String, subscription_state: &mut SubscriptionsState) -> (r: Result<(), ()>)
    requires
        old(subscription_state).wf(),
        subscription_count(old(subscription_state)@, topic@) < u64::MAX,
    ensures
        r == Ok::<(), ()>(()),
        final(subscription_state).wf(),
        final(subscription_state)@ == after_subscribe(old(subscription_state)@, topic@),
{
    let n = subscription_state.count_of(&topic);
    subscription_state.counts.insert(topic, n + 1);
    Ok(())
}

/// Drops one subscriber of `topic`; fails, changing nothing, where it has none.
pub fn unsubscribe(topic: String, subscription_state: &mut SubscriptionsState) -> (r: Result<
    (),
    SessionError,
>)
    requires
        old(subscription_state).wf(),
    ensures
        final(subscription_state).wf(),
        old(subscription_state)@.contains_key(topic@) ==> r is Ok && final(subscription_state)@
            == after_unsubscribe(old(subscription_state)@, topic@),
        !old(subscription_state)@.contains_key(topic@) ==> (r matches Err(
            SessionError::NotSubscribed,
        )) && final(subscription_state)@ == old(subscription_state)@,
{
    let n = subscription_state.count_of(&topic);
    if n == 0 {
        return Err(SessionError::NotSubscribed);
    }
    if n <= 1 {
        subscription_state.counts.remove(&topic);
    } else {
        subscription_state.counts.insert(topic, n - 1);
    }
    Ok(())
}

/// Number of subscribe calls in a sequence of calls on one topic (`true`
/// stands for subscribe, `false` for unsubscribe).
pub open spec fn subscribe_calls(ops: Seq<bool>) -> nat
    decreases ops.len(),
{
    if ops.len() == 0 {
        0
    } else {
        subscribe_calls(ops.drop_last()) + if ops.last() { 1nat } else { 0nat }
    }
}

/// The registry after a sequence of subscribe and unsubscribe calls on `t`,
/// as their contracts state: an unsubscribe on a topic without an entry
/// fails and leaves the registry as it was.
pub open spec fn after_calls(m: Map<Seq<char>, u64>, t: Seq<char>, ops: Seq<bool>) -> Map<
    Seq<char>,
    u64,
>
    decreases ops.len(),
{
    if ops.len() == 0 {
        m
    } else {
        let p = after_calls(m, t, ops.drop_last());
        if ops.last() {
            after_subscribe(p, t)
        } else if p.contains_key(t) {
            after_unsubscribe(p, t)
        } else {
            p
        }
    }
}

/// Number of unsubscribe calls in a sequence of calls on `t` that succeed:
/// those made while `t` has an entry.
pub open spec fn accepted_unsubscribes(m: Map<Seq<char>, u64>, t: Seq<char>, ops: Seq<bool>) -> nat
    decreases ops.len(),
{
    if ops.len() == 0 {
        0
    } else {
        accepted_unsubscribes(m, t, ops.drop_last()) + if !ops.last() && after_calls(
            m,
            t,
            ops.drop_last(),
        ).contains_key(t) {
            1nat
        } else {
            0nat
        }
    }
}

/// Reference counting: starting from no interest in `t`, after any sequence
/// of subscribe and unsubscribe calls on `t`, the count of `t` is the number
/// of subscribes less the number of unsubscribes that succeeded, and `t` is
/// subscribed exactly when the first exceeds the second. Unsubscribes made
/// while `t` had no entry failed and changed nothing.
pub proof fn lemma_subscription_balance(m: Map<Seq<char>, u64>, t: Seq<char>, ops: Seq<bool>)
    requires
        counts_positive(m),
        !m.contains_key(t),
        subscribe_calls(ops) < u64::MAX,
    ensures
        counts_positive(after_calls(m, t, ops)),
        accepted_unsubscribes(m, t, ops) <= subscribe_calls(ops),
        subscription_count(after_calls(m, t, ops), t) == subscribe_calls(ops)
            - accepted_unsubscribes(m, t, ops),
        after_calls(m, t, ops).contains_key(t) <==> subscribe_calls(ops) > accepted_unsubscribes(
            m,
            t,
            ops,
        ),
    decreases ops.len(),
{
    if ops.len() > 0 {
        let d = ops.drop_last();
        lemma_subscription_balance(m, t, d);
        let p = after_calls(m, t, d);
        if !ops.last() && p.contains_key(t) {
            assert(subscription_count(p, t) >= 1);
        }
    }
}

} // verus!
