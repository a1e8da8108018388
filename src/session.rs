use vstd::prelude::*;

use crate::error::SessionError;
use crate::publishers::PublishersState;
use crate::topic_table::{lemma_map_domain, lemma_map_lookup, pairs_to_map, topics_unique};
use crate::value::{is_publishable, type_of, value_to_type, Value, WireType};
use crate::write_cache::{pending_pairs, WritingCacheState};

verus! {

/// The slot that holds the one live connection, if any. `C` is whatever the
/// caller pairs with it: the protocol client and its listener task.
pub struct ConnectionState<C> {
    current: Option<C>,
}

impl<C> View for ConnectionState<C> {
    type V = Option<C>;

    closed spec fn view(&self) -> Option<C> {
        self.current
    }
}

impl<C> ConnectionState<C> {
    /// A slot with no connection.
    pub fn new() -> (r: Self)
        ensures
            r@ is None,
    {
        ConnectionState { current: None }
    }

    /// The live connection, if any.
    pub fn current(&self) -> (r: Option<&C>)
        ensures
            match self@ {
                Some(c) => r == Some(&c),
                None => r is None,
            },
    {
        match &self.current {
            Some(c) => Some(c),
            None => None,
        }
    }

    /// Whether a connection is live.
    pub fn is_connected(&self) -> (r: bool)
        ensures
            r == self@ is Some,
    {
        self.current.is_some()
    }
}

impl<C> Default for ConnectionState<C> {
    fn default() -> (r: Self)
        ensures
            r@ is None,
    {
        ConnectionState::new()
    }
}

/// One value to send on the live connection. Where `needs_publisher` is set,
/// a publisher for `topic` with `wire_type` must be created and registered
/// first; otherwise the registered one is used.
#[derive(Debug)]
pub struct PublishStep {
    pub topic: String,
    pub value: Value,
    pub wire_type: WireType,
    pub needs_publisher: bool,
}

/// The local echo of a write handed to the presentation layer: the shape of
/// an incoming update, with timestamp zero.
#[derive(Debug)]
pub struct MessageEcho {
    pub timestamp: u32,
    pub data: Value,
    pub topic_name: String,
    pub wire_type: WireType,
}

/// What installing a new connection asks of its caller: stop the listener of
/// the connection it replaced, then carry out the replay of the cache.
pub struct ConnectPlan<C> {
    pub previous: Option<C>,
    pub flush: Vec<PublishStep>,
}

/// `s` is the send of `value` to `topic` while `pubs` are the registered
/// publishers.
pub open spec fn is_step_for<P>(
    s: PublishStep,
    topic: Seq<char>,
    value: Value,
    pubs: Map<Seq<char>, P>,
) -> bool {
    &&& s.topic@ == topic
    &&& s.value == value
    &&& type_of(value) == Some(s.wire_type)
    &&& s.needs_publisher == !pubs.contains_key(topic)
}

/// The topics and values of a sequence of sends.
pub open spec fn step_pairs(s: Seq<PublishStep>) -> Seq<(Seq<char>, Value)> {
    s.map_values(|p: PublishStep| (p.topic@, p.value))
}

/// The wire type of a value that has one.
fn wire_type_of(value: &Value) -> (r: WireType)
    requires
        is_publishable(*value),
    ensures
        type_of(*value) == Some(r),
{
    match value {
        Value::Double(_) => WireType::Double,
        Value::Str(_) => WireType::String,
        Value::MalformedStr(_) => WireType::String,
        Value::Boolean(_) => WireType::Boolean,
        // excluded by the precondition
        Value::Unsupported => WireType::Double,
    }
}

/// Plans the send of `value` to `topic`: a publisher is asked for only where
/// the topic has none on this connection.
pub fn publish_value<P>(
    topic: &String,
    value: Value,
    nt_type: WireType,
    publishers: &PublishersState<P>,
) -> (r: PublishStep)
    requires
        publishers.wf(),
        type_of(value) == Some(nt_type),
    ensures
        is_step_for(r, topic@, value, publishers@),
{
    let needs = !publishers.has_publisher(topic);
    PublishStep { topic: topic.clone(), value, wire_type: nt_type, needs_publisher: needs }
}

/// Empties the cache and plans one send for each pending write, in the order
/// in which each topic was first written.
pub fn flush_cache<P>(cache: &mut WritingCacheState, publishers: &PublishersState<P>) -> (r: Vec<
    PublishStep,
>)
    requires
        old(cache).wf(),
        publishers.wf(),
    ensures
        final(cache).wf(),
        final(cache)@ == Map::<Seq<char>, Value>::empty(),
        topics_unique(step_pairs(r@)),
        pairs_to_map(step_pairs(r@)) == old(cache)@,
        forall|i: int|
            0 <= i < r@.len() ==> is_step_for(
                #[trigger] r@[i],
                r@[i].topic@,
                r@[i].value,
                publishers@,
            ),
{
    let mut pending = cache.drain();
    let ghost all = pending@;
    let mut steps: Vec<PublishStep> = Vec::new();
    while pending.len() > 0
        invariant
            steps@.len() + pending@.len() == all.len(),
            pending@ == all.subrange(steps@.len() as int, all.len() as int),
            publishers.wf(),
            forall|j: int| 0 <= j < all.len() ==> is_publishable(#[trigger] all[j].1),
            forall|j: int|
                0 <= j < steps@.len() ==> (#[trigger] steps@[j]).topic@ == all[j].0@ && steps@[j].value
                    == all[j].1 && is_step_for(
                    steps@[j],
                    steps@[j].topic@,
                    steps@[j].value,
                    publishers@,
                ),
        decreases pending@.len(),
    {
        let ghost k = steps@.len() as int;
        let (topic, value) = pending.remove(0);
        assert(all[k] == (topic, value));
        let t = wire_type_of(&value);
        let step = publish_value(&topic, value, t, publishers);
        steps.push(step);
        assert(pending@ =~= all.subrange(steps@.len() as int, all.len() as int));
    }
    assert(step_pairs(steps@) =~= pending_pairs(all));
    steps
}

/// The first half of a write: rejects a value without a wire type and builds
/// the echo for the presentation layer. Nothing is stored or sent: the caller
/// delivers the echo, and only then calls `write`.
pub fn write_echo(topic: &String, value: Value) -> (r: Result<MessageEcho, SessionError>)
    ensures
        match r {
            Ok(e) => {
                &&& is_publishable(value)
                &&& e.timestamp == 0
                &&& e.data == value
                &&& e.topic_name@ == topic@
                &&& type_of(value) == Some(e.wire_type)
            },
            Err(e) => !is_publishable(value) && e is UnsupportedValueType,
        },
{
    match value_to_type(&value) {
        Ok(t) => Ok(MessageEcho { timestamp: 0, data: value, topic_name: topic.clone(), wire_type: t }),
        Err(e) => Err(e),
    }
}

/// The second half of a write, once its echo was delivered: rejects a value
/// without a wire type; keeps the value in the cache while no connection is
/// live, and otherwise plans its send, leaving the cache as it was.
pub fn write<C, P>(
    topic: String,
    value: Value,
    connection_state: &ConnectionState<C>,
    publishers: &PublishersState<P>,
    cache: &mut WritingCacheState,
) -> (r: Result<Option<PublishStep>, SessionError>)
    requires
        old(cache).wf(),
        publishers.wf(),
    ensures
        final(cache).wf(),
        match r {
            Ok(o) => {
                &&& is_publishable(value)
                &&& match connection_state@ {
                    None => {
                        &&& o is None
                        &&& final(cache)@ == old(cache)@.insert(topic@, value)
                        &&& final(cache)@ == cache_after_writes(old(cache)@, seq![(topic@, value)])
                    },
                    Some(_) => final(cache)@ == old(cache)@ && match o {
                        Some(s) => is_step_for(s, topic@, value, publishers@),
                        None => false,
                    },
                }
            },
            Err(e) => {
                &&& !is_publishable(value)
                &&& e is UnsupportedValueType
                &&& final(cache)@ == old(cache)@
            },
        },
{
    let nt_type = match value_to_type(&value) {
        Ok(t) => t,
        Err(e) => {
            return Err(e);
        },
    };
    if !connection_state.is_connected() {
        let ghost ws = seq![(topic@, value)];
        cache.store(topic, value);
        proof {
            assert(ws.len() == 1 && ws.last() == ws[0]);
            assert(ws.drop_last() =~= Seq::<(Seq<char>, Value)>::empty());
            assert(cache_after_writes(old(cache)@, ws.drop_last()) == old(cache)@);
        }
        return Ok(None);
    }
    Ok(Some(publish_value(&topic, value, nt_type, publishers)))
}

/// Folds the outcome of one replayed send into the error a connect reports:
/// the replay carries on past a failure, and the first failure is the one
/// reported.
pub fn note_replay(first_error: &mut Option<SessionError>, outcome: Result<(), SessionError>)
    ensures
        match *old(first_error) {
            Some(e) => *final(first_error) == Some(e),
            None => match outcome {
                Ok(_) => *final(first_error) is None,
                Err(e) => *final(first_error) == Some(e),
            },
        },
{
    if first_error.is_none() {
        if let Err(e) = outcome {
            *first_error = Some(e);
        }
    }
}

/// Installs `client` as the one live connection: hands back the one it
/// replaces, forgets every publisher of the old connection, and turns the
/// cache into the sends that replay it, each with a publisher to create.
pub fn start_client<C, P>(
    client: C,
    connection_state: &mut ConnectionState<C>,
    publisher_state: &mut PublishersState<P>,
    cache: &mut WritingCacheState,
) -> (r: ConnectPlan<C>)
    requires
        old(publisher_state).wf(),
        old(cache).wf(),
    ensures
        final(connection_state)@ == Some(client),
        r.previous == old(connection_state)@,
        final(publisher_state).wf(),
        final(publisher_state)@ == Map::<Seq<char>, P>::empty(),
        final(cache).wf(),
        final(cache)@ == Map::<Seq<char>, Value>::empty(),
        topics_unique(step_pairs(r.flush@)),
        pairs_to_map(step_pairs(r.flush@)) == old(cache)@,
        forall|i: int|
            0 <= i < r.flush@.len() ==> (#[trigger] r.flush@[i]).needs_publisher && type_of(
                r.flush@[i].value,
            ) == Some(r.flush@[i].wire_type),
{
    let mut previous: Option<C> = Some(client);
    std::mem::swap(&mut previous, &mut connection_state.current);
    publisher_state.clear();
    let flush = flush_cache(cache, publisher_state);
    ConnectPlan { previous, flush }
}

/// The cache after a sequence of writes made while no connection is live, as
/// the contract of `write` states each one.
pub open spec fn cache_after_writes(m: Map<Seq<char>, Value>, ws: Seq<(Seq<char>, Value)>) -> Map<
    Seq<char>,
    Value,
>
    decreases ws.len(),
{
    if ws.len() == 0 {
        m
    } else {
        let p = cache_after_writes(m, ws.drop_last());
        if is_publishable(ws.last().1) {
            p.insert(ws.last().0, ws.last().1)
        } else {
            p
        }
    }
}

/// The last accepted value written to `t` in a sequence of writes.
pub open spec fn latest_write(ws: Seq<(Seq<char>, Value)>, t: Seq<char>) -> Option<Value>
    decreases ws.len(),
{
    if ws.len() == 0 {
        None
    } else if ws.last().0 == t && is_publishable(ws.last().1) {
        Some(ws.last().1)
    } else {
        latest_write(ws.drop_last(), t)
    }
}

/// Writes compose: the cache after a run of writes followed by one more is
/// the cache after that write applied to the cache the run left.
pub proof fn lemma_writes_extend(m: Map<Seq<char>, Value>, ws: Seq<(Seq<char>, Value)>, w: (
    Seq<char>,
    Value,
))
    ensures
        cache_after_writes(cache_after_writes(m, ws), seq![w]) == cache_after_writes(m, ws.push(w)),
{
    let one = seq![w];
    assert(one.len() == 1 && one.last() == w);
    assert(one.drop_last() =~= Seq::<(Seq<char>, Value)>::empty());
    assert(cache_after_writes(cache_after_writes(m, ws), one.drop_last()) == cache_after_writes(m, ws));
    assert(ws.push(w).drop_last() =~= ws);
    assert(ws.push(w).last() == w);
}

/// Last write wins in the cache: after a run of writes made while no
/// connection is live, each topic written with an accepted value holds the
/// latest such value, and every other topic keeps what it had.
pub proof fn lemma_writes_last_wins(m: Map<Seq<char>, Value>, ws: Seq<(Seq<char>, Value)>, t: Seq<char>)
    ensures
        latest_write(ws, t) is Some ==> cache_after_writes(m, ws).contains_key(t)
            && cache_after_writes(m, ws)[t] == latest_write(ws, t).unwrap(),
        latest_write(ws, t) is None ==> (cache_after_writes(m, ws).contains_key(t) == m.contains_key(t))
            && (m.contains_key(t) ==> cache_after_writes(m, ws)[t] == m[t]),
    decreases ws.len(),
{
    if ws.len() > 0 {
        lemma_writes_last_wins(m, ws.drop_last(), t);
    }
}

/// Last write wins: after writes made while disconnected into an empty cache,
/// the replay planned by the next connect holds, for each topic written with
/// an accepted value, exactly one send, of the latest such value, and no send
/// for any other topic.
pub proof fn lemma_flush_sends_latest(ws: Seq<(Seq<char>, Value)>, flush: Seq<PublishStep>)
    requires
        topics_unique(step_pairs(flush)),
        pairs_to_map(step_pairs(flush)) == cache_after_writes(Map::empty(), ws),
    ensures
        forall|t: Seq<char>|
            #![trigger latest_write(ws, t)]
            latest_write(ws, t) is None ==> forall|i: int| 0 <= i < flush.len() ==> (#[trigger] flush[i]).topic@ != t,
        forall|t: Seq<char>|
            #![trigger latest_write(ws, t)]
            latest_write(ws, t) is Some ==> exists|i: int|
                0 <= i < flush.len() && (#[trigger] flush[i]).topic@ == t && flush[i].value == latest_write(ws, t).unwrap(),
        forall|i: int, j: int|
            0 <= i < flush.len() && 0 <= j < flush.len() && (#[trigger] flush[i]).topic@ == (#[trigger] flush[j]).topic@
                ==> i == j,
{
    let sp = step_pairs(flush);
    assert forall|t: Seq<char>| #![trigger latest_write(ws, t)] latest_write(ws, t) is None implies forall|i: int|
        0 <= i < flush.len() ==> (#[trigger] flush[i]).topic@ != t by {
        lemma_writes_last_wins(Map::empty(), ws, t);
        lemma_map_domain(sp, t);
        assert forall|i: int| 0 <= i < flush.len() implies (#[trigger] flush[i]).topic@ != t by {
            assert(sp[i].0 == flush[i].topic@);
        }
    }
    assert forall|t: Seq<char>| #![trigger latest_write(ws, t)] latest_write(ws, t) is Some implies exists|i: int|
        0 <= i < flush.len() && (#[trigger] flush[i]).topic@ == t && flush[i].value == latest_write(ws, t).unwrap() by {
        lemma_writes_last_wins(Map::empty(), ws, t);
        lemma_map_domain(sp, t);
        let i = choose|i: int| 0 <= i < sp.len() && (#[trigger] sp[i]).0 == t;
        lemma_map_lookup(sp, i);
        assert(sp[i] == (flush[i].topic@, flush[i].value));
    }
    assert forall|i: int, j: int|
        0 <= i < flush.len() && 0 <= j < flush.len() && (#[trigger] flush[i]).topic@ == (#[trigger] flush[j]).topic@
        implies i == j by {
        assert(sp[i].0 == flush[i].topic@ && sp[j].0 == flush[j].topic@);
        if i < j {
            assert(sp[i].0 != sp[j].0);
        } else if j < i {
            assert(sp[j].0 != sp[i].0);
        }
    }
}

} // verus!
