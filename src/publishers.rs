use vstd::prelude::*;

use crate::topic_table::TopicTable;

verus! {

/// The publication handles obtained on the current connection, at most one
/// per topic. Handles are only valid on the connection that issued them.
pub struct PublishersState<P> {
    handles: TopicTable<P>,
}

impl<P> View for PublishersState<P> {
    type V = Map<Seq<char>, P>;

    closed spec fn view(&self) -> Map<Seq<char>, P> {
        self.handles.view()
    }
}

impl<P> PublishersState<P> {
    pub closed spec fn wf(&self) -> bool {
        self.handles.wf()
    }

    /// An empty registry.
    pub fn new() -> (r: Self)
        ensures
            r.wf(),
            r@ == Map::<Seq<char>, P>::empty(),
    {
        PublishersState { handles: TopicTable::new() }
    }

    /// Whether `topic` already has a publisher on this connection.
    pub fn has_publisher(&self, topic: &String) -> (r: bool)
        requires
            self.wf(),
        ensures
            r == self@.contains_key(topic@),
    {
        self.handles.contains(topic)
    }

    /// The publisher of `topic`, if one was registered.
    pub fn get(&self, topic: &String) -> (r: Option<&P>)
        requires
            self.wf(),
        ensures
            match r {
                Some(h) => self@.contains_key(topic@) && *h == self@[topic@],
                None => !self@.contains_key(topic@),
            },
    {
        self.handles.get(topic)
    }

    /// Keeps a freshly created publisher of `topic`. A topic keeps the first
    /// publisher registered for it: a second one is handed back unused.
    pub fn register(&mut self, topic: String, handle: P) -> (r: Option<P>)
        requires
            old(self).wf(),
        ensures
            final(self).wf(),
            old(self)@.contains_key(topic@) ==> final(self)@ == old(self)@ && r == Some(handle),
            !old(self)@.contains_key(topic@) ==> final(self)@ == old(self)@.insert(topic@, handle)
                && r is None,
    {
        if self.handles.contains(&topic) {
            Some(handle)
        } else {
            self.handles.insert(topic, handle);
            None
        }
    }

    /// Forgets every publisher: they belonged to a connection that is gone.
    pub fn clear(&mut self)
        requires
            old(self).wf(),
        ensures
            final(self).wf(),
            final(self)@ == Map::<Seq<char>, P>::empty(),
    {
        let _ = self.handles.take_all();
    }
}

impl<P> Default for PublishersState<P> {
    fn default() -> (r: Self)
        ensures
            r.wf(),
            r@ == Map::<Seq<char>, P>::empty(),
    {
        PublishersState::new()
    }
}

} // verus!
