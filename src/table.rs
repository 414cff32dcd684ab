//! The flow table of a session: which inbox each live flow id is served by.
use vstd::prelude::*;
use std::collections::HashMap;

verus! {

broadcast use vstd::std_specs::hash::group_hash_axioms;

/// A map from flow id to the inbox (the sending end of a flow's queue) of
/// the handler that serves it. `S` is whatever the program uses as an inbox.
pub struct FlowTable<S> {
    map: HashMap<u32, S>,
}

impl<S> View for FlowTable<S> {
    type V = Map<u32, S>;

    closed spec fn view(&self) -> Map<u32, S> {
        self.map@
    }
}

impl<S> FlowTable<S> {
    /// An empty table.
    pub fn new() -> (r: FlowTable<S>)
        ensures
            r@ == Map::<u32, S>::empty(),
    {
        FlowTable { map: HashMap::new() }
    }

    /// How many flows the table holds.
    pub fn len(&self) -> (r: usize)
        ensures
            r == self@.len(),
    {
        self.map.len()
    }

    /// Whether `id` has an entry.
    pub fn contains(&self, id: u32) -> (r: bool)
        ensures
            r == self@.contains_key(id),
    {
        self.map.contains_key(&id)
    }

    /// The inbox of flow `id`.
    pub fn inbox(&self, id: u32) -> (r: Option<&S>)
        ensures
            r matches Some(s) ==> self@.contains_key(id) && *s == self@[id],
            r is None ==> !self@.contains_key(id),
    {
        self.map.get(&id)
    }

    /// Enters `inbox` under `id`, handing back the inbox it replaces.
    pub fn insert(&mut self, id: u32, inbox: S) -> (r: Option<S>)
        ensures
            final(self)@ == old(self)@.insert(id, inbox),
            r matches Some(s) ==> old(self)@.contains_key(id) && s == old(self)@[id],
            r is None ==> !old(self)@.contains_key(id),
    {
        self.map.insert(id, inbox)
    }

    /// Takes the entry of `id` out, handing its inbox back.
    pub fn remove(&mut self, id: u32) -> (r: Option<S>)
        ensures
            final(self)@ == old(self)@.remove(id),
            r matches Some(s) ==> old(self)@.contains_key(id) && s == old(self)@[id],
            r is None ==> !old(self)@.contains_key(id),
    {
        self.map.remove(&id)
    }

    /// Drops every entry.
    pub fn clear(&mut self)
        ensures
            final(self)@ == Map::<u32, S>::empty(),
    {
        self.map.clear();
    }
}

} // verus!
