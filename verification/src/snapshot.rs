//! The index over one version of a schema.

use std::collections::HashMap;
use vstd::prelude::*;
use crate::schema::{Node, NodeView};

verus! {

broadcast use vstd::std_specs::hash::group_hash_axioms;

/// The declarations of one schema version, each filed under its global
/// identifier, and the identifiers of the declarations that a comparison
/// starts from.
#[derive(Clone, Debug)]
pub struct Snapshot {
    nodes: HashMap<u64, Node>,
    requested: Vec<u64>,
}

impl View for Snapshot {
    type V = Map<u64, NodeView>;

    /// The declarations by identifier.
    closed spec fn view(&self) -> Map<u64, NodeView> {
        self.nodes@.map_values(|node: Node| node@)
    }
}

impl Snapshot {
    /// The identifiers that a comparison starts from, in the order in which
    /// they were requested.
    pub closed spec fn requested_ids(&self) -> Seq<u64> {
        self.requested@
    }

    /// A snapshot without declarations.
    pub fn new() -> (snapshot: Snapshot)
        ensures
            snapshot@ == Map::<u64, NodeView>::empty(),
            snapshot.requested_ids() == Seq::<u64>::empty(),
    {
        let snapshot = Snapshot { nodes: HashMap::new(), requested: Vec::new() };
        assert(snapshot@ =~= Map::<u64, NodeView>::empty());
        snapshot
    }

    /// Files `node` under its identifier. A declaration that was filed there
    /// before is replaced.
    pub fn insert(&mut self, node: Node)
        ensures
            final(self)@ == old(self)@.insert(node.id, node@),
            final(self).requested_ids() == old(self).requested_ids(),
    {
        let ghost before = self.nodes@;
        let ghost filed = node;
        self.nodes.insert(node.id, node);
        assert(self.nodes@ == before.insert(filed.id, filed));
        assert(self@ =~= old(self)@.insert(filed.id, filed@));
    }

    /// Adds `id` to the identifiers that a comparison starts from.
    pub fn request(&mut self, id: u64)
        ensures
            final(self)@ == old(self)@,
            final(self).requested_ids() == old(self).requested_ids().push(id),
    {
        self.requested.push(id);
    }

    /// The declaration filed under `id`, if there is one.
    pub fn get(&self, id: u64) -> (found: Option<&Node>)
        ensures
            match found {
                Some(node) => self@.contains_key(id) && self@[id] == node@,
                None => !self@.contains_key(id),
            },
    {
        self.nodes.get(&id)
    }

    /// Tells whether a declaration is filed under `id`.
    pub fn contains(&self, id: u64) -> (found: bool)
        ensures
            found == self@.contains_key(id),
    {
        self.nodes.contains_key(&id)
    }

    /// The number of declarations.
    pub fn len(&self) -> (count: usize)
        ensures
            count == self@.len(),
    {
        assert(self@.dom() =~= self.nodes@.dom());
        self.nodes.len()
    }

    /// The identifiers that a comparison starts from.
    pub fn requested(&self) -> (ids: &Vec<u64>)
        ensures
            ids@ == self.requested_ids(),
    {
        &self.requested
    }
}

} // verus!
