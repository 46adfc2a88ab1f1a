use vstd::prelude::*;

verus! {

/// The identity of one node: the owning graph's identity paired with the
/// node's creation sequence number.
///
/// The pair is used verbatim as the task's scheduling label. Sequence numbers
/// are assigned in creation order starting at zero and are unique within one
/// graph.
#[derive(Clone, Copy, Debug, PartialEq, Eq, Hash, Structural)]
pub struct NodeId {
    /// Identity of the graph the node was created in.
    pub graph: u32,
    /// Position of the node in its graph's creation order.
    pub sequence: u32,
}

/// A source of graph identities: a monotonically increasing counter, owned by
/// whoever constructs graphs and passed to each construction.
///
/// Two graphs drawn from one source always carry distinct identities, which is
/// what lets cross-graph operations be detected and rejected.
pub struct GraphIdSource {
    next_id: u32,
}

impl GraphIdSource {
    /// How many identities this source has handed out so far; also the next
    /// identity it will hand out.
    pub closed spec fn issued(self) -> u32 {
        self.next_id
    }

    /// Creates a source that numbers graphs from zero.
    pub fn new() -> (source: Self)
        ensures
            source.issued() == 0,
    {
        GraphIdSource { next_id: 0 }
    }

    /// Hands out the next unused graph identity.
    pub fn allocate(&mut self) -> (id: u32)
        requires
            old(self).issued() < u32::MAX,
        ensures
            id == old(self).issued(),
            final(self).issued() == old(self).issued() + 1,
    {
        let id = self.next_id;
        self.next_id = self.next_id + 1;
        id
    }
}

} // verus!
