use vstd::prelude::*;

verus! {

/// The ways a graph-building call can be misused.
///
/// Every variant reports a defect in how the caller assembled the graph,
/// never a transient runtime fault; none of them is meant to be retried.
#[derive(Clone, Copy, Debug, PartialEq, Eq, Structural)]
pub enum GraphError {
    /// A node-creating call would push a graph's sequence counter past the
    /// maximum representable sequence value.
    CapacityExceeded,
    /// A dependency endpoint is not present in the graph's table. Defensive:
    /// unreachable as long as every handle passed to a graph was issued by
    /// that same graph.
    MissingDependent,
    /// `join` was called on a group of zero nodes.
    EmptyJoin,
    /// A multi-node call mixed nodes from more than one graph.
    CrossGraph,
}

} // verus!
