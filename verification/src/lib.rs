//! A declarative builder for strictly ordered execution dependency graphs.
//!
//! Callers assemble a directed acyclic graph of opaque tasks, expressing
//! sequencing ([`SystemGraphNode::and_then`]), fan-out ([`SystemGraphNode::fork`])
//! and fan-in ([`SystemJoin::join`]), and the builder emits a flat, unordered
//! batch of tasks, each annotated with a unique label and with the set of
//! labels it must run after ([`SystemGraph::export`]). An external scheduler
//! consumes that batch; the builder itself never executes anything and never
//! inspects a task.
//!
//! Every graph-mutating operation states exactly what it adds to the graph's
//! table and on which inputs it reports which misuse error, and the export
//! states that its labels are pairwise distinct and that no predecessor label
//! dangles.

pub mod errors;
pub mod graph;
pub mod group;
pub mod ids;

pub use errors::GraphError;
pub use graph::{SystemGraph, SystemGraphNode, TaggedTask};
pub use group::{SystemGroup, SystemJoin};
pub use ids::{GraphIdSource, NodeId};
