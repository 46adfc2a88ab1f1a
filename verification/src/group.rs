use vstd::prelude::*;

use crate::errors::GraphError;
use crate::graph::{
    created_node, created_nodes, fork_err, id_set, join_all_err, join_err, SystemGraph,
    SystemGraphNode,
};
use crate::ids::NodeId;

verus! {

/// A collection of task descriptors, polymorphic over its shape, with two
/// capabilities: fan-out from one source node into the group, and fan-in
/// from a group of nodes, one new node per task either way.
pub trait SystemGroup<T>: Sized {
    /// The task descriptors this group supplies, in order.
    spec fn group_tasks(&self) -> Seq<T>;

    /// Creates one node per task in this group, each dependent solely on
    /// `src`; the new nodes carry no dependency on each other. Either every
    /// task gets its node or, on a misuse, none does.
    fn fork_from(self, src: &SystemGraphNode, graph: &mut SystemGraph<T>) -> (r: Result<
        Vec<SystemGraphNode>,
        GraphError,
    >)
        requires
            old(graph).wf(),
        ensures
            final(graph).wf(),
            match r {
                Err(e) => Some(e) == fork_err(*old(graph), src.id, self.group_tasks().len())
                    && *final(graph) == *old(graph),
                Ok(nodes) => {
                    &&& fork_err(*old(graph), src.id, self.group_tasks().len()) is None
                    &&& created_nodes(
                        *old(graph),
                        *final(graph),
                        nodes@.map_values(|n: SystemGraphNode| n.id),
                        set![src.id],
                        self.group_tasks(),
                    )
                },
            },
    ;

    /// Creates one node per task in this group, each dependent on every
    /// node of the join group `src`. Either every task gets its node or, on
    /// a misuse, none does.
    fn join_from<J: SystemJoin>(self, src: &J, graph: &mut SystemGraph<T>) -> (r: Result<
        Vec<SystemGraphNode>,
        GraphError,
    >)
        requires
            old(graph).wf(),
        ensures
            final(graph).wf(),
            match r {
                Err(e) => Some(e) == join_all_err(
                    *old(graph),
                    src.member_ids(),
                    self.group_tasks().len(),
                ) && *final(graph) == *old(graph),
                Ok(nodes) => {
                    &&& join_all_err(
                        *old(graph),
                        src.member_ids(),
                        self.group_tasks().len(),
                    ) is None
                    &&& created_nodes(
                        *old(graph),
                        *final(graph),
                        nodes@.map_values(|n: SystemGraphNode| n.id),
                        id_set(src.member_ids()),
                        self.group_tasks(),
                    )
                },
            },
    ;
}

/// A group of graph nodes that further nodes can be joined from.
pub trait SystemJoin: Sized {
    /// The labels of the nodes this group holds, in order.
    spec fn member_ids(&self) -> Seq<NodeId>;

    /// The labels of the nodes this group holds, as a vector.
    fn member_vec(&self) -> (ids: Vec<NodeId>)
        ensures
            ids@ == self.member_ids(),
    ;

    /// Creates one node for `next` that depends on every node in this
    /// group: its predecessor set is exactly the set of this group's
    /// labels. The group must be non-empty and must lie in one graph.
    fn join<T>(&self, graph: &mut SystemGraph<T>, next: T) -> (r: Result<
        SystemGraphNode,
        GraphError,
    >)
        requires
            old(graph).wf(),
        ensures
            final(graph).wf(),
            match r {
                Err(e) => Some(e) == join_err(*old(graph), self.member_ids()) && *final(graph)
                    == *old(graph),
                Ok(node) => {
                    &&& join_err(*old(graph), self.member_ids()) is None
                    &&& created_node(
                        *old(graph),
                        *final(graph),
                        node.id,
                        id_set(self.member_ids()),
                        next,
                    )
                },
            },
    ;

    /// Joins every task of `group` against this same group of nodes: one
    /// new node per task, each independently dependent on the full group.
    fn join_all<T>(&self, group: Vec<T>, graph: &mut SystemGraph<T>) -> (r: Result<
        Vec<SystemGraphNode>,
        GraphError,
    >)
        requires
            old(graph).wf(),
        ensures
            final(graph).wf(),
            match r {
                Err(e) => Some(e) == join_all_err(*old(graph), self.member_ids(), group@.len())
                    && *final(graph) == *old(graph),
                Ok(nodes) => {
                    &&& join_all_err(*old(graph), self.member_ids(), group@.len()) is None
                    &&& created_nodes(
                        *old(graph),
                        *final(graph),
                        nodes@.map_values(|n: SystemGraphNode| n.id),
                        id_set(self.member_ids()),
                        group@,
                    )
                },
            },
    ;
}

impl<T> SystemGroup<T> for Vec<T> {
    open spec fn group_tasks(&self) -> Seq<T> {
        self@
    }

    fn fork_from(self, src: &SystemGraphNode, graph: &mut SystemGraph<T>) -> (r: Result<
        Vec<SystemGraphNode>,
        GraphError,
    >) {
        graph.fork_tasks(src.id, self)
    }

    fn join_from<J: SystemJoin>(self, src: &J, graph: &mut SystemGraph<T>) -> (r: Result<
        Vec<SystemGraphNode>,
        GraphError,
    >) {
        let members = src.member_vec();
        graph.join_tasks(&members, self)
    }
}

impl SystemJoin for Vec<SystemGraphNode> {
    open spec fn member_ids(&self) -> Seq<NodeId> {
        self@.map_values(|n: SystemGraphNode| n.id)
    }

    fn member_vec(&self) -> (ids: Vec<NodeId>) {
        let mut ids: Vec<NodeId> = Vec::new();
        let mut i: usize = 0;
        while i < self.len()
            invariant
                i <= self@.len(),
                ids@.len() == i,
                forall|j: int| 0 <= j < i ==> ids@[j] == self@[j].id,
            decreases self@.len() - i,
        {
            ids.push(self[i].id);
            i = i + 1;
        }
        proof {
            assert(ids@ =~= self.member_ids());
        }
        ids
    }

    fn join<T>(&self, graph: &mut SystemGraph<T>, next: T) -> (r: Result<
        SystemGraphNode,
        GraphError,
    >) {
        let members = self.member_vec();
        graph.join_members(&members, next)
    }

    fn join_all<T>(&self, group: Vec<T>, graph: &mut SystemGraph<T>) -> (r: Result<
        Vec<SystemGraphNode>,
        GraphError,
    >) {
        let members = self.member_vec();
        graph.join_tasks(&members, group)
    }
}

impl SystemJoin for (SystemGraphNode, SystemGraphNode) {
    open spec fn member_ids(&self) -> Seq<NodeId> {
        seq![self.0.id, self.1.id]
    }

    fn member_vec(&self) -> (ids: Vec<NodeId>) {
        let mut ids: Vec<NodeId> = Vec::new();
        ids.push(self.0.id);
        ids.push(self.1.id);
        proof {
            assert(ids@ =~= self.member_ids());
        }
        ids
    }

    fn join<T>(&self, graph: &mut SystemGraph<T>, next: T) -> (r: Result<
        SystemGraphNode,
        GraphError,
    >) {
        let members = self.member_vec();
        graph.join_members(&members, next)
    }

    fn join_all<T>(&self, group: Vec<T>, graph: &mut SystemGraph<T>) -> (r: Result<
        Vec<SystemGraphNode>,
        GraphError,
    >) {
        let members = self.member_vec();
        graph.join_tasks(&members, group)
    }
}

impl SystemJoin for (SystemGraphNode, SystemGraphNode, SystemGraphNode) {
    open spec fn member_ids(&self) -> Seq<NodeId> {
        seq![self.0.id, self.1.id, self.2.id]
    }

    fn member_vec(&self) -> (ids: Vec<NodeId>) {
        let mut ids: Vec<NodeId> = Vec::new();
        ids.push(self.0.id);
        ids.push(self.1.id);
        ids.push(self.2.id);
        proof {
            assert(ids@ =~= self.member_ids());
        }
        ids
    }

    fn join<T>(&self, graph: &mut SystemGraph<T>, next: T) -> (r: Result<
        SystemGraphNode,
        GraphError,
    >) {
        let members = self.member_vec();
        graph.join_members(&members, next)
    }

    fn join_all<T>(&self, group: Vec<T>, graph: &mut SystemGraph<T>) -> (r: Result<
        Vec<SystemGraphNode>,
        GraphError,
    >) {
        let members = self.member_vec();
        graph.join_tasks(&members, group)
    }
}

impl SystemJoin for (SystemGraphNode, SystemGraphNode, SystemGraphNode, SystemGraphNode) {
    open spec fn member_ids(&self) -> Seq<NodeId> {
        seq![self.0.id, self.1.id, self.2.id, self.3.id]
    }

    fn member_vec(&self) -> (ids: Vec<NodeId>) {
        let mut ids: Vec<NodeId> = Vec::new();
        ids.push(self.0.id);
        ids.push(self.1.id);
        ids.push(self.2.id);
        ids.push(self.3.id);
        proof {
            assert(ids@ =~= self.member_ids());
        }
        ids
    }

    fn join<T>(&self, graph: &mut SystemGraph<T>, next: T) -> (r: Result<
        SystemGraphNode,
        GraphError,
    >) {
        let members = self.member_vec();
        graph.join_members(&members, next)
    }

    fn join_all<T>(&self, group: Vec<T>, graph: &mut SystemGraph<T>) -> (r: Result<
        Vec<SystemGraphNode>,
        GraphError,
    >) {
        let members = self.member_vec();
        graph.join_tasks(&members, group)
    }
}

impl SystemGraphNode {
    /// Fans out from this node into one new node per task of `group`; none
    /// of the new nodes will run before this node's task has finished, and
    /// they carry no dependency on each other.
    pub fn fork<T, G: SystemGroup<T>>(&self, group: G, graph: &mut SystemGraph<T>) -> (r: Result<
        Vec<SystemGraphNode>,
        GraphError,
    >)
        requires
            old(graph).wf(),
        ensures
            final(graph).wf(),
            match r {
                Err(e) => Some(e) == fork_err(*old(graph), self.id, group.group_tasks().len())
                    && *final(graph) == *old(graph),
                Ok(nodes) => {
                    &&& fork_err(*old(graph), self.id, group.group_tasks().len()) is None
                    &&& created_nodes(
                        *old(graph),
                        *final(graph),
                        nodes@.map_values(|n: SystemGraphNode| n.id),
                        set![self.id],
                        group.group_tasks(),
                    )
                },
            },
    {
        group.fork_from(self, graph)
    }

    /// Fans out from this node into exactly two nodes, handed back in the
    /// shape they were given.
    pub fn fork2<T>(&self, graph: &mut SystemGraph<T>, first: T, second: T) -> (r: Result<
        (SystemGraphNode, SystemGraphNode),
        GraphError,
    >)
        requires
            old(graph).wf(),
        ensures
            final(graph).wf(),
            match r {
                Err(e) => Some(e) == fork_err(*old(graph), self.id, 2) && *final(graph) == *old(
                    graph,
                ),
                Ok(pair) => {
                    &&& fork_err(*old(graph), self.id, 2) is None
                    &&& created_nodes(
                        *old(graph),
                        *final(graph),
                        seq![pair.0.id, pair.1.id],
                        set![self.id],
                        seq![first, second],
                    )
                },
            },
    {
        let mut tasks: Vec<T> = Vec::new();
        tasks.push(first);
        tasks.push(second);
        proof {
            assert(tasks@ =~= seq![first, second]);
        }
        let nodes = match self.fork(tasks, graph) {
            Ok(nodes) => nodes,
            Err(e) => {
                return Err(e);
            },
        };
        let pair = (nodes[0], nodes[1]);
        proof {
            assert(seq![pair.0.id, pair.1.id] =~= nodes@.map_values(|n: SystemGraphNode| n.id));
        }
        Ok(pair)
    }

    /// Fans out from this node into exactly three nodes, handed back in the
    /// shape they were given.
    pub fn fork3<T>(&self, graph: &mut SystemGraph<T>, first: T, second: T, third: T) -> (r:
        Result<(SystemGraphNode, SystemGraphNode, SystemGraphNode), GraphError>)
        requires
            old(graph).wf(),
        ensures
            final(graph).wf(),
            match r {
                Err(e) => Some(e) == fork_err(*old(graph), self.id, 3) && *final(graph) == *old(
                    graph,
                ),
                Ok(triple) => {
                    &&& fork_err(*old(graph), self.id, 3) is None
                    &&& created_nodes(
                        *old(graph),
                        *final(graph),
                        seq![triple.0.id, triple.1.id, triple.2.id],
                        set![self.id],
                        seq![first, second, third],
                    )
                },
            },
    {
        let mut tasks: Vec<T> = Vec::new();
        tasks.push(first);
        tasks.push(second);
        tasks.push(third);
        proof {
            assert(tasks@ =~= seq![first, second, third]);
        }
        let nodes = match self.fork(tasks, graph) {
            Ok(nodes) => nodes,
            Err(e) => {
                return Err(e);
            },
        };
        let triple = (nodes[0], nodes[1], nodes[2]);
        proof {
            assert(seq![triple.0.id, triple.1.id, triple.2.id] =~= nodes@.map_values(
                |n: SystemGraphNode| n.id,
            ));
        }
        Ok(triple)
    }

    /// Fans out from this node into exactly four nodes, handed back in the
    /// shape they were given.
    pub fn fork4<T>(&self, graph: &mut SystemGraph<T>, first: T, second: T, third: T, fourth: T)
        -> (r: Result<
        (SystemGraphNode, SystemGraphNode, SystemGraphNode, SystemGraphNode),
        GraphError,
    >)
        requires
            old(graph).wf(),
        ensures
            final(graph).wf(),
            match r {
                Err(e) => Some(e) == fork_err(*old(graph), self.id, 4) && *final(graph) == *old(
                    graph,
                ),
                Ok(quad) => {
                    &&& fork_err(*old(graph), self.id, 4) is None
                    &&& created_nodes(
                        *old(graph),
                        *final(graph),
                        seq![quad.0.id, quad.1.id, quad.2.id, quad.3.id],
                        set![self.id],
                        seq![first, second, third, fourth],
                    )
                },
            },
    {
        let mut tasks: Vec<T> = Vec::new();
        tasks.push(first);
        tasks.push(second);
        tasks.push(third);
        tasks.push(fourth);
        proof {
            assert(tasks@ =~= seq![first, second, third, fourth]);
        }
        let nodes = match self.fork(tasks, graph) {
            Ok(nodes) => nodes,
            Err(e) => {
                return Err(e);
            },
        };
        let quad = (nodes[0], nodes[1], nodes[2], nodes[3]);
        proof {
            assert(seq![quad.0.id, quad.1.id, quad.2.id, quad.3.id] =~= nodes@.map_values(
                |n: SystemGraphNode| n.id,
            ));
        }
        Ok(quad)
    }
}

} // verus!
