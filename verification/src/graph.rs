use vstd::prelude::*;

use crate::errors::GraphError;
use crate::ids::{GraphIdSource, NodeId};

verus! {

/// A task descriptor together with the annotations the builder attaches to
/// it: the node's own label and the labels of the nodes it must run after.
pub struct TaggedTask<T> {
    /// The label the external scheduler uses to identify the task.
    pub label: NodeId,
    /// Labels of the tasks that must finish before this one may start.
    /// Holds no duplicates; the order of the entries carries no meaning.
    pub predecessors: Vec<NodeId>,
    /// The caller-supplied task descriptor, never inspected by the builder.
    pub task: T,
}

/// The set of labels that a sequence of labels names.
pub open spec fn id_set(ids: Seq<NodeId>) -> Set<NodeId> {
    Set::new(|id: NodeId| ids.contains(id))
}

impl<T> TaggedTask<T> {
    /// The predecessor labels of the entry, as a set.
    pub open spec fn pred_ids(self) -> Set<NodeId> {
        id_set(self.predecessors@)
    }
}

/// A lightweight handle to one node of a [`SystemGraph`]: it carries only the
/// node's identity. Handles are freely copyable; many handles may refer to
/// one logical node, and dropping a handle never changes the graph.
#[derive(Clone, Copy, Debug, PartialEq, Eq, Structural)]
pub struct SystemGraphNode {
    /// The identity of the node this handle refers to.
    pub id: NodeId,
}

/// A builder for one directed acyclic graph of dependent tasks.
///
/// The graph owns a table of [`TaggedTask`] entries, one per created node, in
/// creation order, and the per-graph sequence counter. It is created empty,
/// grows by one entry per node-creating call, re-annotates entries as
/// dependency edges are added, and is consumed exactly once by
/// [`SystemGraph::export`], after which its table stays permanently empty.
pub struct SystemGraph<T> {
    id: u32,
    next_sequence: u32,
    drained: bool,
    nodes: Vec<TaggedTask<T>>,
}

impl<T> SystemGraph<T> {
    /// The identity of this graph.
    pub closed spec fn graph_id(self) -> u32 {
        self.id
    }

    /// How many nodes were ever created in this graph, drained or not; also
    /// the sequence number the next created node will receive.
    pub closed spec fn created_count(self) -> u32 {
        self.next_sequence
    }

    /// Whether this graph has been drained by an export.
    pub closed spec fn is_drained(self) -> bool {
        self.drained
    }

    /// The table of annotated tasks, in creation order.
    pub closed spec fn entries(self) -> Seq<TaggedTask<T>> {
        self.nodes@
    }

    /// Whether `id` labels a node that is present in the table.
    pub open spec fn has_node(self, id: NodeId) -> bool {
        exists|i: int| 0 <= i < self.entries().len() && (#[trigger] self.entries()[i]).label == id
    }

    /// Whether the graph cannot allocate another sequence number.
    pub open spec fn at_capacity(self) -> bool {
        self.created_count() == u32::MAX
    }

    /// Well-formedness of one entry's predecessor list: every predecessor
    /// names a node of this graph that is present in the table, and the list
    /// holds no duplicates.
    spec fn preds_wf(self, preds: Seq<NodeId>) -> bool {
        &&& forall|j: int| 0 <= j < preds.len() ==> (#[trigger] preds[j]).graph == self.id
        &&& forall|j: int| 0 <= j < preds.len() ==> (#[trigger] preds[j]).sequence < self.nodes@.len()
        &&& forall|j: int, k: int| 0 <= j < k < preds.len() ==> preds[j] != preds[k]
    }

    /// Well-formedness of the whole graph: the table is empty once the graph
    /// is drained and otherwise holds one entry per created node; entry `i`
    /// carries the label `(graph_id, i)`; and every predecessor list is
    /// well formed.
    pub closed spec fn wf(self) -> bool {
        &&& self.drained ==> self.nodes@.len() == 0
        &&& !self.drained ==> self.nodes@.len() == self.next_sequence
        &&& forall|i: int|
            0 <= i < self.nodes@.len() ==> (#[trigger] self.nodes@[i]).label == (NodeId {
                graph: self.id,
                sequence: i as u32,
            })
        &&& forall|i: int|
            0 <= i < self.nodes@.len() ==> self.preds_wf((#[trigger] self.nodes@[i]).predecessors@)
    }

    /// A node present in a well-formed graph sits in the table at the index
    /// given by its sequence number, and vice versa.
    proof fn lemma_has_node_iff_index(self, id: NodeId)
        requires
            self.wf(),
        ensures
            self.has_node(id) <==> (id.graph == self.graph_id() && (id.sequence as int)
                < self.entries().len()),
    {
        if self.has_node(id) {
            let i = choose|i: int|
                0 <= i < self.entries().len() && (#[trigger] self.entries()[i]).label == id;
            assert(self.entries()[i].label == NodeId { graph: self.id, sequence: i as u32 });
        }
        if id.graph == self.graph_id() && (id.sequence as int) < self.entries().len() {
            assert(self.entries()[id.sequence as int].label == id);
        }
    }

    /// Creates a new, empty graph whose identity is drawn from `source`.
    pub fn new(source: &mut GraphIdSource) -> (graph: Self)
        requires
            old(source).issued() < u32::MAX,
        ensures
            final(source).issued() == old(source).issued() + 1,
            graph.wf(),
            graph.graph_id() == old(source).issued(),
            graph.created_count() == 0,
            !graph.is_drained(),
            graph.entries() == Seq::<TaggedTask<T>>::empty(),
    {
        let id = source.allocate();
        let graph = SystemGraph { id, next_sequence: 0, drained: false, nodes: Vec::new() };
        proof {
            assert(graph.entries() =~= Seq::<TaggedTask<T>>::empty());
        }
        graph
    }

    /// Checks whether two graph values carry the same graph identity, that
    /// is, whether they stand for the same logical graph.
    pub fn is_same_graph(&self, other: &SystemGraph<T>) -> (same: bool)
        ensures
            same == (self.graph_id() == other.graph_id()),
    {
        self.id == other.id
    }

    /// Assigns the next sequence number, tags `task` with the resulting
    /// label, and inserts the entry into the table. On a drained graph the
    /// sequence number is still assigned and a handle returned, but the
    /// table stays empty.
    pub(crate) fn create_node(&mut self, task: T) -> (r: Result<SystemGraphNode, GraphError>)
        requires
            old(self).wf(),
        ensures
            final(self).wf(),
            match r {
                Err(e) => Some(e) == create_err(*old(self)) && *final(self) == *old(self),
                Ok(node) => {
                    &&& create_err(*old(self)) is None
                    &&& created_node(*old(self), *final(self), node.id, Set::empty(), task)
                },
            },
    {
        if self.next_sequence == u32::MAX {
            return Err(GraphError::CapacityExceeded);
        }
        let label = NodeId { graph: self.id, sequence: self.next_sequence };
        self.next_sequence = self.next_sequence + 1;
        if !self.drained {
            let ghost pre_nodes = self.nodes@;
            self.nodes.push(TaggedTask { label, predecessors: Vec::new(), task });
            proof {
                assert(self.nodes@.subrange(0, pre_nodes.len() as int) =~= pre_nodes);
                assert(self.nodes@.last().pred_ids() =~= Set::<NodeId>::empty());
            }
        }
        Ok(SystemGraphNode { id: label })
    }

    /// Re-annotates the entry of `dependent` with the added predecessor
    /// label `origin`. Present endpoints are required defensively; adding a
    /// predecessor that is already recorded changes nothing. On a drained
    /// graph the call is absorbed without effect.
    pub(crate) fn add_dependency(&mut self, origin: NodeId, dependent: NodeId) -> (r: Result<
        (),
        GraphError,
    >)
        requires
            old(self).wf(),
        ensures
            final(self).wf(),
            add_dependency_effect(*old(self), origin, dependent, *final(self), r),
    {
        proof {
            old(self).lemma_has_node_iff_index(origin);
            old(self).lemma_has_node_iff_index(dependent);
        }
        if self.drained {
            return Ok(());
        }
        if dependent.graph != self.id || dependent.sequence as usize >= self.nodes.len() {
            return Err(GraphError::MissingDependent);
        }
        if origin.graph != self.id || origin.sequence as usize >= self.nodes.len() {
            return Err(GraphError::MissingDependent);
        }
        let ix = dependent.sequence as usize;
        let ghost pre_nodes = self.nodes@;
        let TaggedTask { label, mut predecessors, task } = self.nodes.remove(ix);
        let ghost pre_preds = predecessors@;
        if !contains_label(&predecessors, origin) {
            predecessors.push(origin);
        }
        self.nodes.insert(ix, TaggedTask { label, predecessors, task });
        proof {
            pre_nodes.remove_ensures(ix as int);
            pre_nodes.remove(ix as int).insert_ensures(ix as int, self.nodes@[ix as int]);
            assert forall|i: int|
                0 <= i < pre_nodes.len() && i != ix implies #[trigger] self.nodes@[i]
                == pre_nodes[i] by {
                if i < ix {
                } else {
                    assert(self.nodes@[(i - 1) + 1] == pre_nodes.remove(ix as int)[i - 1]);
                }
            }
            assert(self.nodes@[ix as int].pred_ids() =~= pre_nodes[ix as int].pred_ids().insert(
                origin,
            )) by {
                if !pre_preds.contains(origin) {
                    assert forall|x: NodeId| #[trigger]
                        self.nodes@[ix as int].predecessors@.contains(x) implies pre_preds.contains(
                        x,
                    ) || x == origin by {
                        let j = choose|j: int|
                            0 <= j < pre_preds.push(origin).len() && pre_preds.push(origin)[j] == x;
                        if j < pre_preds.len() {
                            assert(pre_preds[j] == x);
                        }
                    }
                    assert forall|x: NodeId| pre_preds.contains(x) implies #[trigger] self.nodes@[ix
                        as int].predecessors@.contains(x) by {
                        let j = choose|j: int| 0 <= j < pre_preds.len() && pre_preds[j] == x;
                        assert(pre_preds.push(origin)[j] == x);
                    }
                    assert(self.nodes@[ix as int].predecessors@.contains(origin)) by {
                        assert(pre_preds.push(origin)[pre_preds.len() as int] == origin);
                    }
                }
            }
            assert(self.wf()) by {
                assert forall|i: int|
                    0 <= i < self.nodes@.len() implies self.preds_wf(
                    (#[trigger] self.nodes@[i]).predecessors@,
                ) by {
                    if i == ix {
                        if !pre_preds.contains(origin) {
                            assert(self.nodes@[i].predecessors@ == pre_preds.push(origin));
                            assert forall|j: int, k: int|
                                0 <= j < k < self.nodes@[i].predecessors@.len() implies self.nodes@[i].predecessors@[j]
                                != self.nodes@[i].predecessors@[k] by {
                                if k == pre_preds.len() as int {
                                    assert(pre_preds[j] == pre_preds.push(origin)[j]);
                                    assert(pre_preds.contains(pre_preds[j]) ==> pre_preds[j]
                                        != origin);
                                }
                            }
                        }
                    }
                }
            }
        }
        Ok(())
    }

    /// Creates a root node for `task`: a node with an empty predecessor set.
    /// A graph can have any number of distinct root nodes. Fails only when
    /// the graph's capacity is exceeded.
    pub fn root(&mut self, task: T) -> (r: Result<SystemGraphNode, GraphError>)
        requires
            old(self).wf(),
        ensures
            final(self).wf(),
            match r {
                Err(e) => Some(e) == create_err(*old(self)) && *final(self) == *old(self),
                Ok(node) => {
                    &&& create_err(*old(self)) is None
                    &&& created_node(*old(self), *final(self), node.id, Set::empty(), task)
                },
            },
    {
        self.create_node(task)
    }

    /// Creates one node for `task` that depends on every node in `members`:
    /// its predecessor set is exactly the set of labels in `members`. The
    /// group must be non-empty and must lie entirely in this graph; on any
    /// misuse the table is left untouched.
    pub(crate) fn join_members(&mut self, members: &Vec<NodeId>, task: T) -> (r: Result<
        SystemGraphNode,
        GraphError,
    >)
        requires
            old(self).wf(),
        ensures
            final(self).wf(),
            match r {
                Err(e) => Some(e) == join_err(*old(self), members@) && *final(self) == *old(self),
                Ok(node) => {
                    &&& join_err(*old(self), members@) is None
                    &&& created_node(
                        *old(self),
                        *final(self),
                        node.id,
                        id_set(members@),
                        task,
                    )
                },
            },
    {
        if members.len() == 0 {
            return Err(GraphError::EmptyJoin);
        }
        if !all_from_graph(members, self.id) {
            return Err(GraphError::CrossGraph);
        }
        if self.next_sequence == u32::MAX {
            return Err(GraphError::CapacityExceeded);
        }
        if !self.drained && !all_below(members, self.nodes.len()) {
            proof {
                let j = choose|j: int|
                    0 <= j < members@.len() && !((#[trigger] members@[j]).sequence
                        < self.nodes@.len());
                self.lemma_has_node_iff_index(members@[j]);
            }
            return Err(GraphError::MissingDependent);
        }
        proof {
            if !self.is_drained() {
                assert forall|j: int|
                    0 <= j < members@.len() implies old(self).has_node(
                    #[trigger] members@[j],
                ) by {
                    old(self).lemma_has_node_iff_index(members@[j]);
                }
            }
        }
        let ghost pre = *self;
        let node = match self.create_node(task) {
            Ok(node) => node,
            Err(e) => {
                return Err(e);
            },
        };
        let ghost mid = *self;
        let ghost last = mid.entries().len() - 1;
        proof {
            assert(id_set(members@.subrange(0, 0)) =~= Set::<NodeId>::empty());
        }
        let mut i: usize = 0;
        while i < members.len()
            invariant
                self.wf(),
                i <= members@.len(),
                members@.len() > 0,
                self.graph_id() == mid.graph_id(),
                self.created_count() == mid.created_count(),
                self.is_drained() == mid.is_drained(),
                forall|j: int|
                    0 <= j < members@.len() ==> (#[trigger] members@[j]).graph == mid.graph_id(),
                mid.is_drained() ==> self.entries() == mid.entries(),
                !mid.is_drained() ==> {
                    &&& mid.entries().len() == last + 1
                    &&& self.entries().len() == mid.entries().len()
                    &&& forall|t: int|
                        0 <= t < self.entries().len() && t != last ==> #[trigger] self.entries()[t]
                            == mid.entries()[t]
                    &&& self.entries()[last].label == node.id
                    &&& self.entries()[last].task == mid.entries()[last].task
                    &&& self.entries()[last].pred_ids() == id_set(
                        members@.subrange(0, i as int),
                    )
                    &&& forall|j: int|
                        0 <= j < members@.len() ==> (#[trigger] members@[j]).sequence < last
                },
            decreases members@.len() - i,
        {
            proof {
                self.lemma_has_node_iff_index(members@[i as int]);
                self.lemma_has_node_iff_index(node.id);
                if !self.is_drained() {
                    assert(node.id.sequence == last);
                }
            }
            let member = members[i];
            let link = self.add_dependency(member, node.id);
            proof {
                if !mid.is_drained() {
                    lemma_id_set_push(members@.subrange(0, i as int), members@[i as int]);
                    assert(members@.subrange(0, i as int).push(members@[i as int])
                        =~= members@.subrange(0, i as int + 1));
                }
            }
            i = i + 1;
        }
        proof {
            assert(members@.subrange(0, members@.len() as int) =~= members@);
            if !pre.is_drained() {
                assert(self.entries().subrange(0, pre.entries().len() as int) =~= pre.entries())
                    by {
                    assert forall|t: int|
                        0 <= t < pre.entries().len() implies self.entries()[t]
                        == pre.entries()[t] by {
                        assert(mid.entries()[t] == mid.entries().subrange(
                            0,
                            pre.entries().len() as int,
                        )[t]);
                    }
                }
            }
        }
        Ok(node)
    }

    /// Creates one node per task in `tasks`, in order, each dependent solely
    /// on `origin`: the siblings carry no dependency on each other. Either
    /// every task gets its node or, on a misuse, none does.
    pub(crate) fn fork_tasks(&mut self, origin: NodeId, tasks: Vec<T>) -> (r: Result<
        Vec<SystemGraphNode>,
        GraphError,
    >)
        requires
            old(self).wf(),
        ensures
            final(self).wf(),
            match r {
                Err(e) => Some(e) == fork_err(*old(self), origin, tasks@.len()) && *final(self)
                    == *old(self),
                Ok(nodes) => {
                    &&& fork_err(*old(self), origin, tasks@.len()) is None
                    &&& created_nodes(
                        *old(self),
                        *final(self),
                        nodes@.map_values(|n: SystemGraphNode| n.id),
                        set![origin],
                        tasks@,
                    )
                },
            },
    {
        let ghost tasks0 = tasks@;
        let ghost pre = *self;
        proof {
            old(self).lemma_has_node_iff_index(origin);
        }
        if tasks.len() == 0 {
            let none_created: Vec<SystemGraphNode> = Vec::new();
            proof {
                lemma_created_nodes_empty::<T>(*old(self), set![origin]);
                assert(none_created@.map_values(|n: SystemGraphNode| n.id)
                    =~= Seq::<NodeId>::empty());
                assert(tasks@ =~= Seq::<T>::empty());
            }
            return Ok(none_created);
        }
        if origin.graph != self.id {
            return Err(GraphError::CrossGraph);
        }
        if tasks.len() > u32::MAX as usize || u32::MAX - self.next_sequence < tasks.len() as u32 {
            return Err(GraphError::CapacityExceeded);
        }
        if !self.drained && origin.sequence as usize >= self.nodes.len() {
            return Err(GraphError::MissingDependent);
        }
        let mut tasks = tasks;
        let mut nodes: Vec<SystemGraphNode> = Vec::new();
        proof {
            lemma_created_nodes_empty::<T>(pre, set![origin]);
            assert(nodes@.map_values(|n: SystemGraphNode| n.id) =~= Seq::<NodeId>::empty());
            assert(tasks0.subrange(0, 0) =~= Seq::<T>::empty());
            assert(tasks@ =~= tasks0.subrange(0, tasks0.len() as int));
        }
        while tasks.len() > 0
            invariant
                self.wf(),
                nodes@.len() + tasks@.len() == tasks0.len(),
                tasks@ == tasks0.subrange(nodes@.len() as int, tasks0.len() as int),
                created_nodes(
                    pre,
                    *self,
                    nodes@.map_values(|n: SystemGraphNode| n.id),
                    set![origin],
                    tasks0.subrange(0, nodes@.len() as int),
                ),
                origin.graph == pre.graph_id(),
                !pre.is_drained() ==> origin.sequence < pre.entries().len(),
                pre.created_count() + tasks0.len() <= u32::MAX,
            decreases tasks@.len(),
        {
            let ghost done = nodes@.len() as int;
            let ghost nodes_before = nodes@;
            let ghost before = *self;
            let task = tasks.remove(0);
            proof {
                tasks0.subrange(done, tasks0.len() as int).remove_ensures(0);
                assert(tasks@ =~= tasks0.subrange(done + 1, tasks0.len() as int));
                self.lemma_has_node_iff_index(origin);
            }
            let node = match (SystemGraphNode { id: origin }).and_then(self, task) {
                Ok(node) => node,
                Err(e) => {
                    return Err(e);
                },
            };
            proof {
                lemma_created_nodes_step(
                    pre,
                    before,
                    *self,
                    nodes@.map_values(|n: SystemGraphNode| n.id),
                    set![origin],
                    tasks0.subrange(0, done),
                    node.id,
                    task,
                );
                assert(tasks0.subrange(0, done).push(task) =~= tasks0.subrange(0, done + 1));
            }
            nodes.push(node);
            proof {
                assert(nodes@.map_values(|n: SystemGraphNode| n.id) =~= nodes_before.map_values(
                    |n: SystemGraphNode| n.id,
                ).push(node.id));
            }
        }
        proof {
            assert(tasks0.subrange(0, nodes@.len() as int) =~= tasks0);
        }
        Ok(nodes)
    }

    /// Applies `join_members` once per task in `tasks`, in order: each task
    /// gets its own new node, and every one of those nodes depends on the
    /// same full group `members`. Either every task gets its node or, on a
    /// misuse, none does.
    pub(crate) fn join_tasks(&mut self, members: &Vec<NodeId>, tasks: Vec<T>) -> (r: Result<
        Vec<SystemGraphNode>,
        GraphError,
    >)
        requires
            old(self).wf(),
        ensures
            final(self).wf(),
            match r {
                Err(e) => Some(e) == join_all_err(*old(self), members@, tasks@.len())
                    && *final(self) == *old(self),
                Ok(nodes) => {
                    &&& join_all_err(*old(self), members@, tasks@.len()) is None
                    &&& created_nodes(
                        *old(self),
                        *final(self),
                        nodes@.map_values(|n: SystemGraphNode| n.id),
                        id_set(members@),
                        tasks@,
                    )
                },
            },
    {
        let ghost tasks0 = tasks@;
        let ghost pre = *self;
        if tasks.len() == 0 {
            let none_created: Vec<SystemGraphNode> = Vec::new();
            proof {
                lemma_created_nodes_empty::<T>(*old(self), id_set(members@));
                assert(none_created@.map_values(|n: SystemGraphNode| n.id)
                    =~= Seq::<NodeId>::empty());
                assert(tasks@ =~= Seq::<T>::empty());
            }
            return Ok(none_created);
        }
        if members.len() == 0 {
            return Err(GraphError::EmptyJoin);
        }
        if !all_from_graph(members, self.id) {
            return Err(GraphError::CrossGraph);
        }
        if tasks.len() > u32::MAX as usize || u32::MAX - self.next_sequence < tasks.len() as u32 {
            return Err(GraphError::CapacityExceeded);
        }
        if !self.drained && !all_below(members, self.nodes.len()) {
            proof {
                let j = choose|j: int|
                    0 <= j < members@.len() && !((#[trigger] members@[j]).sequence
                        < self.nodes@.len());
                self.lemma_has_node_iff_index(members@[j]);
            }
            return Err(GraphError::MissingDependent);
        }
        proof {
            if !self.is_drained() {
                assert forall|j: int|
                    0 <= j < members@.len() implies old(self).has_node(
                    #[trigger] members@[j],
                ) by {
                    old(self).lemma_has_node_iff_index(members@[j]);
                }
            }
        }
        let mut tasks = tasks;
        let mut nodes: Vec<SystemGraphNode> = Vec::new();
        proof {
            lemma_created_nodes_empty::<T>(pre, id_set(members@));
            assert(nodes@.map_values(|n: SystemGraphNode| n.id) =~= Seq::<NodeId>::empty());
            assert(tasks@ =~= tasks0.subrange(0, tasks0.len() as int));
        }
        while tasks.len() > 0
            invariant
                self.wf(),
                nodes@.len() + tasks@.len() == tasks0.len(),
                tasks@ == tasks0.subrange(nodes@.len() as int, tasks0.len() as int),
                created_nodes(
                    pre,
                    *self,
                    nodes@.map_values(|n: SystemGraphNode| n.id),
                    id_set(members@),
                    tasks0.subrange(0, nodes@.len() as int),
                ),
                members@.len() > 0,
                forall|j: int|
                    0 <= j < members@.len() ==> (#[trigger] members@[j]).graph == pre.graph_id(),
                !pre.is_drained() ==> forall|j: int|
                    0 <= j < members@.len() ==> (#[trigger] members@[j]).sequence
                        < pre.entries().len(),
                pre.created_count() + tasks0.len() <= u32::MAX,
            decreases tasks@.len(),
        {
            let ghost done = nodes@.len() as int;
            let ghost nodes_before = nodes@;
            let ghost before = *self;
            let task = tasks.remove(0);
            proof {
                tasks0.subrange(done, tasks0.len() as int).remove_ensures(0);
                assert(tasks@ =~= tasks0.subrange(done + 1, tasks0.len() as int));
                if !self.is_drained() {
                    assert forall|j: int|
                        0 <= j < members@.len() implies self.has_node(#[trigger] members@[j]) by {
                        self.lemma_has_node_iff_index(members@[j]);
                    }
                }
            }
            let node = match self.join_members(members, task) {
                Ok(node) => node,
                Err(e) => {
                    return Err(e);
                },
            };
            proof {
                lemma_created_nodes_step(
                    pre,
                    before,
                    *self,
                    nodes@.map_values(|n: SystemGraphNode| n.id),
                    id_set(members@),
                    tasks0.subrange(0, done),
                    node.id,
                    task,
                );
                assert(tasks0.subrange(0, done).push(task) =~= tasks0.subrange(0, done + 1));
            }
            nodes.push(node);
            proof {
                assert(nodes@.map_values(|n: SystemGraphNode| n.id) =~= nodes_before.map_values(
                    |n: SystemGraphNode| n.id,
                ).push(node.id));
            }
        }
        proof {
            assert(tasks0.subrange(0, nodes@.len() as int) =~= tasks0);
        }
        Ok(nodes)
    }

    /// Drains the graph: hands back every annotated task as one flat batch,
    /// in creation order, and leaves the table permanently empty. Exporting
    /// an already-drained graph yields an empty batch, not an error.
    ///
    /// The batch holds one entry per node created before the first export;
    /// its labels are pairwise distinct; and every predecessor label named
    /// anywhere in the batch is itself one of the batch's labels.
    pub fn export(&mut self) -> (batch: Vec<TaggedTask<T>>)
        requires
            old(self).wf(),
        ensures
            final(self).wf(),
            final(self).graph_id() == old(self).graph_id(),
            final(self).created_count() == old(self).created_count(),
            final(self).is_drained(),
            final(self).entries() == Seq::<TaggedTask<T>>::empty(),
            batch@ == old(self).entries(),
            !old(self).is_drained() ==> batch@.len() == old(self).created_count(),
            old(self).is_drained() ==> batch@.len() == 0,
            forall|i: int|
                0 <= i < batch@.len() ==> (#[trigger] batch@[i]).label == (NodeId {
                    graph: old(self).graph_id(),
                    sequence: i as u32,
                }),
            forall|i: int, j: int| 0 <= i < j < batch@.len() ==> batch@[i].label != batch@[j].label,
            forall|i: int, p: NodeId|
                0 <= i < batch@.len() && #[trigger] batch@[i].pred_ids().contains(p)
                    ==> exists|j: int| 0 <= j < batch@.len() && (#[trigger] batch@[j]).label == p,
            forall|i: int, j: int, k: int|
                0 <= i < batch@.len() && 0 <= j < k < batch@[i].predecessors@.len()
                    ==> batch@[i].predecessors@[j] != batch@[i].predecessors@[k],
    {
        let mut batch: Vec<TaggedTask<T>> = Vec::new();
        core::mem::swap(&mut self.nodes, &mut batch);
        self.drained = true;
        proof {
            assert(self.entries() =~= Seq::<TaggedTask<T>>::empty());
            assert forall|i: int, p: NodeId|
                0 <= i < batch@.len() && #[trigger] batch@[i].pred_ids().contains(p)
                    implies exists|j: int|
                0 <= j < batch@.len() && (#[trigger] batch@[j]).label == p by {
                assert(batch@[i].predecessors@.contains(p));
                let j = choose|j: int|
                    0 <= j < batch@[i].predecessors@.len() && batch@[i].predecessors@[j] == p;
                assert(batch@[p.sequence as int].label == p);
            }
        }
        batch
    }
}

impl SystemGraphNode {
    /// The identity of the graph that owns this node. Every handle to a node
    /// of one logical graph reports the same identity, however the handle
    /// was obtained.
    pub fn graph(&self) -> (id: u32)
        ensures
            id == self.id.graph,
    {
        self.id.graph
    }

    /// Creates a new node for `next` and records this node as its sole
    /// dependency; the new node's predecessor set is exactly this node's
    /// label. This is the sequential-chaining primitive.
    pub fn and_then<T>(&self, graph: &mut SystemGraph<T>, next: T) -> (r: Result<
        SystemGraphNode,
        GraphError,
    >)
        requires
            old(graph).wf(),
        ensures
            final(graph).wf(),
            match r {
                Err(e) => Some(e) == then_err(*old(graph), self.id) && *final(graph) == *old(
                    graph,
                ),
                Ok(node) => {
                    &&& then_err(*old(graph), self.id) is None
                    &&& created_node(
                        *old(graph),
                        *final(graph),
                        node.id,
                        set![self.id],
                        next,
                    )
                },
            },
    {
        proof {
            old(graph).lemma_has_node_iff_index(self.id);
        }
        if self.id.graph != graph.id {
            return Err(GraphError::CrossGraph);
        }
        if graph.next_sequence == u32::MAX {
            return Err(GraphError::CapacityExceeded);
        }
        if !graph.drained && self.id.sequence as usize >= graph.nodes.len() {
            return Err(GraphError::MissingDependent);
        }
        let node = match graph.create_node(next) {
            Ok(node) => node,
            Err(e) => {
                return Err(e);
            },
        };
        let ghost mid = *graph;
        proof {
            mid.lemma_has_node_iff_index(self.id);
            mid.lemma_has_node_iff_index(node.id);
        }
        let link = graph.add_dependency(self.id, node.id);
        proof {
            if !old(graph).is_drained() {
                let len = old(graph).entries().len() as int;
                assert(graph.entries()[len].label == node.id);
                assert(graph.entries()[len].task == next);
                assert(graph.entries()[len].pred_ids() =~= set![self.id]) by {
                    assert(mid.entries()[len].pred_ids() =~= Set::<NodeId>::empty());
                }
                assert(graph.entries().subrange(0, len) =~= old(graph).entries()) by {
                    assert forall|i: int| 0 <= i < len implies graph.entries()[i] == old(
                        graph,
                    ).entries()[i] by {
                        assert(mid.entries()[i] == mid.entries().subrange(0, len)[i]);
                    }
                }
            }
        }
        match link {
            Ok(_) => Ok(node),
            Err(e) => Err(e),
        }
    }
}

/// The misuse, if any, that fanning `count` tasks out from `origin` on
/// `pre` must report. A fan-out of zero tasks is a no-op and reports
/// nothing.
pub open spec fn fork_err<T>(pre: SystemGraph<T>, origin: NodeId, count: nat) -> Option<
    GraphError,
> {
    if count == 0 {
        None
    } else if origin.graph != pre.graph_id() {
        Some(GraphError::CrossGraph)
    } else if pre.created_count() + count > u32::MAX {
        Some(GraphError::CapacityExceeded)
    } else if !pre.is_drained() && !pre.has_node(origin) {
        Some(GraphError::MissingDependent)
    } else {
        None
    }
}

/// The misuse, if any, that joining `count` tasks one after another against
/// the same group `members` on `pre` must report. Zero tasks ask for no join
/// at all and report nothing.
pub open spec fn join_all_err<T>(pre: SystemGraph<T>, members: Seq<NodeId>, count: nat) -> Option<
    GraphError,
> {
    if count == 0 {
        None
    } else if members.len() == 0 {
        Some(GraphError::EmptyJoin)
    } else if !(forall|j: int|
        0 <= j < members.len() ==> (#[trigger] members[j]).graph == pre.graph_id()) {
        Some(GraphError::CrossGraph)
    } else if pre.created_count() + count > u32::MAX {
        Some(GraphError::CapacityExceeded)
    } else if !pre.is_drained() && !(forall|j: int|
        0 <= j < members.len() ==> pre.has_node(#[trigger] members[j])) {
        Some(GraphError::MissingDependent)
    } else {
        None
    }
}

/// Relates the graph states before and after a run of nodes was created,
/// one per task in `tasks`, in order, all carrying the same predecessor set
/// `preds`; `ids` are the labels of the new nodes. On an open graph the run
/// is appended to the table; on a drained graph only the sequence counter
/// moves.
pub open spec fn created_nodes<T>(
    pre: SystemGraph<T>,
    post: SystemGraph<T>,
    ids: Seq<NodeId>,
    preds: Set<NodeId>,
    tasks: Seq<T>,
) -> bool {
    &&& post.graph_id() == pre.graph_id()
    &&& post.is_drained() == pre.is_drained()
    &&& post.created_count() == pre.created_count() + tasks.len()
    &&& ids.len() == tasks.len()
    &&& forall|i: int|
        0 <= i < ids.len() ==> #[trigger] ids[i] == (NodeId {
            graph: pre.graph_id(),
            sequence: (pre.created_count() + i) as u32,
        })
    &&& if pre.is_drained() {
        post.entries() == pre.entries()
    } else {
        &&& post.entries().len() == pre.entries().len() + tasks.len()
        &&& post.entries().subrange(0, pre.entries().len() as int) == pre.entries()
        &&& forall|i: int|
            pre.entries().len() <= i < post.entries().len()
                ==> (#[trigger] post.entries()[i]).label == ids[i - pre.entries().len()]
        &&& forall|i: int|
            pre.entries().len() <= i < post.entries().len()
                ==> (#[trigger] post.entries()[i]).pred_ids() == preds
        &&& forall|i: int|
            pre.entries().len() <= i < post.entries().len()
                ==> (#[trigger] post.entries()[i]).task == tasks[i - pre.entries().len()]
    }
}

/// An empty run of creations leaves the graph exactly as it was.
proof fn lemma_created_nodes_empty<T>(pre: SystemGraph<T>, preds: Set<NodeId>)
    ensures
        created_nodes(pre, pre, Seq::<NodeId>::empty(), preds, Seq::<T>::empty()),
{
    assert(pre.entries().subrange(0, pre.entries().len() as int) =~= pre.entries());
}

/// Extends a run of creations by one more created node.
proof fn lemma_created_nodes_step<T>(
    pre: SystemGraph<T>,
    mid: SystemGraph<T>,
    post: SystemGraph<T>,
    ids: Seq<NodeId>,
    preds: Set<NodeId>,
    tasks: Seq<T>,
    id: NodeId,
    task: T,
)
    requires
        created_nodes(pre, mid, ids, preds, tasks),
        created_node(mid, post, id, preds, task),
    ensures
        created_nodes(pre, post, ids.push(id), preds, tasks.push(task)),
{
    if !pre.is_drained() {
        let plen = pre.entries().len() as int;
        let mlen = mid.entries().len() as int;
        assert forall|i: int| 0 <= i < mlen implies post.entries()[i] == mid.entries()[i] by {
            assert(post.entries().subrange(0, mlen)[i] == post.entries()[i]);
        }
        assert(post.entries().subrange(0, plen) =~= pre.entries()) by {
            assert forall|i: int| 0 <= i < plen implies post.entries()[i] == pre.entries()[i] by {
                assert(mid.entries().subrange(0, plen)[i] == mid.entries()[i]);
            }
        }
        assert(post.entries().last() == post.entries()[mlen]);
    }
}

/// Nodes fanned out from one origin are mutually independent: every new
/// entry's predecessor set holds only the origin's label, and the origin is
/// never one of the new nodes, so no fanned-out node waits on a sibling.
pub proof fn lemma_fork_siblings_independent<T>(
    pre: SystemGraph<T>,
    post: SystemGraph<T>,
    ids: Seq<NodeId>,
    origin: NodeId,
    tasks: Seq<T>,
)
    requires
        pre.wf(),
        !pre.is_drained(),
        pre.has_node(origin),
        created_nodes(pre, post, ids, set![origin], tasks),
    ensures
        forall|i: int, j: int|
            pre.entries().len() <= i < post.entries().len() && 0 <= j < ids.len() ==> !(
            #[trigger] post.entries()[i]).pred_ids().contains(#[trigger] ids[j]),
{
    pre.lemma_has_node_iff_index(origin);
    assert forall|i: int, j: int|
        pre.entries().len() <= i < post.entries().len() && 0 <= j < ids.len() implies !(
    #[trigger] post.entries()[i]).pred_ids().contains(#[trigger] ids[j]) by {
        assert(post.entries()[i].pred_ids() == set![origin]);
        assert(origin.sequence < pre.created_count());
        assert(ids[j].sequence >= pre.created_count());
    }
}

/// The misuse, if any, that chaining a node after `origin` on `pre` must
/// report: a foreign origin, an exhausted graph, or an origin absent from an
/// open graph's table, in that order of precedence.
pub open spec fn then_err<T>(pre: SystemGraph<T>, origin: NodeId) -> Option<GraphError> {
    if origin.graph != pre.graph_id() {
        Some(GraphError::CrossGraph)
    } else if pre.at_capacity() {
        Some(GraphError::CapacityExceeded)
    } else if !pre.is_drained() && !pre.has_node(origin) {
        Some(GraphError::MissingDependent)
    } else {
        None
    }
}

/// Whether `ids` holds `id`, by linear scan.
fn contains_label(ids: &Vec<NodeId>, id: NodeId) -> (found: bool)
    ensures
        found == ids@.contains(id),
{
    let mut i: usize = 0;
    while i < ids.len()
        invariant
            i <= ids@.len(),
            forall|j: int| 0 <= j < i ==> ids@[j] != id,
        decreases ids@.len() - i,
    {
        if ids[i] == id {
            return true;
        }
        i = i + 1;
    }
    false
}

/// Whether every label in `ids` carries the graph identity `id`, by scan.
fn all_from_graph(ids: &Vec<NodeId>, id: u32) -> (ok: bool)
    ensures
        ok == (forall|j: int| 0 <= j < ids@.len() ==> (#[trigger] ids@[j]).graph == id),
{
    let mut i: usize = 0;
    while i < ids.len()
        invariant
            i <= ids@.len(),
            forall|j: int| 0 <= j < i ==> (#[trigger] ids@[j]).graph == id,
        decreases ids@.len() - i,
    {
        if ids[i].graph != id {
            return false;
        }
        i = i + 1;
    }
    true
}

/// Whether every label in `ids` carries a sequence number below `bound`.
fn all_below(ids: &Vec<NodeId>, bound: usize) -> (ok: bool)
    ensures
        ok == (forall|j: int| 0 <= j < ids@.len() ==> (#[trigger] ids@[j]).sequence < bound),
{
    let mut i: usize = 0;
    while i < ids.len()
        invariant
            i <= ids@.len(),
            forall|j: int| 0 <= j < i ==> (#[trigger] ids@[j]).sequence < bound,
        decreases ids@.len() - i,
    {
        if ids[i].sequence as usize >= bound {
            return false;
        }
        i = i + 1;
    }
    true
}

/// Appending a label to a sequence adds exactly that label to the set the
/// sequence names.
proof fn lemma_id_set_push(ids: Seq<NodeId>, x: NodeId)
    ensures
        id_set(ids.push(x)) == id_set(ids).insert(x),
{
    assert(id_set(ids.push(x)) =~= id_set(ids).insert(x)) by {
        assert forall|y: NodeId| #[trigger] ids.push(x).contains(y) implies ids.contains(y) || y
            == x by {
            let j = choose|j: int| 0 <= j < ids.push(x).len() && ids.push(x)[j] == y;
            if j < ids.len() {
                assert(ids[j] == y);
            }
        }
        assert forall|y: NodeId| ids.contains(y) implies #[trigger] ids.push(x).contains(y) by {
            let j = choose|j: int| 0 <= j < ids.len() && ids[j] == y;
            assert(ids.push(x)[j] == y);
        }
        assert(ids.push(x)[ids.len() as int] == x);
    }
}

/// The misuse, if any, that joining the group `members` on `pre` must
/// report: an empty group, a member from another graph, an exhausted graph,
/// or a member absent from an open graph's table, in that order.
pub open spec fn join_err<T>(pre: SystemGraph<T>, members: Seq<NodeId>) -> Option<GraphError> {
    if members.len() == 0 {
        Some(GraphError::EmptyJoin)
    } else if !(forall|j: int|
        0 <= j < members.len() ==> (#[trigger] members[j]).graph == pre.graph_id()) {
        Some(GraphError::CrossGraph)
    } else if pre.at_capacity() {
        Some(GraphError::CapacityExceeded)
    } else if !pre.is_drained() && !(forall|j: int|
        0 <= j < members.len() ==> pre.has_node(#[trigger] members[j])) {
        Some(GraphError::MissingDependent)
    } else {
        None
    }
}

/// Relates the graph states before and after the dependency edge from
/// `origin` to `dependent` was recorded: only the entry of `dependent`
/// changes, and only by gaining `origin` as a predecessor.
pub open spec fn linked_dependency<T>(
    pre: SystemGraph<T>,
    post: SystemGraph<T>,
    origin: NodeId,
    dependent: NodeId,
) -> bool {
    &&& post.graph_id() == pre.graph_id()
    &&& post.created_count() == pre.created_count()
    &&& post.is_drained() == pre.is_drained()
    &&& post.entries().len() == pre.entries().len()
    &&& forall|i: int|
        0 <= i < pre.entries().len() && i != dependent.sequence ==> #[trigger] post.entries()[i]
            == pre.entries()[i]
    &&& post.entries()[dependent.sequence as int].label == pre.entries()[dependent.sequence as int].label
    &&& post.entries()[dependent.sequence as int].task == pre.entries()[dependent.sequence as int].task
    &&& post.entries()[dependent.sequence as int].pred_ids() == pre.entries()[dependent.sequence as int].pred_ids().insert(origin)
}

/// The outcome that adding a dependency edge on `pre` must have: a drained
/// graph absorbs the call, an absent endpoint is reported, and otherwise the
/// edge is recorded.
pub open spec fn add_dependency_effect<T>(
    pre: SystemGraph<T>,
    origin: NodeId,
    dependent: NodeId,
    post: SystemGraph<T>,
    r: Result<(), GraphError>,
) -> bool {
    if pre.is_drained() {
        r == Ok::<(), GraphError>(()) && post == pre
    } else if !pre.has_node(dependent) || !pre.has_node(origin) {
        r == Err::<(), GraphError>(GraphError::MissingDependent) && post == pre
    } else {
        r == Ok::<(), GraphError>(()) && linked_dependency(pre, post, origin, dependent)
    }
}

/// The misuse, if any, that a single node creation on `pre` must report.
pub open spec fn create_err<T>(pre: SystemGraph<T>) -> Option<GraphError> {
    if pre.at_capacity() {
        Some(GraphError::CapacityExceeded)
    } else {
        None
    }
}

/// Relates the graph states before and after one node was created, with
/// label `id`, predecessor set `preds` and descriptor `task`: the sequence
/// counter advances by one, and on an open graph the entry is appended to
/// the table, while on a drained graph the table stays as it was.
pub open spec fn created_node<T>(
    pre: SystemGraph<T>,
    post: SystemGraph<T>,
    id: NodeId,
    preds: Set<NodeId>,
    task: T,
) -> bool {
    &&& post.graph_id() == pre.graph_id()
    &&& post.created_count() == pre.created_count() + 1
    &&& post.is_drained() == pre.is_drained()
    &&& id == (NodeId { graph: pre.graph_id(), sequence: pre.created_count() })
    &&& if pre.is_drained() {
        post.entries() == pre.entries()
    } else {
        &&& post.entries().len() == pre.entries().len() + 1
        &&& post.entries().subrange(0, pre.entries().len() as int) == pre.entries()
        &&& post.entries().last().label == id
        &&& post.entries().last().pred_ids() == preds
        &&& post.entries().last().task == task
    }
}

} // verus!
