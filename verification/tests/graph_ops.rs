use system_graph::{GraphError, GraphIdSource, NodeId, SystemGraph, SystemGraphNode, SystemJoin, TaggedTask};

fn label(graph: u32, sequence: u32) -> NodeId {
    NodeId { graph, sequence }
}

fn entry<'a>(batch: &'a [TaggedTask<u32>], id: NodeId) -> &'a TaggedTask<u32> {
    batch
        .iter()
        .find(|e| e.label == id)
        .expect("no entry carries the expected label")
}

fn pred_set_is(entry: &TaggedTask<u32>, expected: &[NodeId]) -> bool {
    entry.predecessors.len() == expected.len()
        && expected.iter().all(|id| entry.predecessors.contains(id))
}

#[test]
fn id_source_counts_up() {
    let mut source = GraphIdSource::new();
    assert_eq!(source.allocate(), 0);
    assert_eq!(source.allocate(), 1);
    assert_eq!(source.allocate(), 2);
}

#[test]
fn root_has_no_predecessors() {
    let mut source = GraphIdSource::new();
    let mut graph: SystemGraph<u32> = SystemGraph::new(&mut source);
    let a = graph.root(10).unwrap();
    assert_eq!(a.id, label(0, 0));
    let batch = graph.export();
    assert_eq!(batch.len(), 1);
    assert!(entry(&batch, a.id).predecessors.is_empty());
    assert_eq!(entry(&batch, a.id).task, 10);
}

#[test]
fn and_then_depends_on_origin_only() {
    let mut source = GraphIdSource::new();
    let mut graph: SystemGraph<u32> = SystemGraph::new(&mut source);
    let a = graph.root(1).unwrap();
    let b = a.and_then(&mut graph, 2).unwrap();
    assert_eq!(b.id, label(0, 1));
    let batch = graph.export();
    assert_eq!(batch.len(), 2);
    assert!(pred_set_is(entry(&batch, b.id), &[a.id]));
}

#[test]
fn fork_list_creates_independent_siblings() {
    let mut source = GraphIdSource::new();
    let mut graph: SystemGraph<u32> = SystemGraph::new(&mut source);
    let a = graph.root(1).unwrap();
    let forked = a.fork(vec![2, 3, 4], &mut graph).unwrap();
    assert_eq!(forked.len(), 3);
    let batch = graph.export();
    assert_eq!(batch.len(), 4);
    for (i, node) in forked.iter().enumerate() {
        let e = entry(&batch, node.id);
        assert!(pred_set_is(e, &[a.id]));
        assert_eq!(e.task, (i + 2) as u32);
        for other in &forked {
            assert!(!e.predecessors.contains(&other.id));
        }
    }
}

#[test]
fn fork_of_no_tasks_changes_nothing() {
    let mut source = GraphIdSource::new();
    let mut graph: SystemGraph<u32> = SystemGraph::new(&mut source);
    let a = graph.root(1).unwrap();
    let forked = a.fork(Vec::new(), &mut graph).unwrap();
    assert!(forked.is_empty());
    assert_eq!(graph.export().len(), 1);
}

#[test]
fn join_collects_every_member_label() {
    let mut source = GraphIdSource::new();
    let mut graph: SystemGraph<u32> = SystemGraph::new(&mut source);
    let a = graph.root(1).unwrap();
    let b = graph.root(2).unwrap();
    let c = graph.root(3).unwrap();
    let d = vec![a, b, c].join(&mut graph, 4).unwrap();
    assert_eq!(d.id, label(0, 3));
    let batch = graph.export();
    assert_eq!(batch.len(), 4);
    assert!(pred_set_is(entry(&batch, d.id), &[a.id, b.id, c.id]));
}

#[test]
fn join_of_duplicate_handles_records_one_label() {
    let mut source = GraphIdSource::new();
    let mut graph: SystemGraph<u32> = SystemGraph::new(&mut source);
    let a = graph.root(1).unwrap();
    let d = vec![a, a, a].join(&mut graph, 2).unwrap();
    let batch = graph.export();
    assert!(pred_set_is(entry(&batch, d.id), &[a.id]));
}

#[test]
fn empty_join_fails_and_leaves_table_unchanged() {
    let mut source = GraphIdSource::new();
    let mut graph: SystemGraph<u32> = SystemGraph::new(&mut source);
    let _a = graph.root(1).unwrap();
    let none: Vec<SystemGraphNode> = Vec::new();
    let r = none.join(&mut graph, 9);
    assert_eq!(r.unwrap_err(), GraphError::EmptyJoin);
    assert_eq!(graph.export().len(), 1);
}

#[test]
fn join_all_joins_each_task_against_the_same_group() {
    let mut source = GraphIdSource::new();
    let mut graph: SystemGraph<u32> = SystemGraph::new(&mut source);
    let a = graph.root(1).unwrap();
    let b = graph.root(2).unwrap();
    let joined = vec![a, b].join_all(vec![3, 4], &mut graph).unwrap();
    assert_eq!(joined.len(), 2);
    let batch = graph.export();
    assert_eq!(batch.len(), 4);
    assert!(pred_set_is(entry(&batch, joined[0].id), &[a.id, b.id]));
    assert!(pred_set_is(entry(&batch, joined[1].id), &[a.id, b.id]));
    assert_eq!(entry(&batch, joined[0].id).task, 3);
    assert_eq!(entry(&batch, joined[1].id).task, 4);
}

#[test]
fn cross_graph_and_then_fails() {
    let mut source = GraphIdSource::new();
    let mut first: SystemGraph<u32> = SystemGraph::new(&mut source);
    let mut second: SystemGraph<u32> = SystemGraph::new(&mut source);
    let a = first.root(1).unwrap();
    let r = a.and_then(&mut second, 2);
    assert_eq!(r.unwrap_err(), GraphError::CrossGraph);
    assert_eq!(second.export().len(), 0);
    assert_eq!(first.export().len(), 1);
}

#[test]
fn cross_graph_fork_fails() {
    let mut source = GraphIdSource::new();
    let mut first: SystemGraph<u32> = SystemGraph::new(&mut source);
    let mut second: SystemGraph<u32> = SystemGraph::new(&mut source);
    let a = first.root(1).unwrap();
    let r = a.fork(vec![2, 3], &mut second);
    assert_eq!(r.unwrap_err(), GraphError::CrossGraph);
    assert_eq!(second.export().len(), 0);
}

#[test]
fn cross_graph_join_fails() {
    let mut source = GraphIdSource::new();
    let mut first: SystemGraph<u32> = SystemGraph::new(&mut source);
    let mut second: SystemGraph<u32> = SystemGraph::new(&mut source);
    let a = first.root(1).unwrap();
    let b = second.root(2).unwrap();
    let r = vec![a, b].join(&mut first, 3);
    assert_eq!(r.unwrap_err(), GraphError::CrossGraph);
    assert_eq!(first.export().len(), 1);
}

#[test]
fn foreign_handle_is_reported_missing() {
    let mut source = GraphIdSource::new();
    let mut graph: SystemGraph<u32> = SystemGraph::new(&mut source);
    let _a = graph.root(1).unwrap();
    let forged = SystemGraphNode { id: label(0, 99) };
    let r = forged.and_then(&mut graph, 2);
    assert_eq!(r.unwrap_err(), GraphError::MissingDependent);
    assert_eq!(graph.export().len(), 1);
}

#[test]
fn is_same_graph_goes_by_identity() {
    let mut source = GraphIdSource::new();
    let first: SystemGraph<u32> = SystemGraph::new(&mut source);
    let second: SystemGraph<u32> = SystemGraph::new(&mut source);
    assert!(first.is_same_graph(&first));
    assert!(!first.is_same_graph(&second));
}

#[test]
fn node_reports_owning_graph_identity() {
    let mut source = GraphIdSource::new();
    let mut first: SystemGraph<u32> = SystemGraph::new(&mut source);
    let mut second: SystemGraph<u32> = SystemGraph::new(&mut source);
    let a = first.root(1).unwrap();
    let b = second.root(2).unwrap();
    assert_eq!(a.graph(), 0);
    assert_eq!(b.graph(), 1);
    let c = a.and_then(&mut first, 3).unwrap();
    assert_eq!(c.graph(), a.graph());
}

#[test]
fn member_vec_lists_labels_in_order() {
    let mut source = GraphIdSource::new();
    let mut graph: SystemGraph<u32> = SystemGraph::new(&mut source);
    let a = graph.root(1).unwrap();
    let b = graph.root(2).unwrap();
    assert_eq!(vec![a, b].member_vec(), vec![a.id, b.id]);
    assert_eq!((a, b).member_vec(), vec![a.id, b.id]);
}
