use system_graph::{GraphIdSource, NodeId, SystemGraph, SystemGroup, SystemJoin, TaggedTask};

fn find<'a>(batch: &'a [TaggedTask<&'static str>], id: NodeId) -> &'a TaggedTask<&'static str> {
    batch
        .iter()
        .find(|e| e.label == id)
        .expect("no entry carries the expected label")
}

fn same_labels(entry_preds: &[NodeId], expected: &[NodeId]) -> bool {
    entry_preds.len() == expected.len() && expected.iter().all(|id| entry_preds.contains(id))
}

#[test]
fn chain_of_three_labels_and_predecessors() {
    let mut source = GraphIdSource::new();
    let mut graph: SystemGraph<&'static str> = SystemGraph::new(&mut source);
    let a = graph.root("a").unwrap();
    let b = a.and_then(&mut graph, "b").unwrap();
    let c = b.and_then(&mut graph, "c").unwrap();
    let batch = graph.export();
    assert_eq!(batch.len(), 3);
    assert_eq!(a.id, NodeId { graph: 0, sequence: 0 });
    assert_eq!(b.id, NodeId { graph: 0, sequence: 1 });
    assert_eq!(c.id, NodeId { graph: 0, sequence: 2 });
    assert!(find(&batch, a.id).predecessors.is_empty());
    assert!(same_labels(&find(&batch, b.id).predecessors, &[a.id]));
    assert!(same_labels(&find(&batch, c.id).predecessors, &[b.id]));
    assert_eq!(find(&batch, a.id).task, "a");
    assert_eq!(find(&batch, b.id).task, "b");
    assert_eq!(find(&batch, c.id).task, "c");
}

#[test]
fn fork_scenario_gives_four_entries() {
    let mut source = GraphIdSource::new();
    let mut graph: SystemGraph<&'static str> = SystemGraph::new(&mut source);
    let a = graph.root("a").unwrap();
    let forked = a.fork(vec!["b", "c", "d"], &mut graph).unwrap();
    let batch = graph.export();
    assert_eq!(batch.len(), 4);
    for node in &forked {
        assert!(same_labels(&find(&batch, node.id).predecessors, &[a.id]));
    }
}

#[test]
fn three_roots_joined_give_four_entries() {
    let mut source = GraphIdSource::new();
    let mut graph: SystemGraph<&'static str> = SystemGraph::new(&mut source);
    let a = graph.root("a").unwrap();
    let b = graph.root("b").unwrap();
    let c = graph.root("c").unwrap();
    let d = vec![a, b, c].join(&mut graph, "d").unwrap();
    let batch = graph.export();
    assert_eq!(batch.len(), 4);
    assert!(same_labels(&find(&batch, d.id).predecessors, &[a.id, b.id, c.id]));
}

#[test]
fn tuple_fork_then_join_then_chain() {
    let mut source = GraphIdSource::new();
    let mut graph: SystemGraph<&'static str> = SystemGraph::new(&mut source);
    let a = graph.root("a").unwrap();
    let (b, c, d) = a.fork3(&mut graph, "b", "c", "d").unwrap();
    let e = (b, c, d).join(&mut graph, "e").unwrap();
    let f = e.and_then(&mut graph, "f").unwrap();
    let batch = graph.export();
    assert_eq!(batch.len(), 6);
    assert!(same_labels(&find(&batch, e.id).predecessors, &[b.id, c.id, d.id]));
    assert!(same_labels(&find(&batch, f.id).predecessors, &[e.id]));
}

#[test]
fn fork2_and_fork4_preserve_shape() {
    let mut source = GraphIdSource::new();
    let mut graph: SystemGraph<&'static str> = SystemGraph::new(&mut source);
    let a = graph.root("a").unwrap();
    let (b, c) = a.fork2(&mut graph, "b", "c").unwrap();
    let (d, e, f, g) = b.fork4(&mut graph, "d", "e", "f", "g").unwrap();
    let batch = graph.export();
    assert_eq!(batch.len(), 7);
    assert!(same_labels(&find(&batch, c.id).predecessors, &[a.id]));
    for node in [d, e, f, g] {
        assert!(same_labels(&find(&batch, node.id).predecessors, &[b.id]));
    }
}

#[test]
fn join_from_fans_tasks_out_of_a_tuple_group() {
    let mut source = GraphIdSource::new();
    let mut graph: SystemGraph<&'static str> = SystemGraph::new(&mut source);
    let a = graph.root("a").unwrap();
    let b = graph.root("b").unwrap();
    let joined = vec!["x", "y"].join_from(&(a, b), &mut graph).unwrap();
    let batch = graph.export();
    assert_eq!(batch.len(), 4);
    assert!(same_labels(&find(&batch, joined[0].id).predecessors, &[a.id, b.id]));
    assert!(same_labels(&find(&batch, joined[1].id).predecessors, &[a.id, b.id]));
}

#[test]
fn export_covers_every_created_node_without_dangling_labels() {
    let mut source = GraphIdSource::new();
    let mut graph: SystemGraph<&'static str> = SystemGraph::new(&mut source);
    let a = graph.root("a").unwrap();
    let tail = a
        .and_then(&mut graph, "b")
        .unwrap()
        .and_then(&mut graph, "c")
        .unwrap();
    let b2 = graph.root("d").unwrap().and_then(&mut graph, "e").unwrap();
    let joined = vec![tail, b2].join(&mut graph, "f").unwrap();
    let _last = joined.and_then(&mut graph, "g").unwrap();
    let batch = graph.export();
    assert_eq!(batch.len(), 7);
    for i in 0..batch.len() {
        for j in 0..batch.len() {
            if i != j {
                assert_ne!(batch[i].label, batch[j].label);
            }
        }
        for pred in &batch[i].predecessors {
            assert!(batch.iter().any(|e| e.label == *pred));
        }
    }
}

#[test]
fn second_export_returns_an_empty_batch() {
    let mut source = GraphIdSource::new();
    let mut graph: SystemGraph<&'static str> = SystemGraph::new(&mut source);
    let a = graph.root("a").unwrap();
    let _b = a.and_then(&mut graph, "b").unwrap();
    assert_eq!(graph.export().len(), 2);
    assert_eq!(graph.export().len(), 0);
}

#[test]
fn construction_after_drain_is_absorbed() {
    let mut source = GraphIdSource::new();
    let mut graph: SystemGraph<&'static str> = SystemGraph::new(&mut source);
    let a = graph.root("a").unwrap();
    assert_eq!(graph.export().len(), 1);
    let late = graph.root("b").unwrap();
    assert_eq!(late.id, NodeId { graph: 0, sequence: 1 });
    let later = a.and_then(&mut graph, "c").unwrap();
    assert_eq!(later.id, NodeId { graph: 0, sequence: 2 });
    assert_eq!(graph.export().len(), 0);
}
