use safe_migrate::graph::{DependencyEdge, DependencyGraph, DependencyKind, CASCADE_INDEX_MIN_EDGES};
use safe_migrate::identifiers::ObjectId;

fn id(name: &str) -> ObjectId {
    ObjectId::new("public", name)
}

fn view_edge(dependent: &str, referenced: &str) -> DependencyEdge {
    DependencyEdge::new(
        id(dependent),
        id(referenced),
        DependencyKind::ViewDependency { view_generation: 1, referenced_column: None },
    )
}

fn canonical_views<'a>(graph: &'a DependencyGraph, target: &'a ObjectId) -> Vec<&'a ObjectId> {
    let resolved_target = graph.resolve_rename(target);
    graph
        .edges()
        .iter()
        .filter(|edge| {
            matches!(edge.kind, DependencyKind::ViewDependency { .. })
                && (graph.resolve_rename(&edge.referenced) == resolved_target || &edge.referenced == target)
        })
        .map(|edge| graph.resolve_rename(&edge.dependent))
        .collect()
}

fn assert_indexed_views_match_scan(graph: &DependencyGraph, targets: &[ObjectId]) {
    assert!(graph.indexes_are_valid());
    for target in targets {
        let indexed = graph
            .cascade_edges(target)
            .into_iter()
            .filter(|edge| matches!(edge.kind, DependencyKind::ViewDependency { .. }))
            .map(|edge| graph.resolve_rename(&edge.dependent))
            .collect::<Vec<_>>();
        assert_eq!(indexed, canonical_views(graph, target));
    }
}

#[test]
fn indexes_track_every_graph_mutation_and_alias_cycle() {
    let a = id("a");
    let b = id("b");
    let c = id("c");
    let d = id("d");
    let targets = [a.clone(), b.clone(), c.clone(), d.clone()];
    let mut graph = DependencyGraph::new();

    graph.add_edge(view_edge("view_a", "a"));
    graph.add_edge(view_edge("view_b", "b"));
    for index in 0..CASCADE_INDEX_MIN_EDGES {
        graph.add_edge(view_edge(&format!("unrelated_view_{index}"), &format!("unrelated_table_{index}")));
    }
    assert_indexed_views_match_scan(&graph, &targets);

    graph.add_edge(DependencyEdge::new(a.clone(), b.clone(), DependencyKind::RenameTo));
    assert_indexed_views_match_scan(&graph, &targets);

    graph.propagate_rename(&b, &c);
    graph.add_edge(DependencyEdge::new(b.clone(), c.clone(), DependencyKind::RenameTo));
    assert_indexed_views_match_scan(&graph, &targets);

    graph.mutate_edges(|edge| {
        let mut edge = edge.clone();
        if edge.dependent == id("view_b") {
            edge.dependent = id("view_c");
        }
        edge
    });
    assert_indexed_views_match_scan(&graph, &targets);

    let snapshot = graph.edges().to_vec();
    graph.retain_edges(|edge| edge.dependent != id("view_a"));
    assert_indexed_views_match_scan(&graph, &targets);
    graph.replace_edges(snapshot);
    assert_indexed_views_match_scan(&graph, &targets);

    let checkpoint = graph.edge_count();
    graph.add_edge(view_edge("temporary", "c"));
    graph.truncate(checkpoint);
    assert_indexed_views_match_scan(&graph, &targets);

    graph.add_edge(DependencyEdge::new(c.clone(), a.clone(), DependencyKind::RenameTo));
    assert_eq!(graph.resolve_rename(&a), &a);
    assert_eq!(graph.resolve_rename(&b), &b);
    assert_eq!(graph.resolve_rename(&c), &c);
    assert_indexed_views_match_scan(&graph, &targets);
}

#[test]
fn trigger_dependencies_preserve_overloaded_function_identity() {
    let mut graph = DependencyGraph::new();
    let trigger_function = id("notify()");
    let overload = id("notify(integer)");
    graph.add_edge(DependencyEdge::new(
        id("events_notify_trigger"),
        id("events"),
        DependencyKind::TriggerOnTable {
            trigger_id: id("events_notify_trigger"),
            function_id: trigger_function.clone(),
            trigger_generation: 0,
        },
    ));

    assert_eq!(graph.triggers_for_function(&trigger_function).len(), 1);
    assert!(graph.triggers_for_function(&overload).is_empty());
}

#[test]
fn traditional_inheritance_cascades_without_becoming_a_partition() {
    let parent = id("parent");
    let child = id("child");
    let mut graph = DependencyGraph::new();
    graph.add_edge(DependencyEdge::new(child.clone(), parent.clone(), DependencyKind::InheritanceOf));

    assert!(graph.partitions_of(&parent).is_empty());
    assert!(graph.cascade_edges(&parent).iter().any(|edge| {
        edge.dependent == child && matches!(edge.kind, DependencyKind::InheritanceOf)
    }));
}

#[test]
fn partition_of_a_descendant_would_close_a_cycle() {
    let mut graph = DependencyGraph::new();
    graph.add_edge(DependencyEdge::new(id("b"), id("a"), DependencyKind::PartitionOf));
    graph.add_edge(DependencyEdge::new(id("c"), id("b"), DependencyKind::PartitionOf));
    assert!(graph.check_partition_cycle(&id("c"), &id("a")));
    assert!(!graph.check_partition_cycle(&id("a"), &id("d")));
    assert_eq!(graph.partitions_of(&id("a")), vec![&id("b")]);
}

#[test]
fn renames_are_followed_to_their_end() {
    let mut graph = DependencyGraph::new();
    graph.add_edge(DependencyEdge::new(id("a"), id("b"), DependencyKind::RenameTo));
    graph.add_edge(DependencyEdge::new(id("b"), id("c"), DependencyKind::RenameTo));
    assert_eq!(graph.resolve_rename(&id("a")), &id("c"));
    assert_eq!(graph.resolve_rename(&id("x")), &id("x"));
}

#[test]
fn function_rename_reaches_triggers_only() {
    let mut graph = DependencyGraph::new();
    graph.add_edge(DependencyEdge::new(
        id("t\0trg"),
        id("t"),
        DependencyKind::TriggerOnTable { trigger_id: id("t\0trg"), function_id: id("f()"), trigger_generation: 0 },
    ));
    graph.add_edge(view_edge("f()", "t"));
    graph.propagate_function_rename(&id("f()"), &id("g()"));
    assert_eq!(graph.triggers_for_function(&id("g()")).len(), 1);
    assert_eq!(graph.edges()[1].dependent, id("f()"));
}
