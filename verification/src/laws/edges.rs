//! What the dependency graph answers.
use crate::collections::lemma_filtered;
use crate::graph::{
    cascade_of, cascades_from, ends_after, fk_references, index_references, lemma_first_rename_at, lemma_resolved_at, partition_parent,
    partition_references, refers_to, rename_chain, renamed, resolved, resolved_dependents, view_references, would_close_cycle, DependencyEdgeView,
};
use crate::identifiers::ObjectIdView;
use vstd::prelude::*;

verus! {

// ---------------------------------------------------------------------------
// Renames
// ---------------------------------------------------------------------------

/// An identity that no edge renames stands for itself. One that is renamed stands
/// for what it was first renamed to, where that is not renamed again.
pub proof fn law_rename_is_followed(edges: Seq<DependencyEdgeView>, id: ObjectIdView, i: int)
    ensures
        (forall|j: int| 0 <= j < edges.len() ==> !((#[trigger] edges[j]).kind is RenameTo && edges[j].dependent == id)) ==> resolved(edges, id) == id,
        0 <= i < edges.len() && edges[i].kind is RenameTo && edges[i].dependent == id && (forall|j: int|
            0 <= j < i ==> !((#[trigger] edges[j]).kind is RenameTo && edges[j].dependent == id)) && (forall|j: int|
            0 <= j < edges.len() ==> !((#[trigger] edges[j]).kind is RenameTo && edges[j].dependent == edges[i].referenced)) ==> resolved(edges, id)
            == edges[i].referenced,
{
    if forall|j: int| 0 <= j < edges.len() ==> !((#[trigger] edges[j]).kind is RenameTo && edges[j].dependent == id) {
        lemma_first_rename_at(edges, id, edges.len() as int);
        assert(ends_after(edges, id, 0));
        lemma_resolved_at(edges, id, 0);
    }
    if 0 <= i < edges.len() && edges[i].kind is RenameTo && edges[i].dependent == id && (forall|j: int|
        0 <= j < i ==> !((#[trigger] edges[j]).kind is RenameTo && edges[j].dependent == id)) && (forall|j: int|
        0 <= j < edges.len() ==> !((#[trigger] edges[j]).kind is RenameTo && edges[j].dependent == edges[i].referenced)) {
        lemma_first_rename_at(edges, id, i);
        lemma_first_rename_at(edges, edges[i].referenced, edges.len() as int);
        assert(rename_chain(edges, id, 0) == Some(id));
        assert(rename_chain(edges, id, 1) == renamed(edges, id));
        assert(ends_after(edges, id, 1));
        lemma_resolved_at(edges, id, 1);
    }
}

// ---------------------------------------------------------------------------
// Who refers to an object
// ---------------------------------------------------------------------------

/// Whether an edge leads to an object, by its name of now or by the one that the
/// edge was made with.
pub open spec fn leads_to(edges: Seq<DependencyEdgeView>, e: DependencyEdgeView, id: ObjectIdView) -> bool {
    resolved(edges, e.referenced) == resolved(edges, id) || e.referenced == id
}

proof fn lemma_dependents(edges: Seq<DependencyEdgeView>, p: spec_fn(DependencyEdgeView) -> bool, x: ObjectIdView)
    ensures
        resolved_dependents(edges, edges.filter(p)).contains(x) <==> exists|k: int|
            0 <= k < edges.len() && p(#[trigger] edges[k]) && resolved(edges, edges[k].dependent) == x,
{
    lemma_filtered(edges, p);
    let list = edges.filter(p);
    let found = resolved_dependents(edges, list);
    if found.contains(x) {
        let i = choose|i: int| 0 <= i < found.len() && found[i] == x;
        assert(list.contains(list[i]));
        let k = choose|k: int| 0 <= k < edges.len() && edges[k] == list[i];
        assert(p(edges[k]));
    }
    if exists|k: int| 0 <= k < edges.len() && p(#[trigger] edges[k]) && resolved(edges, edges[k].dependent) == x {
        let k = choose|k: int| 0 <= k < edges.len() && p(#[trigger] edges[k]) && resolved(edges, edges[k].dependent) == x;
        assert(edges.contains(edges[k]));
        assert(list.contains(edges[k]));
        let i = choose|i: int| 0 <= i < list.len() && list[i] == edges[k];
        assert(found[i] == x);
    }
}

/// The views that read a relation are those from which an edge of a view leads to
/// it, each by its name of now.
pub proof fn law_readers_of_a_relation(edges: Seq<DependencyEdgeView>, id: ObjectIdView, x: ObjectIdView)
    ensures
        resolved_dependents(edges, view_references(edges, id)).contains(x) <==> exists|k: int|
            0 <= k < edges.len() && (#[trigger] edges[k]).kind is ViewDependency && leads_to(edges, edges[k], id) && resolved(edges, edges[k].dependent)
                == x,
{
    let p = |e: DependencyEdgeView| e.kind is ViewDependency && refers_to(edges, e, id);
    lemma_dependents(edges, p, x);
    lemma_same_answer(edges, p, |e: DependencyEdgeView| e.kind is ViewDependency && leads_to(edges, e, id), x);
}

/// The indexes of a relation are those from which an edge of an index leads to
/// it.
pub proof fn law_indexes_of_a_relation(edges: Seq<DependencyEdgeView>, id: ObjectIdView, x: ObjectIdView)
    ensures
        resolved_dependents(edges, index_references(edges, id)).contains(x) <==> exists|k: int|
            0 <= k < edges.len() && (#[trigger] edges[k]).kind is IndexOnRelation && leads_to(edges, edges[k], id) && resolved(edges, edges[k].dependent)
                == x,
{
    let p = |e: DependencyEdgeView| e.kind is IndexOnRelation && refers_to(edges, e, id);
    lemma_dependents(edges, p, x);
    lemma_same_answer(edges, p, |e: DependencyEdgeView| e.kind is IndexOnRelation && leads_to(edges, e, id), x);
}

/// The partitions of a relation are those from which an edge of a partition leads
/// to it.
pub proof fn law_partitions_of_a_relation(edges: Seq<DependencyEdgeView>, id: ObjectIdView, x: ObjectIdView)
    ensures
        resolved_dependents(edges, partition_references(edges, id)).contains(x) <==> exists|k: int|
            0 <= k < edges.len() && (#[trigger] edges[k]).kind is PartitionOf && leads_to(edges, edges[k], id) && resolved(edges, edges[k].dependent) == x,
{
    let p = |e: DependencyEdgeView| e.kind is PartitionOf && refers_to(edges, e, id);
    lemma_dependents(edges, p, x);
    lemma_same_answer(edges, p, |e: DependencyEdgeView| e.kind is PartitionOf && leads_to(edges, e, id), x);
}

proof fn lemma_same_answer(edges: Seq<DependencyEdgeView>, p: spec_fn(DependencyEdgeView) -> bool, q: spec_fn(DependencyEdgeView) -> bool, x: ObjectIdView)
    requires
        forall|k: int| 0 <= k < edges.len() ==> p(#[trigger] edges[k]) == q(edges[k]),
    ensures
        (exists|k: int| 0 <= k < edges.len() && p(#[trigger] edges[k]) && resolved(edges, edges[k].dependent) == x) <==> (exists|k: int|
            0 <= k < edges.len() && q(#[trigger] edges[k]) && resolved(edges, edges[k].dependent) == x),
{
}

/// The foreign keys into a relation are the edges of foreign keys that lead to
/// it, in their order.
pub proof fn law_keys_into_a_relation(edges: Seq<DependencyEdgeView>, id: ObjectIdView, e: DependencyEdgeView)
    ensures
        fk_references(edges, id).contains(e) <==> edges.contains(e) && e.kind is ForeignKey && leads_to(edges, e, id),
{
    let p = |x: DependencyEdgeView| x.kind is ForeignKey && refers_to(edges, x, id);
    lemma_filtered(edges, p);
    assert(fk_references(edges, id) == edges.filter(p));
}

/// What a drop cascades along: views, indexes, foreign keys, children and
/// partitions that lead to the object under the name that it has now, and nothing
/// else.
pub proof fn law_what_a_drop_cascades_along(edges: Seq<DependencyEdgeView>, id: ObjectIdView, e: DependencyEdgeView)
    ensures
        cascade_of(edges, id).contains(e) <==> edges.contains(e) && (e.kind is ViewDependency || e.kind is IndexOnRelation || e.kind is ForeignKey
            || e.kind is InheritanceOf || e.kind is PartitionOf) && resolved(edges, e.referenced) == resolved(edges, id),
{
    let p = |x: DependencyEdgeView| cascades_from(edges, x, resolved(edges, id));
    lemma_filtered(edges, p);
    assert(cascade_of(edges, id) == edges.filter(p));
}

// ---------------------------------------------------------------------------
// Partitions
// ---------------------------------------------------------------------------

/// Whether one relation is a partition of another one, by the first edge that
/// makes it a partition.
pub open spec fn is_child_of(edges: Seq<DependencyEdgeView>, child: ObjectIdView, parent: ObjectIdView) -> bool {
    exists|k: int|
        0 <= k < edges.len() && (#[trigger] edges[k]).kind is PartitionOf && resolved(edges, edges[k].dependent) == child && resolved(
            edges,
            edges[k].referenced,
        ) == parent && forall|j: int| 0 <= j < k ==> !((#[trigger] edges[j]).kind is PartitionOf && resolved(edges, edges[j].dependent) == child)
}

proof fn lemma_first(edges: Seq<DependencyEdgeView>, id: ObjectIdView, from: int, k: int)
    requires
        0 <= from <= k < edges.len(),
        edges[k].kind is PartitionOf,
        resolved(edges, edges[k].dependent) == id,
        forall|j: int| from <= j < k ==> !((#[trigger] edges[j]).kind is PartitionOf && resolved(edges, edges[j].dependent) == id),
    ensures
        crate::graph::first_partition(edges, id, from) == k,
    decreases k - from,
{
    if from < k {
        lemma_first(edges, id, from + 1, k);
    }
}

/// A relation cannot become a partition of itself, of its own partition, or of a
/// partition of its partition.
pub proof fn law_partition_closes_no_cycle(edges: Seq<DependencyEdgeView>, parent: ObjectIdView, child: ObjectIdView, between: ObjectIdView)
    ensures
        resolved(edges, parent) == resolved(edges, child) ==> would_close_cycle(edges, parent, child),
        is_child_of(edges, resolved(edges, parent), resolved(edges, child)) ==> would_close_cycle(edges, parent, child),
        is_child_of(edges, resolved(edges, parent), between) && is_child_of(edges, between, resolved(edges, child)) ==> would_close_cycle(
            edges,
            parent,
            child,
        ),
        (forall|k: int|
            0 <= k < edges.len() ==> !((#[trigger] edges[k]).kind is PartitionOf && resolved(edges, edges[k].dependent) == resolved(edges, parent)))
            && resolved(edges, parent) != resolved(edges, child) ==> !would_close_cycle(edges, parent, child),
{
    let p = resolved(edges, parent);
    let c = resolved(edges, child);
    assert(crate::graph::partition_ancestor(edges, p, 0) == Some(p));
    assert(crate::graph::partition_ancestor(edges, p, 1) == partition_parent(edges, p));
    if is_child_of(edges, p, c) {
        lemma_child(edges, p, c);
    }
    if is_child_of(edges, p, between) && is_child_of(edges, between, c) {
        lemma_child(edges, p, between);
        lemma_child(edges, between, c);
        assert(crate::graph::partition_ancestor(edges, p, 2) == Some(c));
    }
    if (forall|k: int| 0 <= k < edges.len() ==> !((#[trigger] edges[k]).kind is PartitionOf && resolved(edges, edges[k].dependent) == p)) && p != c {
        lemma_no_parent(edges, p, 0);
        assert forall|n: nat| #[trigger] crate::graph::partition_ancestor(edges, p, n) != Some(c) by {
            lemma_no_ancestor(edges, p, n);
        }
        assert(crate::graph::ancestry_ends(edges, p));
    }
}

proof fn lemma_child(edges: Seq<DependencyEdgeView>, child: ObjectIdView, parent: ObjectIdView)
    requires
        is_child_of(edges, child, parent),
    ensures
        partition_parent(edges, child) == Some(parent),
{
    let k = choose|k: int|
        0 <= k < edges.len() && (#[trigger] edges[k]).kind is PartitionOf && resolved(edges, edges[k].dependent) == child && resolved(
            edges,
            edges[k].referenced,
        ) == parent && forall|j: int| 0 <= j < k ==> !((#[trigger] edges[j]).kind is PartitionOf && resolved(edges, edges[j].dependent) == child);
    lemma_first(edges, child, 0, k);
}

proof fn lemma_no_parent(edges: Seq<DependencyEdgeView>, id: ObjectIdView, from: int)
    requires
        0 <= from <= edges.len(),
        forall|k: int| 0 <= k < edges.len() ==> !((#[trigger] edges[k]).kind is PartitionOf && resolved(edges, edges[k].dependent) == id),
    ensures
        crate::graph::first_partition(edges, id, from) == edges.len(),
    decreases edges.len() - from,
{
    if from < edges.len() {
        assert(!(edges[from].kind is PartitionOf && resolved(edges, edges[from].dependent) == id));
        lemma_no_parent(edges, id, from + 1);
    }
}

proof fn lemma_no_ancestor(edges: Seq<DependencyEdgeView>, id: ObjectIdView, n: nat)
    requires
        partition_parent(edges, id) is None,
    ensures
        n > 0 ==> crate::graph::partition_ancestor(edges, id, n) is None,
    decreases n,
{
    if n > 0 {
        lemma_no_ancestor(edges, id, (n - 1) as nat);
    }
}

} // verus!
