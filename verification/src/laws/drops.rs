//! `DROP` statements: what is still needed is not dropped, and what falls with a
//! drop falls.
use crate::cache::CatalogFamily;
use crate::collections::{lemma_filter_all, lemma_filtered};
use crate::evidence::{EvidenceCode, EvidenceScope};
use crate::graph::{resolved, DependencyEdgeView, DependencyKindView};
use crate::identifiers::ObjectIdView;
use crate::laws::{at, lemma_on_objects};
use crate::model::relation::RelationKind;
use crate::mutations::{DropTable, Mutation};
use crate::reach::path;
use crate::state::apply::{applied, object_effect};
use crate::state::apply_sequence::distrusted_if;
use crate::state::apply_view_index::{
    accepted_relations, family_cascade, family_dropped, family_without, first_undroppable, namespace_without_relations, unknown_relation_before,
};
use crate::state::cascade::{
    cascade_for, constraints_removed, dropped_with, drops_along, edge_is_current, falls_with, is_key_into, law_cascade_is_closed, CascadeView,
};
use crate::state::drop_table::{
    closure_has_unknown, depends_on_dropped, drop_closure, drop_roots, drop_targets, edge_outlives, first_table_stop, has_dependents,
    namespace_without_tables, publications_without, table_names_checked, tables_removed, targets_dropped, unknown_table_before,
};
use crate::state::journal::{tainted, tainted_if, undone};
use crate::state::lookup::{relation_lookup, RelationFilter};
use crate::state::{AnalysisStateView, MutationResultView, ObjectLookup, StateData};
use vstd::prelude::*;

verus! {

/// The names that a statement drops views or materialized views by.
pub open spec fn dropped_views(m: Mutation) -> Seq<ObjectIdView> {
    match m {
        Mutation::DropView(x) => x.ids.deep_view(),
        Mutation::DropMaterializedView(x) => x.ids.deep_view(),
        _ => Seq::empty(),
    }
}

pub open spec fn drops_cascading(m: Mutation) -> bool {
    match m {
        Mutation::DropView(x) => x.cascade,
        Mutation::DropMaterializedView(x) => x.cascade,
        _ => false,
    }
}

/// Whether a name is one of a view of the kind that a statement drops.
pub open spec fn is_droppable_view(d: StateData, m: Mutation, id: ObjectIdView) -> bool {
    at(d.relations, id) is Some && match m {
        Mutation::DropView(_) => at(d.relations, id)->0.kind == RelationKind::View,
        Mutation::DropMaterializedView(_) => at(d.relations, id)->0.kind == RelationKind::MaterializedView,
        _ => false,
    }
}

/// Whether an edge says that a view which is not one of `ids` reads one of them.
pub open spec fn reads_from_outside(d: StateData, e: DependencyEdgeView, ids: Seq<ObjectIdView>) -> bool {
    e.kind is ViewDependency && ids.contains(resolved(d.graph, e.referenced)) && !ids.contains(resolved(d.graph, e.dependent))
}

proof fn lemma_nothing_stops(d: StateData, ids: Seq<ObjectIdView>, filter: RelationFilter, if_exists: bool, i: nat)
    requires
        i <= ids.len(),
        forall|k: int| 0 <= k < ids.len() ==> relation_lookup(d, #[trigger] ids[k], filter) == ObjectLookup::Present,
    ensures
        first_undroppable(d, ids, filter, if_exists, i) == ids.len(),
    decreases ids.len() - i,
{
    if i < ids.len() {
        assert(relation_lookup(d, ids[i as int], filter) == ObjectLookup::Present);
        lemma_nothing_stops(d, ids, filter, if_exists, i + 1);
    }
}

/// What dropping views that are all there leads to.
proof fn lemma_views_dropped(s: AnalysisStateView, m: Mutation, c: Option<CascadeView>, t: AnalysisStateView, r: MutationResultView)
    requires
        applied(s, m, c, t, r),
        !s.aborted || r is Applied,
        m is DropView || m is DropMaterializedView,
        dropped_views(m).len() > 0,
        forall|i: int| 0 <= i < dropped_views(m).len() ==> is_droppable_view(s.data, m, #[trigger] dropped_views(m)[i]),
    ensures
        (t.data, r) == family_dropped(s.data, dropped_views(m), drops_cascading(m)),
{
    lemma_on_objects(s, m, c, t, r);
    reveal(object_effect);
    let d = s.data;
    let ids = dropped_views(m);
    let filter = if m is DropView {
        RelationFilter::View
    } else {
        RelationFilter::MaterializedView
    };
    assert forall|i: int| 0 <= i < ids.len() implies relation_lookup(d, #[trigger] ids[i], filter) == ObjectLookup::Present by {
        assert(is_droppable_view(d, m, ids[i]));
    }
    let if_exists = match m {
        Mutation::DropView(x) => x.if_exists,
        Mutation::DropMaterializedView(x) => x.if_exists,
        _ => false,
    };
    lemma_nothing_stops(d, ids, filter, if_exists, 0);
    lemma_filter_all(ids, |id: ObjectIdView| relation_lookup(d, id, filter) == ObjectLookup::Present);
    assert(accepted_relations(d, ids, filter) == ids);
    assert(!unknown_relation_before(d, ids, filter, ids.len()));
}

/// Without `CASCADE`, views that are there are dropped exactly where no other
/// view reads them; else there is a conflict that changes nothing. With
/// `CASCADE` they are always dropped.
pub proof fn law_view_that_is_read_stays(s: AnalysisStateView, m: Mutation, c: Option<CascadeView>, t: AnalysisStateView, r: MutationResultView)
    requires
        applied(s, m, c, t, r),
        !s.aborted,
        m is DropView || m is DropMaterializedView,
        dropped_views(m).len() > 0,
        forall|i: int| 0 <= i < dropped_views(m).len() ==> is_droppable_view(s.data, m, #[trigger] dropped_views(m)[i]),
    ensures
        drops_cascading(m) ==> r is Applied,
        !drops_cascading(m) && (exists|i: int| 0 <= i < s.data.graph.len() && reads_from_outside(s.data, #[trigger] s.data.graph[i], dropped_views(m)))
            ==> r is Conflict && t.data == s.data,
        !drops_cascading(m) && (forall|i: int| 0 <= i < s.data.graph.len() ==> !reads_from_outside(s.data, #[trigger] s.data.graph[i], dropped_views(m)))
            ==> r is Applied,
{
    lemma_views_dropped(s, m, c, t, r);
    reveal(family_dropped);
}

/// Views that were dropped are gone, and no edge leads to one or from one.
/// Without `CASCADE` every other relation is as it was.
pub proof fn law_dropped_views_are_gone(s: AnalysisStateView, m: Mutation, c: Option<CascadeView>, t: AnalysisStateView, r: MutationResultView, id: ObjectIdView, k: int)
    requires
        applied(s, m, c, t, r),
        r is Applied,
        m is DropView || m is DropMaterializedView,
        dropped_views(m).len() > 0,
        forall|i: int| 0 <= i < dropped_views(m).len() ==> is_droppable_view(s.data, m, #[trigger] dropped_views(m)[i]),
        forall|i: int| 0 <= i < dropped_views(m).len() ==> resolved(s.data.graph, #[trigger] dropped_views(m)[i]) == dropped_views(m)[i],
    ensures
        dropped_views(m).contains(id) ==> at(t.data.relations, id) is None,
        !drops_cascading(m) && !dropped_views(m).contains(id) ==> at(t.data.relations, id) == at(s.data.relations, id),
        at(s.data.relations, id) is None ==> at(t.data.relations, id) is None,
        at(t.data.relations, id) is Some ==> at(t.data.relations, id) == at(s.data.relations, id),
        0 <= k < t.data.graph.len() && dropped_views(m).contains(id) ==> resolved(s.data.graph, t.data.graph[k].dependent) != id && resolved(
            s.data.graph,
            t.data.graph[k].referenced,
        ) != id,
        t.data.sequences == s.data.sequences,
        t.data.schemas == s.data.schemas,
{
    lemma_views_dropped(s, m, c, t, r);
    reveal(family_dropped);
    let ids = dropped_views(m);
    let fallen = family_cascade(s.data, ids, drops_cascading(m));
    if ids.contains(id) {
        let j = choose|j: int| 0 <= j < ids.len() && ids[j] == id;
        assert(ids.to_set().contains(id));
        if drops_cascading(m) {
            lemma_roots_fall(s.data, ids.to_set(), id);
        }
        assert(fallen.relations.contains(id));
        assert(is_droppable_view(s.data, m, ids[j]));
    }
    assert(!ids.contains(id) ==> !ids.to_set().contains(id));
    lemma_family_without(s.data, fallen, drops_cascading(m), id, k);
}

/// With `CASCADE` the views that read what falls fall too, as do the children
/// and partitions of what falls; an edge of an object that was dropped since
/// says nothing.
pub proof fn law_cascade_reaches_what_reads(s: AnalysisStateView, m: Mutation, c: Option<CascadeView>, t: AnalysisStateView, r: MutationResultView, k: int)
    requires
        applied(s, m, c, t, r),
        r is Applied,
        m is DropView || m is DropMaterializedView,
        drops_cascading(m),
        dropped_views(m).len() > 0,
        forall|i: int| 0 <= i < dropped_views(m).len() ==> is_droppable_view(s.data, m, #[trigger] dropped_views(m)[i]),
        0 <= k < s.data.graph.len(),
        s.data.graph[k].kind is ViewDependency || s.data.graph[k].kind is PartitionOf || s.data.graph[k].kind is InheritanceOf,
        is_of_this_generation(s.data, s.data.graph[k]),
        ({
            let referenced = resolved(s.data.graph, s.data.graph[k].referenced);
            ||| exists|i: int| 0 <= i < dropped_views(m).len() && resolved(s.data.graph, #[trigger] dropped_views(m)[i]) == referenced
            ||| at(s.data.relations, referenced) is Some && at(t.data.relations, referenced) is None
        }),
    ensures
        at(t.data.relations, resolved(s.data.graph, s.data.graph[k].dependent)) is None,
{
    lemma_views_dropped(s, m, c, t, r);
    reveal(family_dropped);
    let d = s.data;
    let ids = dropped_views(m);
    let e = d.graph[k];
    let fallen = cascade_for(d, ids.to_set());
    let referenced = resolved(d.graph, e.referenced);
    let dependent = resolved(d.graph, e.dependent);
    lemma_family_without(d, fallen, true, referenced, 0);
    lemma_family_without(d, fallen, true, dependent, 0);
    assert(d.graph.contains(e));
    assert(ids.to_set().contains(ids[0]));
    law_cascade_is_closed(d, ids.to_set(), ids[0], e);
    if exists|i: int| 0 <= i < ids.len() && resolved(d.graph, #[trigger] ids[i]) == referenced {
        let i = choose|i: int| 0 <= i < ids.len() && resolved(d.graph, #[trigger] ids[i]) == referenced;
        assert(ids.to_set().contains(ids[i]));
        law_cascade_is_closed(d, ids.to_set(), ids[i], e);
    }
    lemma_current(d, e);
}

/// Whether an edge of a view belongs to the view that stands under its name, as
/// far as that is known.
pub open spec fn is_of_this_generation(d: StateData, e: DependencyEdgeView) -> bool {
    match e.kind {
        DependencyKindView::ViewDependency { view_generation, .. } => !d.relations.dom().contains(resolved(d.graph, e.dependent)) || (at(
            d.relations,
            resolved(d.graph, e.dependent),
        ) is Some && at(d.relations, resolved(d.graph, e.dependent))->0.generation == view_generation),
        DependencyKindView::ForeignKey { from_generation, .. } => !d.relations.dom().contains(resolved(d.graph, e.dependent)) || (at(
            d.relations,
            resolved(d.graph, e.dependent),
        ) is Some && at(d.relations, resolved(d.graph, e.dependent))->0.generation == from_generation),
        _ => true,
    }
}

proof fn lemma_current(d: StateData, e: DependencyEdgeView)
    requires
        e.kind is ViewDependency || e.kind is PartitionOf || e.kind is InheritanceOf || e.kind is ForeignKey,
    ensures
        edge_is_current(d, e) == is_of_this_generation(d, e),
{
}

pub(crate) proof fn lemma_roots_fall(d: StateData, roots: Set<ObjectIdView>, id: ObjectIdView)
    requires
        roots.contains(id),
        resolved(d.graph, id) == id,
    ensures
        cascade_for(d, roots).relations.contains(id),
{
    reveal(cascade_for);
    crate::reach::lemma_roots_reachable(|a: ObjectIdView| dropped_with(d, a), seq![id], 0);
    assert(falls_with(d, id, id));
}

/// The relations and edges after views fell.
pub(crate) proof fn lemma_family_without(d: StateData, c: CascadeView, cascade: bool, id: ObjectIdView, k: int)
    ensures
        ({
            let after = family_without(d, c, cascade);
            &&& c.relations.contains(id) ==> at(after.relations, id) is None
            &&& !c.relations.contains(id) ==> at(after.relations, id) == at(d.relations, id)
            &&& 0 <= k < after.graph.len() ==> {
                let e = after.graph[k];
                &&& !c.relations.contains(resolved(d.graph, e.dependent))
                &&& !c.relations.contains(resolved(d.graph, e.referenced))
                &&& !c.indexes.contains(resolved(d.graph, e.dependent))
                &&& d.graph.contains(e)
            }
            &&& after.sequences == d.sequences
            &&& after.schemas == d.schemas
        }),
{
    reveal(family_without);
    reveal(constraints_removed);
    reveal(distrusted_if);
    reveal(namespace_without_relations);
    reveal(undone);
    let after = family_without(d, c, cascade);
    let d1 = constraints_removed(distrusted_if(d, cascade && crate::state::apply_schema::reaches_unmodeled(d, c)), c);
    let p = |e: DependencyEdgeView| !crate::state::apply_view_index::edge_falls(d1, e, c);
    assert(after.graph == d.graph.filter(p));
    lemma_filtered(d.graph, p);
    if 0 <= k < after.graph.len() {
        assert(d.graph.filter(p).contains(after.graph[k]));
    }
}

/// What falls with `CASCADE` falls for a reason: it was named, or an edge says
/// that it reads, inherits from or is a partition of another relation.
pub proof fn law_nothing_falls_without_reason(s: AnalysisStateView, m: Mutation, c: Option<CascadeView>, t: AnalysisStateView, r: MutationResultView, id: ObjectIdView)
    requires
        applied(s, m, c, t, r),
        r is Applied,
        m is DropView || m is DropMaterializedView,
        dropped_views(m).len() > 0,
        forall|i: int| 0 <= i < dropped_views(m).len() ==> is_droppable_view(s.data, m, #[trigger] dropped_views(m)[i]),
        at(s.data.relations, id) is Some,
        at(t.data.relations, id) is None,
    ensures
        ({
            ||| dropped_views(m).contains(id)
            ||| exists|i: int| 0 <= i < dropped_views(m).len() && resolved(s.data.graph, #[trigger] dropped_views(m)[i]) == id
            ||| drops_cascading(m) && exists|k: int| 0 <= k < s.data.graph.len() && hangs_on_another(s.data, #[trigger] s.data.graph[k], id)
        }),
{
    lemma_views_dropped(s, m, c, t, r);
    reveal(family_dropped);
    let ids = dropped_views(m);
    let fallen = family_cascade(s.data, ids, drops_cascading(m));
    lemma_family_without(s.data, fallen, drops_cascading(m), id, 0);
    assert(fallen.relations.contains(id));
    if drops_cascading(m) {
        lemma_reason(s.data, ids.to_set(), id);
        if exists|root: ObjectIdView| #[trigger] ids.to_set().contains(root) && resolved(s.data.graph, root) == id {
            let root = choose|root: ObjectIdView| #[trigger] ids.to_set().contains(root) && resolved(s.data.graph, root) == id;
            let j = choose|j: int| 0 <= j < ids.len() && ids[j] == root;
            assert(resolved(s.data.graph, ids[j]) == id);
        }
    }
}

/// Whether an edge makes a relation fall with another one.
pub open spec fn hangs_on_another(d: StateData, e: DependencyEdgeView, id: ObjectIdView) -> bool {
    &&& e.kind is ViewDependency || e.kind is PartitionOf || e.kind is InheritanceOf
    &&& is_of_this_generation(d, e)
    &&& resolved(d.graph, e.dependent) == id
}

proof fn lemma_last_step(d: StateData, from: ObjectIdView, to: ObjectIdView, n: nat)
    requires
        path(|a: ObjectIdView| dropped_with(d, a), from, to, n),
        from != to,
    ensures
        exists|k: int| 0 <= k < d.graph.len() && hangs_on_another(d, #[trigger] d.graph[k], to),
    decreases n,
{
    let next = |a: ObjectIdView| dropped_with(d, a);
    let i = choose|i: int| 0 <= i < next(from).len() && path(next, #[trigger] next(from)[i], to, (n - 1) as nat);
    if next(from)[i] == to {
        let p = |e: DependencyEdgeView| drops_along(d, e, from);
        let list = d.graph.filter(p);
        lemma_filtered(d.graph, p);
        assert(list.contains(list[i]));
        let k = choose|k: int| 0 <= k < d.graph.len() && d.graph[k] == list[i];
        lemma_current(d, d.graph[k]);
        assert(hangs_on_another(d, d.graph[k], to));
    } else {
        lemma_last_step(d, next(from)[i], to, (n - 1) as nat);
    }
}

proof fn lemma_reason(d: StateData, roots: Set<ObjectIdView>, id: ObjectIdView)
    requires
        cascade_for(d, roots).relations.contains(id),
    ensures
        (exists|root: ObjectIdView| #[trigger] roots.contains(root) && resolved(d.graph, root) == id) || exists|k: int|
            0 <= k < d.graph.len() && hangs_on_another(d, #[trigger] d.graph[k], id),
{
    reveal(cascade_for);
    let next = |a: ObjectIdView| dropped_with(d, a);
    let root = choose|root: ObjectIdView| #[trigger] roots.contains(root) && falls_with(d, root, id);
    let from = seq![resolved(d.graph, root)];
    let (i, n) = choose|i: int, n: nat| 0 <= i < from.len() && #[trigger] path(next, from[i], id, n);
    if resolved(d.graph, root) != id {
        lemma_last_step(d, resolved(d.graph, root), id, n);
    }
}

// ---------------------------------------------------------------------------
// Tables
// ---------------------------------------------------------------------------

/// Whether the catalog shows all that depends on a table.
pub open spec fn dependents_are_known(d: StateData) -> bool {
    d.baseline_coverage.families.contains(CatalogFamily::Dependencies) && d.baseline_schemas is None
}

/// Whether every table that is to be dropped is there, under its current name.
pub open spec fn tables_are_there(d: StateData, ids: Seq<ObjectIdView>) -> bool {
    &&& ids.len() > 0
    &&& forall|i: int| 0 <= i < ids.len() ==> at(d.relations, #[trigger] ids[i]) is Some && at(d.relations, ids[i])->0.kind == RelationKind::Table
    &&& forall|i: int| 0 <= i < ids.len() ==> resolved(d.graph, #[trigger] ids[i]) == ids[i]
}

/// Whether an edge says that another relation needs one of the tables: a view
/// that reads it, a foreign key into it, a child or a partition of it.
pub open spec fn needs_from_outside(d: StateData, e: DependencyEdgeView, ids: Seq<ObjectIdView>) -> bool {
    &&& e.kind is ViewDependency || e.kind is ForeignKey || e.kind is InheritanceOf || e.kind is PartitionOf
    &&& is_of_this_generation(d, e)
    &&& ids.contains(resolved(d.graph, e.referenced))
    &&& !ids.contains(resolved(d.graph, e.dependent))
}

proof fn lemma_no_table_stops(d: StateData, ids: Seq<ObjectIdView>, if_exists: bool, i: nat)
    requires
        i <= ids.len(),
        forall|k: int| 0 <= k < ids.len() ==> relation_lookup(d, #[trigger] ids[k], RelationFilter::Table) == ObjectLookup::Present,
    ensures
        first_table_stop(d, ids, if_exists, i) == ids.len(),
    decreases ids.len() - i,
{
    if i < ids.len() {
        assert(relation_lookup(d, ids[i as int], RelationFilter::Table) == ObjectLookup::Present);
        lemma_no_table_stops(d, ids, if_exists, i + 1);
    }
}

/// What dropping tables that are all there leads to.
proof fn lemma_tables_dropped(s: AnalysisStateView, drop: DropTable, c: Option<CascadeView>, t: AnalysisStateView, r: MutationResultView)
    requires
        applied(s, Mutation::DropTable(drop), c, t, r),
        !s.aborted || r is Applied,
        tables_are_there(s.data, drop.ids.deep_view()),
        dependents_are_known(s.data),
    ensures
        (t.data, r) == targets_dropped(s.data, drop.ids.deep_view(), drop.ids.deep_view(), drop.cascade, c),
        drop_roots(s.data, drop.ids.deep_view()) == drop.ids.deep_view().to_set(),
{
    lemma_on_objects(s, Mutation::DropTable(drop), c, t, r);
    reveal(object_effect);
    reveal(table_names_checked);
    let d = s.data;
    let ids = drop.ids.deep_view();
    assert forall|i: int| 0 <= i < ids.len() implies relation_lookup(d, #[trigger] ids[i], RelationFilter::Table) == ObjectLookup::Present by {}
    lemma_no_table_stops(d, ids, drop.if_exists, 0);
    lemma_filter_all(ids, |id: ObjectIdView| relation_lookup(d, id, RelationFilter::Table) == ObjectLookup::Present);
    assert(drop_targets(d, ids) == ids);
    assert(!unknown_table_before(d, ids, ids.len()));
    assert(ids.map_values(|id: ObjectIdView| resolved(d.graph, id)) =~= ids);
}

/// Without `CASCADE`, tables that are there are dropped exactly where no other
/// relation needs them; else there is a conflict that changes nothing. With
/// `CASCADE` they are always dropped.
pub proof fn law_table_that_is_needed_stays(s: AnalysisStateView, drop: DropTable, c: Option<CascadeView>, t: AnalysisStateView, r: MutationResultView)
    requires
        applied(s, Mutation::DropTable(drop), c, t, r),
        !s.aborted,
        tables_are_there(s.data, drop.ids.deep_view()),
        dependents_are_known(s.data),
    ensures
        drop.cascade ==> r is Applied,
        !drop.cascade && (exists|i: int| 0 <= i < s.data.graph.len() && needs_from_outside(s.data, #[trigger] s.data.graph[i], drop.ids.deep_view()))
            ==> r is Conflict && t.data == s.data,
        !drop.cascade && (forall|i: int| 0 <= i < s.data.graph.len() ==> !needs_from_outside(s.data, #[trigger] s.data.graph[i], drop.ids.deep_view()))
            ==> r is Applied,
{
    lemma_tables_dropped(s, drop, c, t, r);
    reveal(targets_dropped);
    let d = s.data;
    let ids = drop.ids.deep_view();
    let roots = drop_roots(d, ids);
    assert forall|i: int| 0 <= i < d.graph.len() implies depends_on_dropped(d, #[trigger] d.graph[i], roots) == needs_from_outside(d, d.graph[i], ids) by {
        let e = d.graph[i];
        if e.kind is ViewDependency || e.kind is ForeignKey || e.kind is InheritanceOf || e.kind is PartitionOf {
            lemma_current(d, e);
        }
        assert(roots.contains(resolved(d.graph, e.referenced)) == ids.contains(resolved(d.graph, e.referenced)));
        assert(roots.contains(resolved(d.graph, e.dependent)) == ids.contains(resolved(d.graph, e.dependent)));
    }
    if has_dependents(d, roots) {
        let i = choose|i: int| 0 <= i < d.graph.len() && depends_on_dropped(d, #[trigger] d.graph[i], roots);
        assert(needs_from_outside(d, d.graph[i], ids));
    }
    if exists|i: int| 0 <= i < d.graph.len() && needs_from_outside(d, #[trigger] d.graph[i], ids) {
        let i = choose|i: int| 0 <= i < d.graph.len() && needs_from_outside(d, #[trigger] d.graph[i], ids);
        assert(depends_on_dropped(d, d.graph[i], roots));
    }
}

/// Tables that were dropped are gone, as are their constraints, the sequences
/// that their columns own, their triggers, and every edge from them or to them.
/// Without `CASCADE` every other relation, and what belongs to it, is as it was.
pub proof fn law_dropped_tables_are_gone(
    s: AnalysisStateView,
    drop: DropTable,
    c: Option<CascadeView>,
    t: AnalysisStateView,
    r: MutationResultView,
    i: int,
    other: ObjectIdView,
    name: Seq<char>,
    k: int,
)
    requires
        applied(s, Mutation::DropTable(drop), c, t, r),
        r is Applied,
        tables_are_there(s.data, drop.ids.deep_view()),
        dependents_are_known(s.data),
        drop.cascade ==> c is None,
        0 <= i < drop.ids.deep_view().len(),
    ensures
        at(t.data.relations, drop.ids.deep_view()[i]) is None,
        !t.data.constraints.dom().contains((drop.ids.deep_view()[i], name)),
        at(s.data.sequences, other) is Some && at(s.data.sequences, other)->0.owned_by is Some && (at(s.data.sequences, other)->0.owned_by->0).0
            == drop.ids.deep_view()[i] ==> at(t.data.sequences, other) is None,
        at(s.data.triggers, other) is Some && at(s.data.triggers, other)->0.table_id == drop.ids.deep_view()[i] ==> at(t.data.triggers, other) is None,
        0 <= k < t.data.graph.len() ==> s.data.graph.contains(t.data.graph[k]) && resolved(s.data.graph, t.data.graph[k].dependent)
            != drop.ids.deep_view()[i] && resolved(s.data.graph, t.data.graph[k].referenced) != drop.ids.deep_view()[i],
        at(t.data.relations, other) is Some ==> at(t.data.relations, other) == at(s.data.relations, other),
        !drop.cascade && !drop.ids.deep_view().contains(other) ==> at(t.data.relations, other) == at(s.data.relations, other),
        !drop.cascade && !drop.ids.deep_view().contains(resolved(s.data.graph, other)) && s.data.constraints.dom().contains((other, name))
            ==> t.data.constraints.dom().contains((other, name)) && t.data.constraints[(other, name)] == s.data.constraints[(other, name)],
        at(s.data.sequences, other) is Some && at(s.data.sequences, other)->0.owned_by is None ==> at(t.data.sequences, other) == at(
            s.data.sequences,
            other,
        ),
        t.data.schemas == s.data.schemas,
        t.data.roles == s.data.roles,
        t.data.functions == s.data.functions,
{
    lemma_tables_dropped(s, drop, c, t, r);
    reveal(targets_dropped);
    reveal(tainted_if);
    reveal(tainted);
    let d = s.data;
    let ids = drop.ids.deep_view();
    let fallen = drop_closure(d, ids, drop.cascade, c);
    let d0 = if drop.cascade {
        tainted_if(d, closure_has_unknown(d, fallen), EvidenceCode::UnknownObjectState, EvidenceScope::Chain)
    } else {
        d
    };
    let id = ids[i];
    assert(ids.to_set().contains(id));
    if drop.cascade {
        lemma_roots_fall(d, ids.to_set(), id);
    }
    assert(fallen.relations.contains(id));
    assert(!ids.contains(other) ==> !ids.to_set().contains(other));
    assert(!ids.contains(resolved(d.graph, other)) ==> !ids.to_set().contains(resolved(d.graph, other)));
    assert(t.data == tables_removed(d0, fallen));
    lemma_tables_removed(d0, fallen, id, other, name, k);
}

/// What is left after tables fell.
proof fn lemma_tables_removed(d: StateData, c: CascadeView, id: ObjectIdView, other: ObjectIdView, name: Seq<char>, k: int)
    requires
        c.relations.contains(id),
        resolved(d.graph, id) == id,
    ensures
        ({
            let after = tables_removed(d, c);
            &&& at(after.relations, id) is None
            &&& !after.constraints.dom().contains((id, name))
            &&& at(d.sequences, other) is Some && at(d.sequences, other)->0.owned_by is Some && (at(d.sequences, other)->0.owned_by->0).0 == id ==> at(
                after.sequences,
                other,
            ) is None
            &&& at(d.triggers, other) is Some && at(d.triggers, other)->0.table_id == id ==> at(after.triggers, other) is None
            &&& 0 <= k < after.graph.len() ==> d.graph.contains(after.graph[k]) && !c.relations.contains(resolved(d.graph, after.graph[k].dependent))
                && !c.relations.contains(resolved(d.graph, after.graph[k].referenced))
            &&& !c.relations.contains(other) ==> at(after.relations, other) == at(d.relations, other)
            &&& c.relations.contains(other) ==> at(after.relations, other) is None
            &&& !c.relations.contains(resolved(d.graph, other)) && !c.constraints.contains((resolved(d.graph, other), name)) && d.constraints.dom().contains(
                (other, name),
            ) ==> after.constraints.dom().contains((other, name)) && after.constraints[(other, name)] == d.constraints[(other, name)]
            &&& at(d.sequences, other) is Some && at(d.sequences, other)->0.owned_by is None ==> at(after.sequences, other) == at(d.sequences, other)
            &&& after.schemas == d.schemas
            &&& after.roles == d.roles
            &&& after.functions == d.functions
        }),
{
    reveal(tables_removed);
    reveal(constraints_removed);
    reveal(namespace_without_tables);
    reveal(publications_without);
    reveal(undone);
    let after = tables_removed(d, c);
    let d1 = constraints_removed(d, c);
    let p = |e: DependencyEdgeView| edge_outlives(d1, e, c);
    assert(after.graph == d.graph.filter(p));
    lemma_filtered(d.graph, p);
    if 0 <= k < after.graph.len() {
        assert(d.graph.filter(p).contains(after.graph[k]));
    }
}

/// With `CASCADE`, the views that read a table that falls fall with it, as do
/// its children and partitions; the foreign keys into it are removed from the
/// tables that have them.
pub proof fn law_cascade_takes_dependents(s: AnalysisStateView, drop: DropTable, t: AnalysisStateView, r: MutationResultView, k: int)
    requires
        applied(s, Mutation::DropTable(drop), None, t, r),
        r is Applied,
        drop.cascade,
        tables_are_there(s.data, drop.ids.deep_view()),
        dependents_are_known(s.data),
        0 <= k < s.data.graph.len(),
        is_of_this_generation(s.data, s.data.graph[k]),
        ({
            let referenced = resolved(s.data.graph, s.data.graph[k].referenced);
            ||| drop.ids.deep_view().contains(referenced)
            ||| at(s.data.relations, referenced) is Some && at(t.data.relations, referenced) is None
        }),
    ensures
        ({
            let e = s.data.graph[k];
            let dependent = resolved(s.data.graph, e.dependent);
            match e.kind {
                DependencyKindView::ViewDependency { .. } => at(t.data.relations, dependent) is None,
                DependencyKindView::InheritanceOf => at(t.data.relations, dependent) is None,
                DependencyKindView::PartitionOf => at(t.data.relations, dependent) is None,
                DependencyKindView::ForeignKey { constraint_name, .. } => constraint_name is Some ==> !t.data.constraints.dom().contains(
                    (dependent, constraint_name->0),
                ) || resolved(s.data.graph, dependent) != dependent,
                _ => true,
            }
        }),
{
    lemma_tables_dropped(s, drop, None, t, r);
    reveal(targets_dropped);
    reveal(tainted_if);
    reveal(tainted);
    let d = s.data;
    let ids = drop.ids.deep_view();
    let fallen = cascade_for(d, ids.to_set());
    let d0 = tainted_if(d, closure_has_unknown(d, fallen), EvidenceCode::UnknownObjectState, EvidenceScope::Chain);
    let e = d.graph[k];
    let dependent = resolved(d.graph, e.dependent);
    let referenced = resolved(d.graph, e.referenced);
    assert(d.graph.contains(e));
    assert(ids.to_set().contains(ids[0]));
    lemma_roots_fall(d, ids.to_set(), ids[0]);
    law_cascade_is_closed(d, ids.to_set(), ids[0], e);
    if ids.contains(referenced) {
        let i = choose|i: int| 0 <= i < ids.len() && ids[i] == referenced;
        assert(ids.to_set().contains(ids[i]));
        law_cascade_is_closed(d, ids.to_set(), ids[i], e);
    }
    assert(t.data == tables_removed(d0, fallen));
    lemma_tables_removed(d0, fallen, ids[0], dependent, Seq::empty(), 0);
    lemma_tables_removed(d0, fallen, ids[0], referenced, Seq::empty(), 0);
    assert(fallen.relations.contains(referenced));
    if e.kind is ViewDependency || e.kind is ForeignKey || e.kind is InheritanceOf || e.kind is PartitionOf {
        lemma_current(d, e);
    }
    match e.kind {
        DependencyKindView::ForeignKey { constraint_name, .. } => {
            if constraint_name is Some && resolved(d.graph, dependent) == dependent {
                reveal(cascade_for);
                assert(is_key_into(d, d.graph[k], fallen.relations));
                assert(fallen.constraints.contains((dependent, constraint_name->0)));
                reveal(tables_removed);
                reveal(constraints_removed);
                reveal(namespace_without_tables);
                reveal(publications_without);
                reveal(undone);
            }
        },
        _ => {},
    }
}

} // verus!
