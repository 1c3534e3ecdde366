//! `DROP COLUMN`: what still needs a column keeps it, and what falls with it
//! falls.
use crate::collections::lemma_filtered;
use crate::graph::{law_without_renames_nothing_resolves, resolved, DependencyEdgeView, DependencyKindView};
use crate::identifiers::ObjectIdView;
use crate::laws::drops::{is_of_this_generation, lemma_family_without};
use crate::laws::{at, column_at, lemma_on_objects};
use crate::model::column::ColumnView;
use crate::mutations::{AlterTable, Mutation};
use crate::state::alter_column::{columns_of, with_columns, with_graph};
use crate::state::alter_table::{action_applied, altered_table_refusal};
use crate::state::apply::{applied, object_effect};
use crate::state::apply_view_index::family_without;
use crate::state::cascade::{cascade_for, constraints_removed, CascadeView};
use crate::state::drop_column::{
    column_drop, drop_refusal, edge_depends, falling_indexes, falling_keys, falling_views, first_generated, generated_column, generated_with,
    is_generated_from, key_falls, key_of, namespace_without_owned, next_generated, owned_sequences, view_falls, without_column,
    without_keys_and_edges, without_stale_edges, without_views, ColumnDropView,
};
use crate::state::journal::{namespace_of, undone, with_namespace};
use crate::state::refusal::{lemma_refused, refused, RefusalView};
use crate::state::{AnalysisStateView, MutationResultView, StateData};
use vstd::prelude::*;

verus! {

/// Whether an edge says that something needs a column of a table: a view that
/// reads it, a foreign key from it or to it, another constraint on it.
pub open spec fn needs_column(d: StateData, e: DependencyEdgeView, table: ObjectIdView, name: Seq<char>) -> bool {
    is_of_this_generation(d, e) && match e.kind {
        DependencyKindView::ViewDependency { referenced_column, .. } => resolved(d.graph, e.referenced) == table && referenced_column == Some(name),
        DependencyKindView::ForeignKey { from_columns, to_columns, .. } => if resolved(d.graph, e.dependent) == table {
            from_columns.contains(name)
        } else {
            resolved(d.graph, e.referenced) == table && to_columns.contains(name)
        },
        DependencyKindView::ConstraintOnRelation { columns, .. } => resolved(d.graph, e.dependent) == table && columns.contains(name),
        DependencyKindView::ConstraintDependency { columns, .. } => resolved(d.graph, e.dependent) == table && columns.contains(name),
        _ => false,
    }
}

/// Without `CASCADE` a column that something needs is not dropped, and nothing of
/// the catalog changes.
pub proof fn law_column_that_is_needed_stays(s: AnalysisStateView, alter: AlterTable, c: Option<CascadeView>, t: AnalysisStateView, r: MutationResultView, k: int)
    requires
        applied(s, Mutation::AlterTable(alter), c, t, r),
        !s.aborted,
        alter.action is DropColumn,
        !alter.action->DropColumn_cascade,
        0 <= k < s.data.graph.len(),
        needs_column(s.data, s.data.graph[k], resolved(s.data.graph, alter.id@), alter.action->DropColumn_name@),
    ensures
        !(r is Applied),
        t.data == (StateData { evidence: t.data.evidence, confidence: t.data.confidence, ..s.data }),
{
    lemma_on_objects(s, Mutation::AlterTable(alter), c, t, r);
    reveal(object_effect);
    reveal(action_applied);
    let d = s.data;
    let id = alter.id@;
    let name = alter.action->DropColumn_name@;
    assert(edge_depends(d, d.graph[k], column_drop(d, id, name, false)));
    assert(drop_refusal(d, id, name, alter.action->DropColumn_if_exists, false) is Some) by {
        reveal(drop_refusal);
    }
    lemma_refused(d, drop_refusal(d, id, name, alter.action->DropColumn_if_exists, false)->0);
    lemma_refusal_changes_nothing(d, drop_refusal(d, id, name, alter.action->DropColumn_if_exists, false)->0);
    if altered_table_refusal(d, id) is Some {
        lemma_refused(d, altered_table_refusal(d, id)->0);
        lemma_refusal_changes_nothing(d, altered_table_refusal(d, id)->0);
    }
}

proof fn lemma_refusal_changes_nothing(d: StateData, refusal: RefusalView)
    ensures
        ({
            let e = refused(d, refusal).0;
            e == (StateData { evidence: e.evidence, confidence: e.confidence, ..d })
        }),
{
    reveal(refused);
    reveal(crate::state::journal::tainted);
    reveal(crate::state::journal::distrusted);
}

/// Whether no identity was ever renamed.
pub open spec fn nothing_was_renamed(d: StateData) -> bool {
    forall|i: int| 0 <= i < d.graph.len() ==> !(#[trigger] d.graph[i].kind is RenameTo)
}

proof fn lemma_dropped(s: AnalysisStateView, alter: AlterTable, c: Option<CascadeView>, t: AnalysisStateView, r: MutationResultView)
    requires
        applied(s, Mutation::AlterTable(alter), c, t, r),
        r is Applied,
        alter.action is DropColumn,
    ensures
        t.data == without_column(
            s.data,
            alter.id@,
            column_drop(s.data, alter.id@, alter.action->DropColumn_name@, alter.action->DropColumn_cascade),
        ),
{
    lemma_on_objects(s, Mutation::AlterTable(alter), c, t, r);
    reveal(object_effect);
    reveal(action_applied);
    let d = s.data;
    let id = alter.id@;
    let refusal = drop_refusal(d, id, alter.action->DropColumn_name@, alter.action->DropColumn_if_exists, alter.action->DropColumn_cascade);
    if refusal is Some {
        lemma_refused(d, refusal->0);
    }
    if altered_table_refusal(d, id) is Some {
        lemma_refused(d, altered_table_refusal(d, id)->0);
    }
}

proof fn lemma_keys_gone(d: StateData, keys: Set<(ObjectIdView, Seq<char>)>, key: (ObjectIdView, Seq<char>))
    requires
        nothing_was_renamed(d),
    ensures
        ({
            let e = without_keys_and_edges(d, keys);
            &&& keys.contains(key) ==> !e.constraints.dom().contains(key)
            &&& nothing_was_renamed(e)
            &&& e.relations == d.relations
        }),
{
    reveal(without_keys_and_edges);
    reveal(constraints_removed);
    reveal(with_graph);
    law_without_renames_nothing_resolves(d.graph, key.0);
    let d1 = constraints_removed(d, CascadeView { relations: Set::empty(), indexes: Set::empty(), constraints: keys });
    let p = |e: DependencyEdgeView| !crate::state::drop_column::is_falling_key_edge(d1, e, keys);
    lemma_filtered(d1.graph, p);
    let e = without_keys_and_edges(d, keys);
    assert(e.graph == d1.graph.filter(p));
    assert forall|i: int| 0 <= i < e.graph.len() implies !(#[trigger] e.graph[i].kind is RenameTo) by {
        assert(d.graph.contains(e.graph[i]));
        let j = choose|j: int| 0 <= j < d.graph.len() && d.graph[j] == e.graph[i];
        assert(!(d.graph[j].kind is RenameTo));
    }
}

proof fn lemma_views_gone(d: StateData, views: Seq<ObjectIdView>, v: ObjectIdView, key: (ObjectIdView, Seq<char>), id: ObjectIdView)
    requires
        nothing_was_renamed(d),
    ensures
        ({
            let e = without_views(d, views);
            &&& views.contains(v) ==> at(e.relations, v) is None
            &&& !d.constraints.dom().contains(key) ==> !e.constraints.dom().contains(key)
            &&& at(e.relations, id) is Some ==> at(e.relations, id) == at(d.relations, id)
        }),
{
    reveal(without_views);
    if views.len() > 0 {
        let roots = views.to_set();
        let fallen = cascade_for(d, roots);
        lemma_family_without(d, fallen, true, v, 0);
        lemma_family_without(d, fallen, true, id, 0);
        law_without_renames_nothing_resolves(d.graph, v);
        if views.contains(v) {
            crate::laws::drops::lemma_roots_fall(d, roots, v);
        }
        lemma_constraints_shrink(d, fallen, key);
    }
}

proof fn lemma_constraints_shrink(d: StateData, fallen: CascadeView, key: (ObjectIdView, Seq<char>))
    ensures
        !d.constraints.dom().contains(key) ==> !family_without(d, fallen, true).constraints.dom().contains(key),
{
    reveal(family_without);
    reveal(constraints_removed);
    reveal(crate::state::apply_sequence::distrusted_if);
    reveal(crate::state::apply_view_index::namespace_without_relations);
    reveal(undone);
}

proof fn lemma_tail(d: StateData, id: ObjectIdView, gone: Set<Seq<char>>, indexes: Set<ObjectIdView>, owned: Set<ObjectIdView>, k: int)
    ensures
        ({
            let d4 = without_stale_edges(d, id, gone, indexes);
            let e = with_namespace(d4, namespace_without_owned(d4, namespace_of(d4), owned));
            &&& e.relations == d.relations
            &&& e.constraints == d.constraints
        }),
{
    reveal(without_stale_edges);
    reveal(with_graph);
    reveal(namespace_without_owned);
    reveal(undone);
}

/// With `CASCADE` the views that read the column fall with it, as do the
/// constraints that need it and the columns that are generated from it. (Said of
/// a catalog in which nothing was renamed, where each name is its own.)
pub proof fn law_cascade_takes_what_needs_the_column(
    s: AnalysisStateView,
    alter: AlterTable,
    c: Option<CascadeView>,
    t: AnalysisStateView,
    r: MutationResultView,
    k: int,
)
    requires
        applied(s, Mutation::AlterTable(alter), c, t, r),
        r is Applied,
        alter.action is DropColumn,
        alter.action->DropColumn_cascade,
        nothing_was_renamed(s.data),
        0 <= k < s.data.graph.len(),
    ensures
        ({
            let e = s.data.graph[k];
            let name = alter.action->DropColumn_name@;
            &&& needs_column(s.data, e, alter.id@, name) && e.kind is ViewDependency ==> at(t.data.relations, e.dependent) is None
            &&& needs_column(s.data, e, alter.id@, name) && e.kind is ForeignKey && e.kind->ForeignKey_constraint_name is Some
                ==> !t.data.constraints.dom().contains((e.dependent, e.kind->ForeignKey_constraint_name->0))
            &&& needs_column(s.data, e, alter.id@, name) && e.kind is ConstraintOnRelation ==> !t.data.constraints.dom().contains(
                (e.dependent, e.kind->ConstraintOnRelation_constraint_name),
            )
            &&& needs_column(s.data, e, alter.id@, name) && e.kind is ConstraintDependency ==> !t.data.constraints.dom().contains(
                (e.dependent, e.kind->ConstraintDependency_constraint_name),
            )
            &&& e.kind is ColumnGeneratedFrom && e.dependent == alter.id@ && e.kind->depends_on_column == name && e.kind->ColumnGeneratedFrom_column != name
                && at(t.data.relations, alter.id@) is Some ==> !column_at(t.data, alter.id@, e.kind->ColumnGeneratedFrom_column)
            &&& at(t.data.relations, alter.id@) is Some ==> !column_at(t.data, alter.id@, name)
        }),
{
    lemma_dropped(s, alter, c, t, r);
    let d = s.data;
    let id = alter.id@;
    let name = alter.action->DropColumn_name@;
    let q = column_drop(d, id, name, true);
    let e = d.graph[k];
    law_without_renames_nothing_resolves(d.graph, id);
    law_without_renames_nothing_resolves(d.graph, e.dependent);
    law_without_renames_nothing_resolves(d.graph, e.referenced);
    assert(d.graph.contains(e));
    let stays = |x: ColumnView| !q.gone().contains(x.name);
    let left = columns_of(d, id).filter(stays);
    let d1 = with_columns(d, id, left);
    let keys = falling_keys(d, q);
    let d2 = without_keys_and_edges(d1, keys);
    let views = falling_views(d, q);
    let d3 = without_views(d2, views);
    let key = (e.dependent, if key_of(e) is Some {
        key_of(e)->0
    } else {
        name
    });
    assert(d1.graph == d.graph && (at(d1.relations, id) is Some ==> at(d1.relations, id)->0.columns == left)) by {
        reveal(with_columns);
    }
    lemma_keys_gone(d1, keys, key);
    lemma_views_gone(d2, views, e.dependent, key, id);
    lemma_tail(d3, id, q.gone(), falling_indexes(d, q), owned_sequences(d, id, q.name), k);
    assert(t.data.relations == d3.relations && t.data.constraints == d3.constraints) by {
        reveal(without_column);
    }
    if needs_column(d, e, id, name) && e.kind is ViewDependency {
        let p = |x: DependencyEdgeView| view_falls(d, x, q);
        lemma_filtered(d.graph, p);
        assert(p(e));
        let list = d.graph.filter(p);
        assert(list.contains(e));
        let i = choose|i: int| 0 <= i < list.len() && list[i] == e;
        assert(views[i] == e.dependent);
    }
    if needs_column(d, e, id, name) && key_of(e) is Some && (e.kind is ForeignKey || e.kind is ConstraintOnRelation || e.kind is ConstraintDependency) {
        lemma_key_falls(d, e, q);
        let p = |x: DependencyEdgeView| key_falls(d, x, q) && key_of(x) is Some;
        lemma_filtered(d.graph, p);
        assert(p(e));
        let list = d.graph.filter(p);
        assert(list.contains(e));
        let i = choose|i: int| 0 <= i < list.len() && list[i] == e;
        let all = list.map_values(|x: DependencyEdgeView| (resolved(d.graph, x.dependent), key_of(x)->0));
        assert(all[i] == key);
        assert(all.to_set().contains(key));
    }
    lemma_filtered(columns_of(d, id), stays);
    if at(t.data.relations, id) is Some {
        assert(at(d1.relations, id) is Some);
        if e.kind is ColumnGeneratedFrom && e.dependent == id && e.kind->depends_on_column == name && e.kind->ColumnGeneratedFrom_column != name {
            lemma_generated(d, id, name, k);
        }
        assert(crate::laws::columns_at(t.data, id) == left);
        assert forall|i: int| 0 <= i < left.len() implies !q.gone().contains((#[trigger] left[i]).name) by {
            assert(stays(columns_of(d, id).filter(stays)[i]));
        }
        assert(q.gone().contains(name));
    }
}

proof fn lemma_key_falls(d: StateData, e: DependencyEdgeView, q: ColumnDropView)
    requires
        needs_column(d, e, q.table, q.name),
        e.kind is ForeignKey || e.kind is ConstraintOnRelation || e.kind is ConstraintDependency,
    ensures
        key_falls(d, e, q),
{
    assert(q.gone().contains(q.name));
    match e.kind {
        DependencyKindView::ForeignKey { from_columns, .. } => {
            if from_columns.contains(q.name) {
                let i = choose|i: int| 0 <= i < from_columns.len() && from_columns[i] == q.name;
                assert(q.gone().contains(from_columns[i]));
            }
        },
        DependencyKindView::ConstraintOnRelation { columns, .. } => {
            let i = choose|i: int| 0 <= i < columns.len() && columns[i] == q.name;
            assert(q.gone().contains(columns[i]));
        },
        DependencyKindView::ConstraintDependency { columns, .. } => {
            let i = choose|i: int| 0 <= i < columns.len() && columns[i] == q.name;
            assert(q.gone().contains(columns[i]));
        },
        _ => {},
    }
}

proof fn lemma_generated(d: StateData, id: ObjectIdView, name: Seq<char>, k: int)
    requires
        0 <= k < d.graph.len(),
        d.graph[k].kind is ColumnGeneratedFrom,
        resolved(d.graph, d.graph[k].dependent) == id,
        d.graph[k].kind->depends_on_column == name,
        d.graph[k].kind->ColumnGeneratedFrom_column != name,
    ensures
        generated_with(d, id, name, true).contains(d.graph[k].kind->ColumnGeneratedFrom_column),
{
    reveal(generated_with);
    let e = d.graph[k];
    let p = |x: DependencyEdgeView| is_generated_from(d, x, id, name);
    lemma_filtered(d.graph, p);
    assert(p(e));
    assert(d.graph.contains(e));
    let list = d.graph.filter(p);
    assert(list.contains(e));
    let i = choose|i: int| 0 <= i < list.len() && list[i] == e;
    let roots = first_generated(d, id, name, true);
    assert(roots[i] == generated_column(e));
    crate::reach::lemma_roots_reachable(|from: Seq<char>| next_generated(d, id, name, from), roots, i);
}

} // verus!
