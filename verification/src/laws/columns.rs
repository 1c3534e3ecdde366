//! `ALTER TABLE` on columns.
use crate::collections::{lemma_filter_same, lemma_filtered};
use crate::graph::{resolved, DependencyEdgeView, DependencyKindView};
use crate::identifiers::ObjectIdView;
use crate::laws::{at, column_at, columns_at, has_edge, lemma_on_objects, same_but};
use crate::model::column::ColumnView;
use crate::model::column_action::{has_column, lemma_column_of};
use crate::model::relation::{RelationKind, RelationStateView};
use crate::mutations::{AlterTable, AlterTableActionMutation, Mutation};
use crate::state::alter_column::{
    column_refusal, columns_of, columns_with, default_changed, edges_with_column, edges_with_default, is_default_edge, namespace_with_column,
    namespace_with_column_renamed, new_column_refusal, new_column_sequence, rename_refusal, sequences_with, with_columns, with_generation, with_graph,
    with_new_column, NewColumnView,
};
use crate::state::alter_table::{action_applied, altered_table_refusal};
use crate::state::apply::{applied, object_effect};
use crate::state::cascade::{constraints_removed, CascadeView};
use crate::state::drop_column::{
    column_drop, drop_refusal, falling_views, generated_with, namespace_without_owned, view_falls, without_column, without_keys_and_edges,
    without_stale_edges, without_views, ColumnDropView,
};
use crate::state::journal::{namespace_of, tainted, tainted_if, undone};
use crate::state::lookup::state_of;
use crate::state::refusal::refused;
use crate::state::sequence_refs::expression_references;
use crate::state::{AnalysisStateView, MutationResultView, StateData};
use vstd::prelude::*;

verus! {

/// Whether nothing but the columns of one table differs.
pub open spec fn only_columns_differ(d: StateData, e: StateData, id: ObjectIdView) -> bool {
    &&& at(d.relations, id) is Some
    &&& at(e.relations, id) == Some(RelationStateView { columns: columns_at(e, id), ..at(d.relations, id)->0 })
    &&& e == StateData { relations: e.relations, ..d }
    &&& same_but(d.relations, e.relations, id)
}

/// Whether the columns of a table are those from before but for one, which is
/// where it was.
pub open spec fn only_column_differs(d: StateData, e: StateData, id: ObjectIdView, name: Seq<char>) -> bool {
    &&& columns_at(e, id).len() == columns_at(d, id).len()
    &&& forall|i: int|
        0 <= i < columns_at(d, id).len() && (#[trigger] columns_at(d, id)[i]).name != name ==> columns_at(e, id)[i] == columns_at(d, id)[i]
}

/// `SET NOT NULL` makes the column not nullable and `DROP NOT NULL` makes it
/// nullable. Nothing else differs: no other field of the column, no other
/// column, and nothing else in the catalog.
pub proof fn law_nullability_is_as_asked(s: AnalysisStateView, alter: AlterTable, c: Option<CascadeView>, t: AnalysisStateView, r: MutationResultView, i: int)
    requires
        applied(s, Mutation::AlterTable(alter), c, t, r),
        r is Applied,
        alter.action is SetNotNull || alter.action is DropNotNull,
        0 <= i < columns_at(s.data, alter.id@).len(),
    ensures
        only_columns_differ(s.data, t.data, alter.id@),
        ({
            let before = columns_at(s.data, alter.id@)[i];
            let after = columns_at(t.data, alter.id@)[i];
            let asked = match alter.action {
                AlterTableActionMutation::SetNotNull { column } => column@,
                AlterTableActionMutation::DropNotNull { column } => column@,
                _ => before.name,
            };
            &&& only_column_differs(s.data, t.data, alter.id@, asked)
            &&& column_at(s.data, alter.id@, asked)
            &&& after == ColumnView { is_nullable: after.is_nullable, ..before }
            &&& alter.action is SetNotNull && before.name == asked ==> !after.is_nullable
            &&& alter.action is DropNotNull && before.name == asked ==> after.is_nullable
        }),
{
    lemma_on_objects(s, Mutation::AlterTable(alter), c, t, r);
    reveal(object_effect);
    reveal(altered_table_refusal);
    reveal(action_applied);
    reveal(refused);
    reveal(column_refusal);
    reveal(with_columns);
}

/// The outcome of an action on a column hangs on whether the table has the
/// column: where the columns are known, it is applied where the column is there
/// and a conflict that changes nothing where it is not.
pub proof fn law_column_must_exist(s: AnalysisStateView, alter: AlterTable, c: Option<CascadeView>, t: AnalysisStateView, r: MutationResultView, column: Seq<char>)
    requires
        applied(s, Mutation::AlterTable(alter), c, t, r),
        !s.aborted,
        at(s.data.relations, alter.id@) is Some,
        at(s.data.relations, alter.id@)->0.kind == RelationKind::Table,
        columns_at(s.data, alter.id@).len() > 0,
        match alter.action {
            AlterTableActionMutation::SetNotNull { column: x } => x@ == column,
            AlterTableActionMutation::DropNotNull { column: x } => x@ == column,
            AlterTableActionMutation::SetType { column: x, .. } => x@ == column,
            AlterTableActionMutation::SetDefault { column: x, .. } => x@ == column,
            AlterTableActionMutation::RenameColumn { from, to } => from@ == column && !column_at(s.data, alter.id@, to@),
            _ => false,
        },
    ensures
        column_at(s.data, alter.id@, column) ==> r is Applied,
        !column_at(s.data, alter.id@, column) ==> r is Conflict && t.data == s.data,
{
    lemma_on_objects(s, Mutation::AlterTable(alter), c, t, r);
    reveal(object_effect);
    reveal(altered_table_refusal);
    reveal(action_applied);
    reveal(refused);
    reveal(column_refusal);
    reveal(rename_refusal);
    reveal(default_changed);
    let d = s.data;
    let id = alter.id@;
    assert(state_of(d.relations, id).columns == columns_at(d, id));
    assert(has_column(columns_at(d, id), column) == column_at(d, id, column));
}

/// `SET DATA TYPE` gives the column the type that is written, and touches
/// nothing but its type.
pub proof fn law_type_is_as_written(s: AnalysisStateView, alter: AlterTable, c: Option<CascadeView>, t: AnalysisStateView, r: MutationResultView, i: int)
    requires
        applied(s, Mutation::AlterTable(alter), c, t, r),
        r is Applied,
        alter.action is SetType,
        0 <= i < columns_at(s.data, alter.id@).len(),
    ensures
        only_columns_differ(s.data, t.data, alter.id@),
        only_column_differs(s.data, t.data, alter.id@, alter.action->SetType_column@),
        ({
            let before = columns_at(s.data, alter.id@)[i];
            let after = columns_at(t.data, alter.id@)[i];
            before.name == alter.action->SetType_column@ ==> after == ColumnView {
                data_type: Some(alter.action->SetType_ty@),
                type_id: after.type_id,
                ..before
            }
        }),
{
    lemma_on_objects(s, Mutation::AlterTable(alter), c, t, r);
    reveal(object_effect);
    reveal(altered_table_refusal);
    reveal(action_applied);
    reveal(refused);
    reveal(column_refusal);
    reveal(with_columns);
}

/// `SET DEFAULT` gives the column the default that is written, and `DROP
/// DEFAULT` leaves it without one. No edge says any more that the default draws
/// from a sequence which the new one does not call.
pub proof fn law_default_is_as_written(s: AnalysisStateView, alter: AlterTable, c: Option<CascadeView>, t: AnalysisStateView, r: MutationResultView, i: int, k: int)
    requires
        applied(s, Mutation::AlterTable(alter), c, t, r),
        r is Applied,
        alter.action is SetDefault,
        0 <= i < columns_at(s.data, alter.id@).len(),
        0 <= k < t.data.graph.len(),
    ensures
        only_column_differs(s.data, t.data, alter.id@, alter.action->SetDefault_column@),
        same_but(s.data.relations, t.data.relations, alter.id@),
        t.data.sequences == s.data.sequences,
        t.data.constraints == s.data.constraints,
        ({
            let before = columns_at(s.data, alter.id@)[i];
            let after = columns_at(t.data, alter.id@)[i];
            before.name == alter.action->SetDefault_column@ ==> after == ColumnView {
                default: alter.action->SetDefault_default.deep_view(),
                default_expr_text: None,
                ..before
            }
        }),
        ({
            let e = t.data.graph[k];
            let default = alter.action->SetDefault_default.deep_view();
            e.dependent == alter.id@ && e.kind == (DependencyKindView::ColumnDefaultOnSequence { column: alter.action->SetDefault_column@ })
                ==> default is Some && expression_references(default->0, e.referenced) && at(s.data.sequences, e.referenced) is Some
        }),
{
    lemma_on_objects(s, Mutation::AlterTable(alter), c, t, r);
    reveal(object_effect);
    reveal(altered_table_refusal);
    reveal(action_applied);
    reveal(refused);
    reveal(column_refusal);
    reveal(with_columns);
    reveal(with_graph);
    reveal(tainted_if);
    reveal(tainted);
    reveal(default_changed);
    let d = s.data;
    let id = alter.id@;
    let name = alter.action->SetDefault_column@;
    let default = alter.action->SetDefault_default.deep_view();
    let p = |e: DependencyEdgeView| !is_default_edge(e, id, name);
    let left = d.graph.filter(p);
    lemma_filtered(d.graph, p);
    assert(t.data.graph == edges_with_default(d, id, name, default));
    if k < left.len() {
        assert(t.data.graph[k] == left[k]);
        assert(left.contains(left[k]));
    }
}

/// `RENAME COLUMN` leaves the column in its place under the new name, and no
/// column under the old one. All else of it, and every other column, is as it
/// was.
pub proof fn law_column_is_renamed(s: AnalysisStateView, alter: AlterTable, c: Option<CascadeView>, t: AnalysisStateView, r: MutationResultView, i: int)
    requires
        applied(s, Mutation::AlterTable(alter), c, t, r),
        r is Applied,
        alter.action is RenameColumn,
        0 <= i < columns_at(s.data, alter.id@).len(),
    ensures
        same_but(s.data.relations, t.data.relations, alter.id@),
        ({
            let from = alter.action->from@;
            let to = alter.action->to@;
            let before = columns_at(s.data, alter.id@)[i];
            let after = columns_at(t.data, alter.id@)[i];
            &&& column_at(s.data, alter.id@, from)
            &&& !column_at(s.data, alter.id@, to)
            &&& column_at(t.data, alter.id@, to)
            &&& !column_at(t.data, alter.id@, from)
            &&& only_column_differs(s.data, t.data, alter.id@, from)
            &&& before.name == from ==> after == ColumnView { name: to, ..before }
            &&& at(t.data.relations, alter.id@) == Some(RelationStateView { columns: columns_at(t.data, alter.id@), ..at(s.data.relations, alter.id@)->0 })
        }),
{
    lemma_on_objects(s, Mutation::AlterTable(alter), c, t, r);
    reveal(object_effect);
    reveal(altered_table_refusal);
    reveal(action_applied);
    reveal(refused);
    reveal(column_refusal);
    reveal(rename_refusal);
    reveal(namespace_with_column_renamed);
    reveal(undone);
    let d = s.data;
    let id = alter.id@;
    let from = alter.action->from@;
    let to = alter.action->to@;
    let n = namespace_with_column_renamed(d, namespace_of(d), id, from, to);
    assert(t.data.relations == n.relations);
    assert(has_column(columns_at(d, id), from));
    let k = choose|k: int| 0 <= k < columns_at(d, id).len() && (#[trigger] columns_at(d, id)[k]).name == from;
    assert(columns_at(t.data, id)[k].name == to);
    assert(column_at(t.data, id, to));
    assert forall|j: int| 0 <= j < columns_at(t.data, id).len() implies (#[trigger] columns_at(t.data, id)[j]).name != from by {
        assert(columns_at(d, id)[j].name != to);
    }
}

/// Whether a list is another one with a name put for another.
pub open spec fn follows(a: Seq<Seq<char>>, b: Seq<Seq<char>>, from: Seq<char>, to: Seq<char>) -> bool {
    &&& b.len() == a.len()
    &&& forall|j: int| 0 <= j < a.len() && #[trigger] a[j] == from ==> b[j] == to
    &&& forall|j: int| 0 <= j < a.len() && #[trigger] a[j] != from ==> b[j] == a[j]
}

/// What depends on a column by its name follows the column: keys of the table
/// and into it, checks, indexes, views, generated columns and defaults. The
/// edges stay between the objects between which they were.
pub proof fn law_dependents_follow_renamed_column(s: AnalysisStateView, alter: AlterTable, c: Option<CascadeView>, t: AnalysisStateView, r: MutationResultView, i: int)
    requires
        applied(s, Mutation::AlterTable(alter), c, t, r),
        r is Applied,
        alter.action is RenameColumn,
        0 <= i < s.data.graph.len(),
    ensures
        t.data.graph.len() == s.data.graph.len(),
        t.data.graph[i].dependent == s.data.graph[i].dependent,
        t.data.graph[i].referenced == s.data.graph[i].referenced,
        ({
            let from = alter.action->from@;
            let to = alter.action->to@;
            let e = s.data.graph[i];
            let here = e.dependent == alter.id@;
            let there = e.referenced == alter.id@;
            match (e.kind, t.data.graph[i].kind) {
                (
                    DependencyKindView::ForeignKey { constraint_name: n, from_columns: a, to_columns: b, from_generation: g, .. },
                    DependencyKindView::ForeignKey { constraint_name: m, from_columns: x, to_columns: y, from_generation: h, .. },
                ) => m == n && g == h && (if here {
                    follows(a, x, from, to)
                } else {
                    x == a
                }) && (if there {
                    follows(b, y, from, to)
                } else {
                    y == b
                }),
                (
                    DependencyKindView::ConstraintOnRelation { constraint_name: n, columns: a, is_primary: p },
                    DependencyKindView::ConstraintOnRelation { constraint_name: m, columns: x, is_primary: q },
                ) => m == n && p == q && (if here {
                    follows(a, x, from, to)
                } else {
                    x == a
                }),
                (
                    DependencyKindView::ConstraintDependency { constraint_name: n, columns: a },
                    DependencyKindView::ConstraintDependency { constraint_name: m, columns: x },
                ) => m == n && (if here {
                    follows(a, x, from, to)
                } else {
                    x == a
                }),
                (
                    DependencyKindView::ViewDependency { view_generation: g, referenced_column: a },
                    DependencyKindView::ViewDependency { view_generation: h, referenced_column: x },
                ) => g == h && x == (if there && a == Some(from) {
                    Some(to)
                } else {
                    a
                }),
                (DependencyKindView::ColumnDefaultOnSequence { column: a }, DependencyKindView::ColumnDefaultOnSequence { column: x }) => x == (if here
                    && a == from {
                    to
                } else {
                    a
                }),
                (
                    DependencyKindView::ColumnGeneratedFrom { column: a, depends_on_column: b },
                    DependencyKindView::ColumnGeneratedFrom { column: x, depends_on_column: y },
                ) => x == (if here && a == from {
                    to
                } else {
                    a
                }) && y == (if there && b == from {
                    to
                } else {
                    b
                }),
                (
                    DependencyKindView::IndexOnRelation { key_columns: a, included_columns: b, dependency_columns: u, is_unique: p, .. },
                    DependencyKindView::IndexOnRelation { key_columns: x, included_columns: y, dependency_columns: v, is_unique: q, .. },
                ) => p == q && (if e.referenced == resolved(s.data.graph, alter.id@) {
                    follows(a, x, from, to) && follows(b, y, from, to) && follows(u, v, from, to)
                } else {
                    x == a && y == b && v == u
                }),
                (DependencyKindView::SequenceOwnedBy { .. }, DependencyKindView::SequenceOwnedBy { .. }) => true,
                (a, x) => x == a,
            }
        }),
{
    lemma_on_objects(s, Mutation::AlterTable(alter), c, t, r);
    reveal(object_effect);
    reveal(altered_table_refusal);
    reveal(action_applied);
    reveal(refused);
    reveal(column_refusal);
    reveal(rename_refusal);
    reveal(namespace_with_column_renamed);
    reveal(undone);
    let d = s.data;
    let n = namespace_with_column_renamed(d, namespace_of(d), alter.id@, alter.action->from@, alter.action->to@);
    assert(t.data.graph == n.graph);
}

/// A sequence that a renamed column owns is owned by it under its new name.
pub proof fn law_owned_sequence_follows_renamed_column(
    s: AnalysisStateView,
    alter: AlterTable,
    c: Option<CascadeView>,
    t: AnalysisStateView,
    r: MutationResultView,
    sequence: ObjectIdView,
)
    requires
        applied(s, Mutation::AlterTable(alter), c, t, r),
        r is Applied,
        alter.action is RenameColumn,
        at(s.data.sequences, sequence) is Some,
    ensures
        at(t.data.sequences, sequence) is Some,
        ({
            let before = at(s.data.sequences, sequence)->0;
            let after = at(t.data.sequences, sequence)->0;
            if before.owned_by == Some((alter.id@, alter.action->from@)) {
                after.owned_by == Some((alter.id@, alter.action->to@)) && after.id == before.id && after.owner == before.owner && after.kind == before.kind
                    && after.generation == before.generation
            } else {
                after == before
            }
        }),
{
    lemma_on_objects(s, Mutation::AlterTable(alter), c, t, r);
    reveal(object_effect);
    reveal(altered_table_refusal);
    reveal(action_applied);
    reveal(refused);
    reveal(column_refusal);
    reveal(rename_refusal);
    reveal(namespace_with_column_renamed);
    reveal(undone);
}

/// `ADD COLUMN` puts a column behind the others, which stay as they are. It has
/// the name and the type that are written; an ordinary one takes nulls unless
/// `NOT NULL` is written, and has the default that is written. It is refused
/// where the table has a column of that name.
pub proof fn law_column_is_added(s: AnalysisStateView, alter: AlterTable, c: Option<CascadeView>, t: AnalysisStateView, r: MutationResultView)
    requires
        applied(s, Mutation::AlterTable(alter), c, t, r),
        r is Applied,
        alter.action is AddColumn,
    ensures
        same_but(s.data.relations, t.data.relations, alter.id@),
        at(s.data.relations, alter.id@) is Some,
        at(t.data.relations, alter.id@) == Some(RelationStateView { columns: columns_at(t.data, alter.id@), ..at(s.data.relations, alter.id@)->0 }),
        t.data.constraints == s.data.constraints,
        ({
            let before = columns_at(s.data, alter.id@);
            let after = columns_at(t.data, alter.id@);
            match alter.action {
                AlterTableActionMutation::AddColumn { name, ty, not_null, default, generation, .. } => {
                    let column = after[after.len() - 1];
                    &&& !column_at(s.data, alter.id@, name@)
                    &&& after.len() == before.len() + 1
                    &&& forall|i: int| 0 <= i < before.len() ==> #[trigger] after[i] == before[i]
                    &&& column.name == name@
                    &&& column.data_type == ty.deep_view()
                    &&& generation is Ordinary ==> column.is_nullable == !not_null && column.default == default.deep_view() && t.data.sequences
                        == s.data.sequences && t.data.generation_counter == s.data.generation_counter
                    &&& !(generation is Ordinary) ==> !column.is_nullable && column.default is Some
                },
                _ => true,
            }
        }),
{
    lemma_on_objects(s, Mutation::AlterTable(alter), c, t, r);
    reveal(object_effect);
    reveal(altered_table_refusal);
    reveal(action_applied);
    reveal(refused);
    reveal(new_column_refusal);
    reveal(with_new_column);
    reveal(with_generation);
    reveal(namespace_with_column);
    reveal(undone);
    let d = s.data;
    let id = alter.id@;
    match alter.action {
        AlterTableActionMutation::AddColumn { name, ty, if_not_exists, not_null, default, depends_on, generation } => {
            lemma_column_of(columns_of(d, id), name@);
            let x = NewColumnView {
                name: name@,
                ty: ty.deep_view(),
                not_null,
                default: default.deep_view(),
                depends_on: depends_on.deep_view(),
                generation,
            };
            assert(columns_at(t.data, id) == columns_with(d, id, x));
            assert forall|i: int| 0 <= i < columns_at(d, id).len() implies #[trigger] columns_at(t.data, id)[i] == columns_at(d, id)[i] by {
                assert(columns_at(d, id)[i].name != name@);
            }
        },
        _ => {},
    }
}

/// A serial or identity column comes with a new sequence that it owns, in the
/// schema of the table, and the edge that says so. Every other sequence is as it
/// was.
pub proof fn law_drawing_column_brings_its_sequence(s: AnalysisStateView, alter: AlterTable, c: Option<CascadeView>, t: AnalysisStateView, r: MutationResultView)
    requires
        applied(s, Mutation::AlterTable(alter), c, t, r),
        r is Applied,
        alter.action is AddColumn,
        !(alter.action->AddColumn_generation is Ordinary),
        s.data.generation_counter < u64::MAX,
    ensures
        exists|id: ObjectIdView| #[trigger]
            at(t.data.sequences, id) is Some && {
                let sequence = at(t.data.sequences, id)->0;
                &&& sequence.id == id
                &&& sequence.owned_by == Some((alter.id@, alter.action->AddColumn_name@))
                &&& sequence.owner == at(s.data.relations, alter.id@)->0.owner
                &&& alter.action->AddColumn_generation is Serial ==> sequence.kind is SerialLike
                &&& alter.action->AddColumn_generation is Identity ==> sequence.kind is Identity
                &&& sequence.generation > s.data.generation_counter
                &&& same_but(s.data.sequences, t.data.sequences, id)
                &&& has_edge(t.data, id, alter.id@, DependencyKindView::SequenceOwnedBy { column: alter.action->AddColumn_name@ })
            },
{
    lemma_on_objects(s, Mutation::AlterTable(alter), c, t, r);
    reveal(object_effect);
    reveal(altered_table_refusal);
    reveal(action_applied);
    reveal(refused);
    reveal(new_column_refusal);
    reveal(with_new_column);
    reveal(with_generation);
    reveal(namespace_with_column);
    reveal(undone);
    let d = s.data;
    match alter.action {
        AlterTableActionMutation::AddColumn { name, ty, if_not_exists, not_null, default, depends_on, generation } => {
            let x = NewColumnView {
                name: name@,
                ty: ty.deep_view(),
                not_null,
                default: default.deep_view(),
                depends_on: depends_on.deep_view(),
                generation,
            };
            let id = new_column_sequence(d, alter.id@, x)->0;
            assert(t.data.sequences == sequences_with(d, alter.id@, x));
            assert(t.data.graph == edges_with_column(d, alter.id@, x));
            assert(at(t.data.sequences, id) is Some);
            assert(t.data.graph[t.data.graph.len() - 1] == (DependencyEdgeView {
                dependent: id,
                referenced: alter.id@,
                kind: DependencyKindView::SequenceOwnedBy { column: name@ },
            }));
        },
        _ => {},
    }
}

/// `DROP COLUMN` leaves no column of that name. Without `CASCADE` it leaves
/// every other column as it was and in its order, and no other relation differs.
pub proof fn law_column_is_dropped(s: AnalysisStateView, alter: AlterTable, c: Option<CascadeView>, t: AnalysisStateView, r: MutationResultView)
    requires
        applied(s, Mutation::AlterTable(alter), c, t, r),
        r is Applied,
        alter.action is DropColumn,
        !alter.action->DropColumn_cascade,
    ensures
        column_at(s.data, alter.id@, alter.action->DropColumn_name@),
        !column_at(t.data, alter.id@, alter.action->DropColumn_name@),
        columns_at(t.data, alter.id@) == columns_at(s.data, alter.id@).filter(|x: ColumnView| x.name != alter.action->DropColumn_name@),
        same_but(s.data.relations, t.data.relations, alter.id@),
{
    lemma_on_objects(s, Mutation::AlterTable(alter), c, t, r);
    reveal(object_effect);
    reveal(altered_table_refusal);
    reveal(action_applied);
    reveal(refused);
    reveal(drop_refusal);
    let d = s.data;
    let id = alter.id@;
    let name = alter.action->DropColumn_name@;
    let q = column_drop(d, id, name, false);
    lemma_nothing_is_generated(d, q.table, name);
    lemma_no_view_falls(d, q);
    let gone = |x: ColumnView| !q.gone().contains(x.name);
    let other = |x: ColumnView| x.name != name;
    let d1 = with_columns(d, id, columns_of(d, id).filter(gone));
    lemma_column_drop_relations(d, id, q);
    reveal(with_columns);
    assert forall|i: int| 0 <= i < columns_of(d, id).len() implies gone(#[trigger] columns_of(d, id)[i]) == other(columns_of(d, id)[i]) by {}
    lemma_filter_same(columns_of(d, id), gone, other);
    lemma_filtered(columns_of(d, id), other);
    assert(t.data.relations == d1.relations);
    assert forall|i: int| 0 <= i < columns_at(t.data, id).len() implies (#[trigger] columns_at(t.data, id)[i]).name != name by {
        assert(columns_of(d, id).filter(other).contains(columns_at(t.data, id)[i]));
    }
}

proof fn lemma_nothing_is_generated(d: StateData, table: ObjectIdView, name: Seq<char>)
    ensures
        generated_with(d, table, name, false) == Set::<Seq<char>>::empty(),
{
    reveal(generated_with);
    assert(generated_with(d, table, name, false) =~= Set::<Seq<char>>::empty());
}

proof fn lemma_no_view_falls(d: StateData, q: ColumnDropView)
    requires
        !q.cascade,
        q.generated == Set::<Seq<char>>::empty(),
    ensures
        falling_views(d, q).len() == 0,
{
    let p = |e: DependencyEdgeView| view_falls(d, e, q);
    lemma_filtered(d.graph, p);
    if d.graph.filter(p).len() > 0 {
        let e = d.graph.filter(p)[0];
        assert(d.graph.filter(p).contains(e));
        assert(p(e));
    }
}

proof fn lemma_column_drop_relations(d: StateData, id: ObjectIdView, q: ColumnDropView)
    requires
        falling_views(d, q).len() == 0,
    ensures
        without_column(d, id, q).relations == with_columns(d, id, columns_of(d, id).filter(|x: ColumnView| !q.gone().contains(x.name))).relations,
{
    reveal(without_column);
    reveal(without_keys_and_edges);
    reveal(constraints_removed);
    reveal(with_graph);
    reveal(without_views);
    reveal(without_stale_edges);
    reveal(namespace_without_owned);
    reveal(undone);
}

} // verus!
