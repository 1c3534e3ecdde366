//! `ALTER TABLE` on constraints, partitions, triggers and owners.
use crate::collections::lemma_filtered;
use crate::evidence::{EvidenceCode, EvidenceScope};
use crate::facts::RoleFact;
use crate::graph::{resolved, DependencyEdgeView, DependencyKindView};
use crate::identifiers::ObjectIdView;
use crate::laws::{at, columns_at, has_edge, has_evidence, lemma_on_objects, same_but};
use crate::model::constraint::{ConstraintKind, ConstraintStateView};
use crate::model::relation::RelationStateView;
use crate::model::sequence::SequenceStateView;
use crate::model::trigger::{TriggerEnableMode, TriggerStateView};
use crate::mutations::{AlterTable, AlterTableActionMutation, Mutation};
use crate::state::alter_column::with_graph;
use crate::state::alter_constraint::{
    added_name, constraint_drop_refusal, constraint_renamed, constraint_validated, fk_added, fk_check, inline_added, key_name, key_refusal,
    namespace_with_renamed, namespace_without_constraint, with_constraint, with_fk, with_index_adopted, with_key, with_known_edge,
    without_constraint,
};
use crate::state::alter_table::{
    action_applied, altered_table_refusal, attach_refusal, detach_refusal, is_partition, is_partition_of, namespace_with_owner, partition_edges,
    relation_owner_changed, table_owner_changed, trigger_mode_changed, with_owner, with_trigger_mode,
};
use crate::state::apply::{applied, object_effect};
use crate::state::apply_schema::owner_looked_up;
use crate::state::cascade::CascadeView;
use crate::state::foreign_keys::{key_checked, KeyUseView};
use crate::state::journal::{namespace_of, tainted, tainted_if, undone, with_namespace};
use crate::state::lookup::role_identity;
use crate::state::refusal::refused;
use crate::state::{AnalysisStateView, MutationResultView, StateData};
use crate::text::ascii_lowercase;
use vstd::prelude::*;

verus! {

/// Whether nothing but constraints, edges and evidence differs.
pub open spec fn only_constraints_differ(d: StateData, e: StateData) -> bool {
    e == StateData {
        constraints: e.constraints,
        pending_validation: e.pending_validation,
        graph: e.graph,
        evidence: e.evidence,
        confidence: e.confidence,
        ..d
    }
}

/// Whether a table got one constraint that it did not have, of a kind, under a
/// name; it waits for validation where it is not valid.
pub open spec fn constraint_came_in(d: StateData, e: StateData, id: ObjectIdView, name: Seq<char>, kind: ConstraintKind, valid: bool) -> bool {
    &&& !d.constraints.dom().contains((id, name))
    &&& e.constraints.dom().contains((id, name))
    &&& e.constraints[(id, name)].kind == kind
    &&& e.constraints[(id, name)].validated == valid
    &&& e.constraints[(id, name)].table_id == id
    &&& e.constraints[(id, name)].name == name
    &&& same_but(d.constraints, e.constraints, (id, name))
    &&& !valid ==> e.pending_validation.contains((id, name))
    &&& forall|key: (ObjectIdView, Seq<char>)|
        key != (id, name) || valid ==> (#[trigger] e.pending_validation.contains(key) <==> d.pending_validation.contains(key))
}

/// Whether a list is another one with more behind it.
pub open spec fn goes_on(a: Seq<DependencyEdgeView>, b: Seq<DependencyEdgeView>) -> bool {
    &&& a.len() <= b.len()
    &&& forall|i: int| 0 <= i < a.len() ==> #[trigger] b[i] == a[i]
}

/// `ADD FOREIGN KEY` gives the table a constraint and an edge to the table that
/// is referred to, with the columns that are written. It is valid unless `NOT
/// VALID` is written.
pub proof fn law_foreign_key_is_added(s: AnalysisStateView, alter: AlterTable, c: Option<CascadeView>, t: AnalysisStateView, r: MutationResultView)
    requires
        applied(s, Mutation::AlterTable(alter), c, t, r),
        r is Applied,
        alter.action is AddForeignKey,
    ensures
        only_constraints_differ(s.data, t.data),
        goes_on(s.data.graph, t.data.graph),
        t.data.graph.len() == s.data.graph.len() + 1,
        match alter.action {
            AlterTableActionMutation::AddForeignKey { constraint_name, to_table, from_columns, to_columns, not_valid } => {
                let e = t.data.graph[t.data.graph.len() - 1];
                &&& e.dependent == alter.id@
                &&& e.referenced == to_table@
                &&& at(s.data.relations, to_table@) is Some
                &&& at(s.data.relations, to_table@)->0.kind is Table
                &&& match e.kind {
                    DependencyKindView::ForeignKey { constraint_name: n, from_columns: a, to_columns: b, from_generation, .. } => {
                        &&& n is Some
                        &&& constraint_name is Some ==> n->0 == constraint_name->0@
                        &&& a == from_columns.deep_view()
                        &&& to_columns.deep_view().len() > 0 ==> b == to_columns.deep_view()
                        &&& from_generation == at(s.data.relations, alter.id@)->0.generation
                        &&& constraint_came_in(s.data, t.data, alter.id@, n->0, ConstraintKind::ForeignKey, !not_valid)
                    },
                    _ => false,
                }
            },
            _ => true,
        },
{
    lemma_on_objects(s, Mutation::AlterTable(alter), c, t, r);
    reveal(object_effect);
    reveal(altered_table_refusal);
    reveal(action_applied);
    reveal(refused);
    reveal(fk_added);
    reveal(with_fk);
    reveal(with_constraint);
    reveal(with_known_edge);
    reveal(tainted_if);
    reveal(tainted);
    match alter.action {
        AlterTableActionMutation::AddForeignKey { constraint_name, to_table, from_columns, to_columns, not_valid } => {
            let k = KeyUseView { table: alter.id@, to_table: to_table@, from_columns: from_columns.deep_view(), to_columns: to_columns.deep_view() };
            lemma_accepted_key(s.data, k);
        },
        _ => {},
    }
}

proof fn lemma_accepted_key(d: StateData, k: KeyUseView)
    requires
        fk_check(d, k).refusal is None,
    ensures
        k.to_columns.len() > 0 ==> fk_check(d, k).columns == k.to_columns,
        at(d.relations, k.to_table) is Some,
        at(d.relations, k.to_table)->0.kind is Table,
{
    reveal(key_checked);
}

/// `ADD CHECK` and `ADD EXCLUDE` give the table a constraint, and an edge with
/// the columns where they are all known.
pub proof fn law_check_is_added(s: AnalysisStateView, alter: AlterTable, c: Option<CascadeView>, t: AnalysisStateView, r: MutationResultView)
    requires
        applied(s, Mutation::AlterTable(alter), c, t, r),
        r is Applied,
        alter.action is AddCheckConstraint || alter.action is AddExcludeConstraint,
    ensures
        only_constraints_differ(s.data, t.data),
        goes_on(s.data.graph, t.data.graph),
        exists|name: Seq<char>| #[trigger]
            t.data.constraints.dom().contains((alter.id@, name)) && match alter.action {
                AlterTableActionMutation::AddCheckConstraint { constraint_name, columns, columns_complete, not_valid } => {
                    &&& constraint_came_in(s.data, t.data, alter.id@, name, ConstraintKind::Check, !not_valid)
                    &&& constraint_name is Some ==> name == constraint_name->0@
                    &&& columns_complete && columns_at(s.data, alter.id@).len() > 0 ==> has_edge(
                        t.data,
                        alter.id@,
                        alter.id@,
                        DependencyKindView::ConstraintDependency { constraint_name: name, columns: columns.deep_view() },
                    )
                    &&& !columns_complete ==> t.data.graph == s.data.graph && has_evidence(t.data, EvidenceCode::CatalogCoverageIncomplete)
                },
                AlterTableActionMutation::AddExcludeConstraint { constraint_name, columns, columns_complete } => {
                    &&& constraint_came_in(s.data, t.data, alter.id@, name, ConstraintKind::Exclusion, true)
                    &&& constraint_name is Some ==> name == constraint_name->0@
                    &&& columns_complete && columns_at(s.data, alter.id@).len() > 0 ==> has_edge(
                        t.data,
                        alter.id@,
                        alter.id@,
                        DependencyKindView::ConstraintDependency { constraint_name: name, columns: columns.deep_view() },
                    )
                    &&& !columns_complete ==> t.data.graph == s.data.graph && has_evidence(t.data, EvidenceCode::CatalogCoverageIncomplete)
                },
                _ => false,
            },
{
    lemma_on_objects(s, Mutation::AlterTable(alter), c, t, r);
    reveal(object_effect);
    reveal(altered_table_refusal);
    reveal(action_applied);
    reveal(refused);
    reveal(inline_added);
    reveal(with_constraint);
    reveal(with_known_edge);
    reveal(tainted_if);
    let d = s.data;
    let (kind, explicit) = match alter.action {
        AlterTableActionMutation::AddCheckConstraint { constraint_name, .. } => (ConstraintKind::Check, constraint_name.deep_view()),
        AlterTableActionMutation::AddExcludeConstraint { constraint_name, .. } => (ConstraintKind::Exclusion, constraint_name.deep_view()),
        _ => (ConstraintKind::Check, None),
    };
    let name = added_name(d, alter.id@, crate::state::create_table::NameRequestView { explicit, second: None, kind });
    assert(t.data.constraints.dom().contains((alter.id@, name)));
    let d1 = with_constraint(d, alter.id@, crate::state::alter_constraint::NewConstraintView {
        name,
        kind,
        not_valid: match alter.action {
            AlterTableActionMutation::AddCheckConstraint { not_valid, .. } => not_valid,
            _ => false,
        },
        backing_index: None,
    });
    lemma_gap_is_recorded(d1, EvidenceCode::CatalogCoverageIncomplete, EvidenceScope::Chain);
    if t.data.graph.len() > d.graph.len() {
        assert(t.data.graph[t.data.graph.len() - 1].dependent == alter.id@);
    }
    reveal(tainted);
}

/// A gap leaves its record.
proof fn lemma_gap_is_recorded(d: StateData, code: EvidenceCode, scope: EvidenceScope)
    ensures
        has_evidence(tainted(d, code, scope), code),
{
    reveal(tainted);
    let record = crate::evidence::EvidenceRecord { code, scope, location: None };
    let after = tainted(d, code, scope);
    let x = crate::state::journal::placed(d, record);
    if d.evidence.contains(x) {
        let i = choose|i: int| 0 <= i < d.evidence.len() && d.evidence[i] == x;
        assert(after.evidence[i].code == code);
    } else {
        assert(after.evidence[after.evidence.len() - 1].code == code);
    }
}

/// `ADD UNIQUE` and `ADD PRIMARY KEY` give the table a constraint, and an edge
/// with its columns where they are known. A second primary key is not added.
/// With an index, the index takes the name of the constraint and backs it.
pub proof fn law_key_is_added(s: AnalysisStateView, alter: AlterTable, c: Option<CascadeView>, t: AnalysisStateView, r: MutationResultView, name: Seq<char>)
    requires
        applied(s, Mutation::AlterTable(alter), c, t, r),
        r is Applied,
        alter.action is AddUniqueConstraint || alter.action is AddPrimaryKeyConstraint,
    ensures
        only_constraints_differ(s.data, t.data),
        alter.action is AddPrimaryKeyConstraint && s.data.constraints.dom().contains((alter.id@, name)) ==> !(s.data.constraints[(
            alter.id@,
            name,
        )].kind is PrimaryKey),
        exists|n: Seq<char>| #[trigger]
            t.data.constraints.dom().contains((alter.id@, n)) && match alter.action {
                AlterTableActionMutation::AddUniqueConstraint { constraint_name, columns, using_index } => {
                    &&& constraint_came_in(s.data, t.data, alter.id@, n, ConstraintKind::Unique, true)
                    &&& constraint_name is Some ==> n == constraint_name->0@
                    &&& columns.deep_view().len() > 0 && columns_at(s.data, alter.id@).len() > 0 ==> has_edge(
                        t.data,
                        alter.id@,
                        alter.id@,
                        DependencyKindView::ConstraintOnRelation { constraint_name: n, columns: columns.deep_view(), is_primary: false },
                    )
                    &&& using_index is None ==> t.data.constraints[(alter.id@, n)].backing_index is None && goes_on(s.data.graph, t.data.graph)
                    &&& using_index is Some ==> t.data.constraints[(alter.id@, n)].backing_index == Some(
                        ObjectIdView { schema: using_index->0@.schema, name: n },
                    )
                },
                AlterTableActionMutation::AddPrimaryKeyConstraint { constraint_name, columns, using_index } => {
                    &&& constraint_came_in(s.data, t.data, alter.id@, n, ConstraintKind::PrimaryKey, true)
                    &&& constraint_name is Some ==> n == constraint_name->0@
                    &&& columns.deep_view().len() > 0 && columns_at(s.data, alter.id@).len() > 0 ==> has_edge(
                        t.data,
                        alter.id@,
                        alter.id@,
                        DependencyKindView::ConstraintOnRelation { constraint_name: n, columns: columns.deep_view(), is_primary: true },
                    )
                    &&& using_index is None ==> t.data.constraints[(alter.id@, n)].backing_index is None && goes_on(s.data.graph, t.data.graph)
                    &&& using_index is Some ==> t.data.constraints[(alter.id@, n)].backing_index == Some(
                        ObjectIdView { schema: using_index->0@.schema, name: n },
                    )
                },
                _ => false,
            },
{
    lemma_on_objects(s, Mutation::AlterTable(alter), c, t, r);
    reveal(object_effect);
    reveal(altered_table_refusal);
    reveal(action_applied);
    reveal(refused);
    reveal(key_refusal);
    reveal(with_key);
    reveal(with_index_adopted);
    reveal(with_constraint);
    reveal(with_known_edge);
    reveal(tainted_if);
    reveal(tainted);
    let d = s.data;
    let (kind, explicit, using_index) = match alter.action {
        AlterTableActionMutation::AddUniqueConstraint { constraint_name, using_index, .. } => (
            ConstraintKind::Unique,
            constraint_name.deep_view(),
            using_index.deep_view(),
        ),
        AlterTableActionMutation::AddPrimaryKeyConstraint { constraint_name, using_index, .. } => (
            ConstraintKind::PrimaryKey,
            constraint_name.deep_view(),
            using_index.deep_view(),
        ),
        _ => (ConstraintKind::Unique, None, None),
    };
    let n = key_name(d, alter.id@, kind, explicit, using_index);
    assert(t.data.constraints.dom().contains((alter.id@, n)));
    if kind is PrimaryKey && d.constraints.dom().contains((alter.id@, name)) {
        assert(!crate::state::alter_constraint::has_primary_key(d, alter.id@));
        assert(!crate::state::alter_constraint::is_primary_of((alter.id@, name), d.constraints[(alter.id@, name)], alter.id@));
    }
    if t.data.graph.len() > 0 {
        assert(t.data.graph[t.data.graph.len() - 1] == t.data.graph.last());
    }
}

/// `RENAME CONSTRAINT` leaves the constraint, all else of it as it was, under
/// its new name, and none under the old one. Its edges follow.
pub proof fn law_constraint_is_renamed(s: AnalysisStateView, alter: AlterTable, c: Option<CascadeView>, t: AnalysisStateView, r: MutationResultView, key: (ObjectIdView, Seq<char>), k: int)
    requires
        applied(s, Mutation::AlterTable(alter), c, t, r),
        r is Applied,
        alter.action is RenameConstraint,
    ensures
        ({
            let id = alter.id@;
            let from = alter.action->old_name@;
            let to = alter.action->new_name@;
            &&& s.data.constraints.dom().contains((id, from))
            &&& !s.data.constraints.dom().contains((id, to))
            &&& !t.data.constraints.dom().contains((id, from))
            &&& t.data.constraints.dom().contains((id, to))
            &&& t.data.constraints[(id, to)] == ConstraintStateView { name: to, ..s.data.constraints[(id, from)] }
            &&& key != (id, from) && key != (id, to) ==> t.data.constraints.dom().contains(key) == s.data.constraints.dom().contains(key) && (
            s.data.constraints.dom().contains(key) ==> t.data.constraints[key] == s.data.constraints[key])
            &&& s.data.pending_validation.contains((id, from)) ==> t.data.pending_validation.contains((id, to)) && !t.data.pending_validation.contains((id, from))
            &&& t.data.relations == s.data.relations
            &&& t.data.sequences == s.data.sequences
            &&& t.data.graph.len() == s.data.graph.len()
            &&& 0 <= k < s.data.graph.len() ==> {
                let e = s.data.graph[k];
                let f = t.data.graph[k];
                &&& f.dependent == e.dependent
                &&& f.referenced == e.referenced
                &&& match (e.kind, f.kind) {
                    (
                        DependencyKindView::ForeignKey { constraint_name: a, from_columns: x, to_columns: y, .. },
                        DependencyKindView::ForeignKey { constraint_name: b, from_columns: u, to_columns: v, .. },
                    ) => u == x && v == y && b == (if e.dependent == id && a == Some(from) {
                        Some(to)
                    } else {
                        a
                    }),
                    (
                        DependencyKindView::ConstraintOnRelation { constraint_name: a, columns: x, is_primary: p },
                        DependencyKindView::ConstraintOnRelation { constraint_name: b, columns: u, is_primary: q },
                    ) => u == x && p == q && b == (if e.dependent == id && a == from {
                        to
                    } else {
                        a
                    }),
                    (
                        DependencyKindView::ConstraintDependency { constraint_name: a, columns: x },
                        DependencyKindView::ConstraintDependency { constraint_name: b, columns: u },
                    ) => u == x && b == (if e.dependent == id && a == from {
                        to
                    } else {
                        a
                    }),
                    (a, b) => a == b,
                }
            }
        }),
{
    lemma_on_objects(s, Mutation::AlterTable(alter), c, t, r);
    reveal(object_effect);
    reveal(altered_table_refusal);
    reveal(action_applied);
    reveal(refused);
    reveal(constraint_renamed);
    reveal(namespace_with_renamed);
    reveal(undone);
    let n = namespace_with_renamed(s.data, namespace_of(s.data), alter.id@, alter.action->old_name@, alter.action->new_name@);
    assert(t.data.graph == n.graph);
    assert(t.data.constraints == n.constraints);
    assert(t.data.pending_validation == n.pending_validation);
}

/// `VALIDATE CONSTRAINT` makes the constraint valid, and it does not wait for
/// validation any more. Nothing else differs.
pub proof fn law_constraint_is_validated(s: AnalysisStateView, alter: AlterTable, c: Option<CascadeView>, t: AnalysisStateView, r: MutationResultView, key: (ObjectIdView, Seq<char>))
    requires
        applied(s, Mutation::AlterTable(alter), c, t, r),
        r is Applied,
        alter.action is ValidateConstraint,
    ensures
        ({
            let name = (alter.id@, alter.action->ValidateConstraint_constraint_name@);
            &&& s.data.constraints.dom().contains(name)
            &&& t.data.constraints.dom().contains(name)
            &&& t.data.constraints[name] == ConstraintStateView { validated: true, ..s.data.constraints[name] }
            &&& !t.data.pending_validation.contains(name)
            &&& same_but(s.data.constraints, t.data.constraints, name)
            &&& key != name ==> t.data.pending_validation.contains(key) == s.data.pending_validation.contains(key)
            &&& t.data == StateData { constraints: t.data.constraints, pending_validation: t.data.pending_validation, ..s.data }
        }),
{
    lemma_on_objects(s, Mutation::AlterTable(alter), c, t, r);
    reveal(object_effect);
    reveal(altered_table_refusal);
    reveal(action_applied);
    reveal(refused);
    reveal(constraint_validated);
}

/// Whether an edge is of a constraint of a table.
pub open spec fn is_edge_of_constraint(d: StateData, e: DependencyEdgeView, id: ObjectIdView, name: Seq<char>) -> bool {
    resolved(d.graph, e.dependent) == id && match e.kind {
        DependencyKindView::ForeignKey { constraint_name, .. } => constraint_name == Some(name),
        DependencyKindView::ConstraintOnRelation { constraint_name, .. } => constraint_name == name,
        DependencyKindView::ConstraintDependency { constraint_name, .. } => constraint_name == name,
        _ => false,
    }
}

/// `DROP CONSTRAINT` leaves no constraint of that name and none of its edges.
/// Every other constraint and edge stays. Only a `NOT NULL` constraint has to do
/// with a column: the column that bears its name takes nulls then.
pub proof fn law_constraint_is_dropped(s: AnalysisStateView, alter: AlterTable, c: Option<CascadeView>, t: AnalysisStateView, r: MutationResultView, e: DependencyEdgeView, i: int)
    requires
        applied(s, Mutation::AlterTable(alter), c, t, r),
        r is Applied,
        alter.action is DropConstraint,
    ensures
        ({
            let id = alter.id@;
            let name = alter.action->DropConstraint_name@;
            &&& s.data.constraints.dom().contains((id, name))
            &&& !t.data.constraints.dom().contains((id, name))
            &&& !t.data.pending_validation.contains((id, name))
            &&& same_but(s.data.constraints, t.data.constraints, (id, name))
            &&& same_but(s.data.relations, t.data.relations, id)
            &&& t.data.graph.contains(e) <==> s.data.graph.contains(e) && !is_edge_of_constraint(s.data, e, id, name)
            &&& !(s.data.constraints[(id, name)].kind is NotNull) ==> t.data.relations == s.data.relations
            &&& s.data.constraints[(id, name)].kind is NotNull && 0 <= i < columns_at(s.data, id).len() ==> columns_at(t.data, id)[i].name == columns_at(
                s.data,
                id,
            )[i].name && columns_at(t.data, id)[i].is_nullable == (columns_at(s.data, id)[i].is_nullable || columns_at(s.data, id)[i].name == name)
        }),
{
    lemma_on_objects(s, Mutation::AlterTable(alter), c, t, r);
    reveal(object_effect);
    reveal(altered_table_refusal);
    reveal(action_applied);
    reveal(refused);
    reveal(constraint_drop_refusal);
    reveal(without_constraint);
    reveal(namespace_without_constraint);
    reveal(undone);
    let d = s.data;
    let id = alter.id@;
    let name = alter.action->DropConstraint_name@;
    let n = namespace_without_constraint(d, namespace_of(d), id, name);
    let d1 = with_namespace(d, n);
    let p = |x: DependencyEdgeView| !crate::state::alter_constraint::is_constraint_edge(d1, x, id, name);
    assert(d1.graph == d.graph);
    assert(t.data.graph == d.graph.filter(p));
    lemma_filtered(d.graph, p);
    assert(t.data.constraints == d.constraints.remove((id, name)));
}

/// A constraint that is not there is not dropped: with `IF EXISTS`, where the
/// catalog covers the table, nothing happens; without it there is a conflict.
pub proof fn law_absent_constraint_is_not_dropped(s: AnalysisStateView, alter: AlterTable, c: Option<CascadeView>, t: AnalysisStateView, r: MutationResultView)
    requires
        applied(s, Mutation::AlterTable(alter), c, t, r),
        !s.aborted,
        alter.action is DropConstraint,
        at(s.data.relations, alter.id@) is Some,
        at(s.data.relations, alter.id@)->0.kind is Table,
        !s.data.constraints.dom().contains((alter.id@, alter.action->DropConstraint_name@)),
        crate::state::lookup::covers_family(s.data, alter.id@, crate::cache::CatalogFamily::Relations),
    ensures
        t.data == s.data,
        alter.action->DropConstraint_if_exists ==> r is Skipped,
        !alter.action->DropConstraint_if_exists ==> r is Conflict,
{
    lemma_on_objects(s, Mutation::AlterTable(alter), c, t, r);
    reveal(object_effect);
    reveal(altered_table_refusal);
    reveal(action_applied);
    reveal(refused);
    reveal(constraint_drop_refusal);
}

/// `ATTACH PARTITION` adds the edge from the child to the parent. The parent is
/// partitioned, in the way that is written if one is, and the child is a table
/// that is no partition yet.
pub proof fn law_partition_is_attached(s: AnalysisStateView, alter: AlterTable, c: Option<CascadeView>, t: AnalysisStateView, r: MutationResultView, k: int)
    requires
        applied(s, Mutation::AlterTable(alter), c, t, r),
        r is Applied,
        alter.action is AttachPartition,
    ensures
        ({
            let child = alter.action->AttachPartition_child@;
            let parent = at(s.data.relations, alter.id@)->0;
            let strategy = alter.action->AttachPartition_strategy.deep_view();
            &&& t.data == StateData { graph: t.data.graph, ..s.data }
            &&& t.data.graph.len() == s.data.graph.len() + 1
            &&& goes_on(s.data.graph, t.data.graph)
            &&& t.data.graph[s.data.graph.len() as int] == (DependencyEdgeView {
                dependent: child,
                referenced: alter.id@,
                kind: DependencyKindView::PartitionOf,
            })
            &&& at(s.data.relations, child) is Some && at(s.data.relations, child)->0.kind is Table
            &&& parent.partition_type is Some
            &&& strategy is Some ==> ascii_lowercase(strategy->0) == ascii_lowercase(parent.partition_type->0)
            &&& 0 <= k < s.data.graph.len() && s.data.graph[k].kind is PartitionOf ==> s.data.graph[k].dependent != child
            &&& resolved(s.data.graph, child) != resolved(s.data.graph, alter.id@)
        }),
{
    lemma_on_objects(s, Mutation::AlterTable(alter), c, t, r);
    reveal(object_effect);
    reveal(altered_table_refusal);
    reveal(action_applied);
    reveal(refused);
    reveal(attach_refusal);
    reveal(with_graph);
    let d = s.data;
    let child = alter.action->AttachPartition_child@;
    let p = |e: DependencyEdgeView| is_partition(e, child);
    lemma_filtered(d.graph, p);
    if 0 <= k < d.graph.len() && d.graph[k].kind is PartitionOf && d.graph[k].dependent == child {
        assert(d.graph.contains(d.graph[k]));
        assert(d.graph.filter(p).contains(d.graph[k]));
        assert(partition_edges(d, child).len() > 0);
    }
    let parent = resolved(d.graph, alter.id@);
    assert(crate::graph::partition_ancestor(d.graph, parent, 0) == Some(parent));
}

/// `DETACH PARTITION` takes away the edges from the child to the parent, of
/// which there was one, and no other.
pub proof fn law_partition_is_detached(s: AnalysisStateView, alter: AlterTable, c: Option<CascadeView>, t: AnalysisStateView, r: MutationResultView, e: DependencyEdgeView)
    requires
        applied(s, Mutation::AlterTable(alter), c, t, r),
        r is Applied,
        alter.action is DetachPartition,
    ensures
        t.data == (StateData { graph: t.data.graph, ..s.data }),
        has_edge(s.data, alter.action->DetachPartition_child@, alter.id@, DependencyKindView::PartitionOf),
        t.data.graph.contains(e) <==> s.data.graph.contains(e) && !(e.kind is PartitionOf && e.dependent == alter.action->DetachPartition_child@ && e.referenced
            == alter.id@),
{
    lemma_on_objects(s, Mutation::AlterTable(alter), c, t, r);
    reveal(object_effect);
    reveal(altered_table_refusal);
    reveal(action_applied);
    reveal(refused);
    reveal(detach_refusal);
    reveal(with_graph);
    let d = s.data;
    let child = alter.action->DetachPartition_child@;
    let p = |x: DependencyEdgeView| !is_partition_of(x, child, alter.id@);
    lemma_filtered(d.graph, p);
    let i = choose|i: int| 0 <= i < d.graph.len() && is_partition_of(#[trigger] d.graph[i], child, alter.id@);
    assert(d.graph[i] == (DependencyEdgeView { dependent: child, referenced: alter.id@, kind: DependencyKindView::PartitionOf }));
}

/// A partition that is not attached is not detached.
pub proof fn law_unattached_is_not_detached(s: AnalysisStateView, alter: AlterTable, c: Option<CascadeView>, t: AnalysisStateView, r: MutationResultView)
    requires
        applied(s, Mutation::AlterTable(alter), c, t, r),
        !s.aborted,
        alter.action is DetachPartition,
        !has_edge(s.data, alter.action->DetachPartition_child@, alter.id@, DependencyKindView::PartitionOf),
    ensures
        !(r is Applied),
{
    if r is Applied {
        law_partition_is_detached(s, alter, c, t, r, s.data.graph[0]);
    }
}

/// `DISABLE TRIGGER` and `ENABLE TRIGGER` switch the triggers of the table that
/// are meant, one by its name or all, and no others.
pub proof fn law_triggers_are_switched(s: AnalysisStateView, alter: AlterTable, c: Option<CascadeView>, t: AnalysisStateView, r: MutationResultView, id: ObjectIdView)
    requires
        applied(s, Mutation::AlterTable(alter), c, t, r),
        r is Applied,
        alter.action is DisableTrigger || alter.action is EnableTrigger,
        at(s.data.triggers, id) is Some,
    ensures
        t.data == (StateData { triggers: t.data.triggers, ..s.data }),
        at(t.data.triggers, id) is Some,
        ({
            let before = at(s.data.triggers, id)->0;
            let after = at(t.data.triggers, id)->0;
            let name = match alter.action {
                AlterTableActionMutation::DisableTrigger { trigger_name } => trigger_name.deep_view(),
                AlterTableActionMutation::EnableTrigger { trigger_name } => trigger_name.deep_view(),
                _ => None,
            };
            let all = name is None || ascii_lowercase(name->0) == ascii_lowercase("all"@);
            if before.table_id == alter.id@ && (all || name->0 == before.name) {
                after == TriggerStateView {
                    enabled_mode: if alter.action is DisableTrigger {
                        TriggerEnableMode::Disabled
                    } else {
                        TriggerEnableMode::Origin
                    },
                    ..before
                }
            } else {
                after == before
            }
        }),
{
    lemma_on_objects(s, Mutation::AlterTable(alter), c, t, r);
    reveal(object_effect);
    reveal(altered_table_refusal);
    reveal(action_applied);
    reveal(refused);
    reveal(trigger_mode_changed);
    reveal(with_trigger_mode);
}

/// The name of the role that a statement means by an owner.
pub open spec fn role_meant(d: StateData, role: RoleFact) -> Option<Seq<char>> {
    match role {
        RoleFact::Named { name, .. } => Some(name@),
        RoleFact::CurrentUser | RoleFact::CurrentRole => Some(d.current_role),
        RoleFact::SessionUser => Some(d.session_role),
        RoleFact::Unknown => None,
    }
}

/// `OWNER TO` gives the relation, and the sequences that its columns own, to the
/// role that is meant. A role that is known not to exist gets nothing.
pub proof fn law_owner_is_changed(s: AnalysisStateView, m: Mutation, c: Option<CascadeView>, t: AnalysisStateView, r: MutationResultView, id: ObjectIdView, owner: RoleFact, sequence: ObjectIdView)
    requires
        applied(s, m, c, t, r),
        r is Applied,
        match m {
            Mutation::AlterTable(x) => x.id@ == id && x.action is OwnerTo && x.action->OwnerTo_new_owner == owner,
            Mutation::ChangeRelationOwner { id: x, new_owner } => x@ == id && new_owner == owner,
            _ => false,
        },
    ensures
        role_meant(s.data, owner) is Some,
        at(s.data.relations, id) is Some,
        ({
            let role = ObjectIdView { schema: ""@, name: role_meant(s.data, owner)->0 };
            &&& at(t.data.relations, id) == Some(RelationStateView { owner: role, ..at(s.data.relations, id)->0 })
            &&& same_but(s.data.relations, t.data.relations, id)
            &&& t.data.graph == s.data.graph
            &&& t.data.constraints == s.data.constraints
            &&& owner is Named && s.data.roles_known ==> at(s.data.roles, role) is Some
            &&& at(s.data.sequences, sequence) is Some ==> at(t.data.sequences, sequence) == Some(
                if at(s.data.sequences, sequence)->0.owned_by is Some && (at(s.data.sequences, sequence)->0.owned_by->0).0 == id {
                    SequenceStateView { owner: role, ..at(s.data.sequences, sequence)->0 }
                } else {
                    at(s.data.sequences, sequence)->0
                },
            )
        }),
{
    lemma_on_objects(s, m, c, t, r);
    reveal(object_effect);
    reveal(altered_table_refusal);
    reveal(action_applied);
    reveal(refused);
    reveal(table_owner_changed);
    reveal(relation_owner_changed);
    let d = s.data;
    let (name, known) = role_identity(d, owner)->0;
    let d1 = owner_looked_up(d, known);
    lemma_looked_up(d, known);
    lemma_with_owner(d1, id, name, sequence);
    assert(t.data == with_owner(d1, id, name));
}

proof fn lemma_with_owner(d: StateData, id: ObjectIdView, name: Seq<char>, sequence: ObjectIdView)
    requires
        at(d.relations, id) is Some,
    ensures
        ({
            let role = ObjectIdView { schema: ""@, name };
            let after = with_owner(d, id, name);
            &&& at(after.relations, id) == Some(RelationStateView { owner: role, ..at(d.relations, id)->0 })
            &&& same_but(d.relations, after.relations, id)
            &&& after.graph == d.graph
            &&& after.constraints == d.constraints
            &&& at(d.sequences, sequence) is Some ==> at(after.sequences, sequence) == Some(
                if at(d.sequences, sequence)->0.owned_by is Some && (at(d.sequences, sequence)->0.owned_by->0).0 == id {
                    SequenceStateView { owner: role, ..at(d.sequences, sequence)->0 }
                } else {
                    at(d.sequences, sequence)->0
                },
            )
        }),
{
    reveal(namespace_with_owner);
    reveal(undone);
}

proof fn lemma_looked_up(d: StateData, known: bool)
    ensures
        owner_looked_up(d, known) == (StateData {
            evidence: owner_looked_up(d, known).evidence,
            confidence: owner_looked_up(d, known).confidence,
            ..d
        }),
{
    reveal(owner_looked_up);
    reveal(tainted_if);
    reveal(tainted);
    reveal(crate::state::apply_privileges::coverage_gap);
}

} // verus!
