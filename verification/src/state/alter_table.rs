//! `ALTER TABLE`, and the owner of a relation.
use crate::collections::{Dup, Key};
use crate::evidence::{EvidenceCode, EvidenceScope};
use crate::facts::RoleFact;
use crate::graph::{edge, would_close_cycle, DependencyEdge, DependencyEdgeView, DependencyKind, DependencyKindView};
use crate::identifiers::{role_object, ObjectId, ObjectIdView};
use crate::model::constraint::ConstraintKind;
use crate::model::relation::RelationStateView;
use crate::model::sequence::{SequenceOverlay, SequenceStateView};
use crate::model::trigger::{TriggerEnableMode, TriggerOverlay, TriggerStateView};
use crate::model::Overlay;
use crate::mutations::{AlterTable, AlterTableActionMutation};
use crate::state::alter_column::{
    column_added, column_renamed_in, default_changed, nullability_changed, type_changed, with_graph, NewColumn, NewColumnView,
};
use crate::state::alter_constraint::{
    constraint_altered, constraint_dropped, constraint_renamed, constraint_validated, fk_added, inline_added, key_added, key_edge_undo, key_name,
};
use crate::state::apply_schema::{owner_looked_up, owner_missing};
use crate::state::drop_column::{column_drop, column_dropped, column_edge_undo};
use crate::state::foreign_keys::{KeyUse, KeyUseView};
use crate::state::journal::{
    appending, group_steps, if_applied, kept, kept_as, lemma_undone_after, namespace_of, tainted, undone, undone_by, with_namespace, EdgeUndo,
};
use crate::state::lookup::{present, role_identity, state_of, RelationFilter};
use crate::state::notes::{is_noted_since, lemma_noted_first};
use crate::state::refusal::{refused, relation_refusal, Refusal, RefusalView};
use crate::state::{data_of, AnalysisState, AnalysisStateView, MutationResult, MutationResultView, StateData};
use crate::text::{ascii_lowercase, eq_ignore_ascii_case, join2, join3, join5};
use crate::transaction::{NamespaceSnapshot, NamespaceSnapshotView, StateChangeView};
use vstd::prelude::*;

verus! {

broadcast use group_steps;

// ---------------------------------------------------------------------------
// Owners
// ---------------------------------------------------------------------------

/// A sequence that a column of the table owns follows the table's owner.
pub open spec fn sequence_with_owner(o: Overlay<SequenceStateView>, id: ObjectIdView, owner: ObjectIdView) -> Overlay<SequenceStateView> {
    match o {
        Overlay::Present(s) => if s.owned_by is Some && (s.owned_by->0).0 == id {
            Overlay::Present(SequenceStateView { owner, ..s })
        } else {
            o
        },
        Overlay::Dropped => o,
    }
}

#[verifier::opaque]
pub open spec fn namespace_with_owner(d: StateData, n: NamespaceSnapshotView, id: ObjectIdView, owner: ObjectIdView) -> NamespaceSnapshotView {
    NamespaceSnapshotView {
        relations: d.relations.insert(id, Overlay::Present(RelationStateView { owner, ..state_of(d.relations, id) })),
        sequences: Map::new(
            |s: ObjectIdView| d.sequences.dom().contains(s),
            |s: ObjectIdView| sequence_with_owner(d.sequences[s], id, owner),
        ),
        ..n
    }
}

/// The data with another owner of a relation.
pub open spec fn with_owner(d: StateData, id: ObjectIdView, owner: Seq<char>) -> StateData {
    with_namespace(d, namespace_with_owner(d, namespace_of(d), id, role_object(owner)))
}

pub open spec fn owner_absent(name: Seq<char>) -> RefusalView {
    RefusalView::Conflict("role '"@ + name + "' does not exist"@)
}

/// `ALTER TABLE ... OWNER TO`.
#[verifier::opaque]
pub open spec fn table_owner_changed(d: StateData, id: ObjectIdView, owner: RoleFact) -> (StateData, MutationResultView) {
    match role_identity(d, owner) {
        None => refused(d, RefusalView::Uncovered),
        Some((name, known)) => if owner_missing(d, name, known) {
            refused(d, owner_absent(name))
        } else {
            (with_owner(owner_looked_up(d, known), id, name), MutationResultView::Applied)
        },
    }
}

/// Why a relation that is to change its owner cannot.
pub open spec fn owned_relation_refusal(d: StateData, id: ObjectIdView) -> Option<RefusalView> {
    relation_refusal(d, id, RelationFilter::Any, "relation '"@ + id.shown() + "' does not exist"@, "'"@ + id.shown() + "' is not a relation"@)
}

/// The change of a relation's owner by any of the statements that make one.
#[verifier::opaque]
pub open spec fn relation_owner_changed(d: StateData, id: ObjectIdView, owner: RoleFact) -> (StateData, MutationResultView) {
    match role_identity(d, owner) {
        None => (tainted(d, EvidenceCode::UnresolvedReference, EvidenceScope::Chain), MutationResultView::Skipped),
        Some((name, known)) => {
            let d1 = owner_looked_up(d, known);
            if owner_missing(d, name, known) {
                refused(d, owner_absent(name))
            } else if owned_relation_refusal(d1, id) is Some {
                refused(d1, owned_relation_refusal(d1, id)->0)
            } else {
                (with_owner(d1, id, name), MutationResultView::Applied)
            }
        },
    }
}

// ---------------------------------------------------------------------------
// Triggers
// ---------------------------------------------------------------------------

/// Whether the name stands for all triggers.
pub open spec fn means_all(name: Option<Seq<char>>) -> bool {
    name is None || ascii_lowercase(name->0) == ascii_lowercase("all"@)
}

pub open spec fn is_meant(d: StateData, trigger: ObjectIdView, id: ObjectIdView, name: Option<Seq<char>>) -> bool {
    present(d.triggers, trigger) && state_of(d.triggers, trigger).table_id == id && (means_all(name) || name == Some(
        state_of(d.triggers, trigger).name,
    ))
}

#[verifier::opaque]
pub open spec fn with_trigger_mode(d: StateData, id: ObjectIdView, name: Option<Seq<char>>, mode: TriggerEnableMode) -> StateData {
    StateData {
        triggers: Map::new(
            |t: ObjectIdView| d.triggers.dom().contains(t),
            |t: ObjectIdView|
                if is_meant(d, t, id, name) {
                    Overlay::Present(TriggerStateView { enabled_mode: mode, ..state_of(d.triggers, t) })
                } else {
                    d.triggers[t]
                },
        ),
        ..d
    }
}

pub open spec fn some_trigger_is_meant(d: StateData, id: ObjectIdView, name: Option<Seq<char>>) -> bool {
    exists|t: ObjectIdView| #[trigger] d.triggers.dom().contains(t) && is_meant(d, t, id, name)
}

/// `ENABLE TRIGGER` and `DISABLE TRIGGER`.
#[verifier::opaque]
pub open spec fn trigger_mode_changed(d: StateData, id: ObjectIdView, name: Option<Seq<char>>, mode: TriggerEnableMode) -> (StateData, MutationResultView) {
    if !means_all(name) && !some_trigger_is_meant(d, id, name) {
        refused(d, RefusalView::Conflict("trigger '"@ + name->0 + "' does not exist on relation '"@ + id.shown() + "'"@))
    } else {
        (with_trigger_mode(d, id, name, mode), MutationResultView::Applied)
    }
}

// ---------------------------------------------------------------------------
// Partitions
// ---------------------------------------------------------------------------

pub open spec fn child_refusal(d: StateData, child: ObjectIdView) -> Option<RefusalView> {
    relation_refusal(
        d,
        child,
        RelationFilter::Table,
        "partition child relation '"@ + child.shown() + "' does not exist"@,
        "partition child '"@ + child.shown() + "' is not a table"@,
    )
}

pub open spec fn is_partition(e: DependencyEdgeView, child: ObjectIdView) -> bool {
    e.kind is PartitionOf && e.dependent == child
}

/// The edges that make a table a partition.
pub open spec fn partition_edges(d: StateData, child: ObjectIdView) -> Seq<DependencyEdgeView> {
    d.graph.filter(|e: DependencyEdgeView| is_partition(e, child))
}

/// Why a partition cannot be attached.
#[verifier::opaque]
pub open spec fn attach_refusal(d: StateData, id: ObjectIdView, child: ObjectIdView, strategy: Option<Seq<char>>) -> Option<RefusalView> {
    let partition_type = state_of(d.relations, id).partition_type;
    if child_refusal(d, child) is Some {
        child_refusal(d, child)
    } else if partition_type is None {
        Some(RefusalView::Conflict("partition parent '"@ + id.shown() + "' is not partitioned"@))
    } else if strategy is Some && ascii_lowercase(strategy->0) != ascii_lowercase(partition_type->0) {
        Some(
            RefusalView::Conflict(
                "partition strategy for '"@ + child.shown() + "' does not match parent '"@ + id.shown() + "' ("@ + (partition_type->0 + ")"@),
            ),
        )
    } else if would_close_cycle(d.graph, id, child) {
        Some(
            RefusalView::Conflict("attaching partition '"@ + child.shown() + "' to '"@ + id.shown() + "' would create a partition cycle"@),
        )
    } else if partition_edges(d, child).len() > 0 {
        Some(RefusalView::Conflict("partition '"@ + child.shown() + "' is already attached to '"@ + partition_edges(d, child)[0].referenced.shown() + "'"@))
    } else {
        None
    }
}

/// `ATTACH PARTITION`.
pub open spec fn partition_attached(d: StateData, id: ObjectIdView, child: ObjectIdView, strategy: Option<Seq<char>>) -> (StateData, MutationResultView) {
    let refusal = attach_refusal(d, id, child, strategy);
    if refusal is Some {
        refused(d, refusal->0)
    } else {
        (with_graph(d, d.graph.push(edge(child, id, DependencyKindView::PartitionOf))), MutationResultView::Applied)
    }
}

pub open spec fn is_partition_of(e: DependencyEdgeView, child: ObjectIdView, id: ObjectIdView) -> bool {
    e.kind is PartitionOf && e.dependent == child && e.referenced == id
}

/// Why a partition cannot be detached.
#[verifier::opaque]
pub open spec fn detach_refusal(d: StateData, id: ObjectIdView, child: ObjectIdView) -> Option<RefusalView> {
    if child_refusal(d, child) is Some {
        child_refusal(d, child)
    } else if !(exists|i: int| 0 <= i < d.graph.len() && is_partition_of(#[trigger] d.graph[i], child, id)) {
        Some(RefusalView::Conflict("partition '"@ + child.shown() + "' is not attached to parent '"@ + id.shown() + "'"@))
    } else {
        None
    }
}

/// `DETACH PARTITION`.
pub open spec fn partition_detached(d: StateData, id: ObjectIdView, child: ObjectIdView) -> (StateData, MutationResultView) {
    let refusal = detach_refusal(d, id, child);
    if refusal is Some {
        refused(d, refusal->0)
    } else {
        (with_graph(d, d.graph.filter(|e: DependencyEdgeView| !is_partition_of(e, child, id))), MutationResultView::Applied)
    }
}

// ---------------------------------------------------------------------------
// The statement
// ---------------------------------------------------------------------------

/// Why the table of `ALTER TABLE` cannot be altered.
#[verifier::opaque]
pub open spec fn altered_table_refusal(d: StateData, id: ObjectIdView) -> Option<RefusalView> {
    relation_refusal(
        d,
        id,
        RelationFilter::Table,
        "relation '"@ + id.shown() + "' does not exist"@,
        "object '"@ + id.shown() + "' is not a table"@,
    )
}

/// What is changed is not modeled, within `scope`.
pub open spec fn unsupported(d: StateData, scope: EvidenceScope) -> (StateData, MutationResultView) {
    (tainted(d, EvidenceCode::UnsupportedSemantics, scope), MutationResultView::Applied)
}

/// One action on a table.
#[verifier::opaque]
pub open spec fn action_applied(d: StateData, id: ObjectIdView, action: AlterTableActionMutation) -> (StateData, MutationResultView) {
    match action {
        AlterTableActionMutation::AddColumn { name, ty, if_not_exists, not_null, default, depends_on, generation } => column_added(
            d,
            id,
            NewColumnView {
                name: name@,
                ty: ty.deep_view(),
                not_null,
                default: default.deep_view(),
                depends_on: depends_on.deep_view(),
                generation,
            },
            if_not_exists,
        ),
        AlterTableActionMutation::DropColumn { name, if_exists, cascade } => column_dropped(d, id, name@, if_exists, cascade),
        AlterTableActionMutation::RenameColumn { from, to } => column_renamed_in(d, id, from@, to@),
        AlterTableActionMutation::AddForeignKey { constraint_name, to_table, from_columns, to_columns, not_valid } => fk_added(
            d,
            KeyUseView { table: id, to_table: to_table@, from_columns: from_columns.deep_view(), to_columns: to_columns.deep_view() },
            constraint_name.deep_view(),
            not_valid,
        ),
        AlterTableActionMutation::AlterConstraint { name, .. } => constraint_altered(d, id, name.deep_view()),
        AlterTableActionMutation::RenameConstraint { old_name, new_name } => constraint_renamed(d, id, old_name@, new_name@),
        AlterTableActionMutation::DropConstraint { name, if_exists, .. } => constraint_dropped(d, id, name@, if_exists),
        AlterTableActionMutation::AddCheckConstraint { constraint_name, columns, columns_complete, not_valid } => inline_added(
            d,
            id,
            ConstraintKind::Check,
            constraint_name.deep_view(),
            columns.deep_view(),
            columns_complete,
            not_valid,
        ),
        AlterTableActionMutation::AddUniqueConstraint { constraint_name, columns, using_index } => key_added(
            d,
            id,
            ConstraintKind::Unique,
            constraint_name.deep_view(),
            columns.deep_view(),
            using_index.deep_view(),
        ),
        AlterTableActionMutation::AddPrimaryKeyConstraint { constraint_name, columns, using_index } => key_added(
            d,
            id,
            ConstraintKind::PrimaryKey,
            constraint_name.deep_view(),
            columns.deep_view(),
            using_index.deep_view(),
        ),
        AlterTableActionMutation::AddExcludeConstraint { constraint_name, columns, columns_complete } => inline_added(
            d,
            id,
            ConstraintKind::Exclusion,
            constraint_name.deep_view(),
            columns.deep_view(),
            columns_complete,
            false,
        ),
        AlterTableActionMutation::SetNotNull { column } => nullability_changed(d, id, column@, false),
        AlterTableActionMutation::DropNotNull { column } => nullability_changed(d, id, column@, true),
        AlterTableActionMutation::SetType { column, ty, .. } => type_changed(d, id, column@, ty@),
        AlterTableActionMutation::SetDefault { column, default } => default_changed(d, id, column@, default.deep_view()),
        AlterTableActionMutation::ValidateConstraint { constraint_name } => constraint_validated(d, id, constraint_name@),
        AlterTableActionMutation::DisableTrigger { trigger_name } => trigger_mode_changed(
            d,
            id,
            trigger_name.deep_view(),
            TriggerEnableMode::Disabled,
        ),
        AlterTableActionMutation::EnableTrigger { trigger_name } => trigger_mode_changed(d, id, trigger_name.deep_view(), TriggerEnableMode::Origin),
        AlterTableActionMutation::AttachPartition { child, strategy } => partition_attached(d, id, child@, strategy.deep_view()),
        AlterTableActionMutation::DetachPartition { child } => partition_detached(d, id, child@),
        AlterTableActionMutation::SetStorage { .. } => unsupported(d, EvidenceScope::Statement),
        AlterTableActionMutation::SetAccessMethod => unsupported(d, EvidenceScope::Statement),
        AlterTableActionMutation::OwnerTo { new_owner } => table_owner_changed(d, id, new_owner),
        AlterTableActionMutation::Opaque => unsupported(d, EvidenceScope::Chain),
    }
}

/// `ALTER TABLE`.
pub open spec fn table_altered(d: StateData, alter: AlterTable) -> (StateData, MutationResultView) {
    let refusal = altered_table_refusal(d, alter.id@);
    if refusal is Some {
        refused(d, refusal->0)
    } else {
        action_applied(d, alter.id@, alter.action)
    }
}

/// Whether an action removes edges with no more recorded than how many there
/// were.
pub open spec fn removes_edges_for_good(action: AlterTableActionMutation) -> bool {
    action is DropConstraint || action is DetachPartition
}

/// How an action that was applied is undone. Most have nothing to do with edges;
/// those that add edges mark how many there were.
pub open spec fn action_edge_undo(d: StateData, id: ObjectIdView, action: AlterTableActionMutation, after: StateData) -> EdgeUndo {
    match action {
        AlterTableActionMutation::DropColumn { name, cascade, .. } => column_edge_undo(d, id, column_drop(d, id, name@, cascade)),
        AlterTableActionMutation::RenameColumn { .. } | AlterTableActionMutation::SetDefault { .. } | AlterTableActionMutation::RenameConstraint { .. } => {
            EdgeUndo::PutBack
        },
        AlterTableActionMutation::AddUniqueConstraint { constraint_name, using_index, .. } => key_edge_undo(
            d,
            key_name(d, id, ConstraintKind::Unique, constraint_name.deep_view(), using_index.deep_view()),
            using_index.deep_view(),
            after,
        ),
        AlterTableActionMutation::AddPrimaryKeyConstraint { constraint_name, using_index, .. } => key_edge_undo(
            d,
            key_name(d, id, ConstraintKind::PrimaryKey, constraint_name.deep_view(), using_index.deep_view()),
            using_index.deep_view(),
            after,
        ),
        AlterTableActionMutation::AddForeignKey { .. } | AlterTableActionMutation::AttachPartition { .. } => EdgeUndo::Cut,
        AlterTableActionMutation::AddColumn { .. } | AlterTableActionMutation::AddCheckConstraint { .. }
        | AlterTableActionMutation::AddExcludeConstraint { .. } => appending(d.graph, after.graph),
        _ => EdgeUndo::Stay,
    }
}

/// What undoing an action gives: the data from before it, but for the edges that
/// are removed for good.
pub open spec fn action_undone_by(s: AnalysisStateView, id: ObjectIdView, action: AlterTableActionMutation, t: AnalysisStateView, r: MutationResultView) -> bool {
    if removes_edges_for_good(action) && r is Applied {
        undone_by(s, t, EdgeUndo::Cut)
    } else {
        kept_as(s, t, if_applied(r, action_edge_undo(s.data, id, action, t.data)))
    }
}

// ---------------------------------------------------------------------------
// Execution
// ---------------------------------------------------------------------------

fn means_all_triggers(name: &Option<String>) -> (r: bool)
    ensures
        r == means_all(name.deep_view()),
{
    match name {
        Some(text) => eq_ignore_ascii_case(text, "all"),
        None => true,
    }
}

impl AnalysisState {
    fn namespace_with_owner(&self, id: &ObjectId, owner: &ObjectId) -> (r: NamespaceSnapshot)
        requires
            present(self@.data.relations, id@),
        ensures
            r@ == namespace_with_owner(self@.data, namespace_of(self@.data), id@, owner@),
    {
        let ghost d = self@.data;
        let mut n = self.current_namespace();
        if let Some(relation) = self.present_relation(id) {
            let mut relation = relation.dup();
            relation.owner = owner.dup();
            n.relations.insert(id.dup(), Overlay::Present(relation));
        }
        let follow = |s: &ObjectId, o: &SequenceOverlay| -> (x: SequenceOverlay)
            ensures
                x.deep_view() == sequence_with_owner(o.deep_view(), id@, owner@),
            {
                match o {
                    Overlay::Present(state) => {
                        let mut state = state.dup();
                        let owned = match &state.owned_by {
                            Some((table, _)) => table.same(id),
                            None => false,
                        };
                        if owned {
                            state.owner = owner.dup();
                        }
                        Overlay::Present(state)
                    },
                    Overlay::Dropped => Overlay::Dropped,
                }
            };
        n.sequences = n.sequences.map_entries(
            follow,
            Ghost(|s: ObjectIdView, o: Overlay<SequenceStateView>| sequence_with_owner(o, id@, owner@)),
        );
        proof {
            reveal(namespace_with_owner);
            let goal = namespace_with_owner(d, namespace_of(d), id@, owner@);
            assert(n@.sequences =~= goal.sequences);
            assert(n@ =~= goal);
        }
        n
    }

    fn set_owner(&mut self, id: &ObjectId, owner: &String)
        requires
            present(old(self)@.data.relations, id@),
        ensures
            final(self)@.data == with_owner(old(self)@.data, id@, owner@),
            kept(old(self)@, final(self)@),
    {
        let n = self.namespace_with_owner(id, &ObjectId::new("", owner));
        proof {
            reveal(namespace_with_owner);
        }
        self.replace_appending(n);
    }

    fn change_table_owner(&mut self, id: &ObjectId, owner: &RoleFact) -> (r: MutationResult)
        requires
            present(old(self)@.data.relations, id@),
        ensures
            (final(self)@.data, r@) == table_owner_changed(old(self)@.data, id@, *owner),
            kept(old(self)@, final(self)@),
    {
        proof {
            reveal(table_owner_changed);
        }
        match self.role_fact_identity(owner) {
            None => self.refuse(Refusal::Uncovered),
            Some((name, known)) => {
                if self.owner_missing(&name, known) {
                    return self.refuse(Refusal::Conflict(join3("role '", &name, "' does not exist")));
                }
                self.look_up_owner(known);
                self.set_owner(id, &name);
                MutationResult::Applied
            },
        }
    }

    pub(crate) fn apply_change_relation_owner(&mut self, id: &ObjectId, new_owner: &RoleFact) -> (r: MutationResult)
        ensures
            (final(self)@.data, r@) == relation_owner_changed(old(self)@.data, id@, *new_owner),
            kept(old(self)@, final(self)@),
    {
        proof {
            reveal(relation_owner_changed);
        }
        match self.role_fact_identity(new_owner) {
            None => {
                self.taint(EvidenceCode::UnresolvedReference, EvidenceScope::Chain);
                MutationResult::Skipped
            },
            Some((name, known)) => {
                if self.owner_missing(&name, known) {
                    return self.refuse(Refusal::Conflict(join3("role '", &name, "' does not exist")));
                }
                self.look_up_owner(known);
                let shown = id.show();
                let refusal = self.relation_refusal(
                    id,
                    RelationFilter::Any,
                    join3("relation '", &shown, "' does not exist"),
                    join3("'", &shown, "' is not a relation"),
                );
                if let Some(refusal) = refusal {
                    return self.refuse(refusal);
                }
                self.set_owner(id, &name);
                MutationResult::Applied
            },
        }
    }

    fn is_meant(&self, trigger: &ObjectId, id: &ObjectId, name: &Option<String>) -> (r: bool)
        ensures
            r == is_meant(self@.data, trigger@, id@, name.deep_view()),
    {
        match self.present_trigger(trigger) {
            Some(state) => state.table_id.same(id) && (means_all_triggers(name) || match name {
                Some(text) => *text == state.name,
                None => false,
            }),
            None => false,
        }
    }

    fn set_trigger_mode(&mut self, id: &ObjectId, name: &Option<String>, mode: TriggerEnableMode)
        ensures
            final(self)@.data == with_trigger_mode(old(self)@.data, id@, name.deep_view(), mode),
            kept(old(self)@, final(self)@),
    {
        let ghost d = self@.data;
        let mut n = self.current_namespace();
        let change = |t: &ObjectId, o: &TriggerOverlay| -> (x: TriggerOverlay)
            ensures
                x.deep_view() == (if is_meant(self@.data, t@, id@, name.deep_view()) {
                    match o.deep_view() {
                        Overlay::Present(s) => Overlay::Present(TriggerStateView { enabled_mode: mode, ..s }),
                        Overlay::Dropped => Overlay::Dropped,
                    }
                } else {
                    o.deep_view()
                }),
            {
                if self.is_meant(t, id, name) {
                    match o {
                        Overlay::Present(state) => {
                            let mut state = state.dup();
                            state.enabled_mode = mode;
                            Overlay::Present(state)
                        },
                        Overlay::Dropped => Overlay::Dropped,
                    }
                } else {
                    o.dup()
                }
            };
        n.triggers = n.triggers.map_entries(
            change,
            Ghost(
                |t: ObjectIdView, o: Overlay<TriggerStateView>|
                    if is_meant(d, t, id@, name.deep_view()) {
                        match o {
                            Overlay::Present(s) => Overlay::Present(TriggerStateView { enabled_mode: mode, ..s }),
                            Overlay::Dropped => Overlay::Dropped,
                        }
                    } else {
                        o
                    },
            ),
        );
        self.replace_appending(n);
        proof {
            reveal(with_trigger_mode);
            reveal(crate::state::journal::undone);
            assert(self@.data.triggers =~= with_trigger_mode(d, id@, name.deep_view(), mode).triggers);
        }
    }

    fn some_trigger_is_meant(&self, id: &ObjectId, name: &Option<String>) -> (r: bool)
        ensures
            r == some_trigger_is_meant(self@.data, id@, name.deep_view()),
    {
        proof {
            reveal(data_of);
        }
        let ghost d = self@.data;
        let is = |t: &ObjectId, o: &TriggerOverlay| -> (b: bool)
            ensures
                b == is_meant(self@.data, t@, id@, name.deep_view()),
            { self.is_meant(t, id, name) };
        let ghost p = |t: ObjectIdView, o: Overlay<TriggerStateView>| is_meant(d, t, id@, name.deep_view());
        let r = self.local.triggers.any(is, Ghost(p));
        proof {
            let m = self@.data.triggers;
            if r {
                let t = choose|t: ObjectIdView| #[trigger] self.local.triggers@.dom().contains(t) && p(t, self.local.triggers@[t]);
                assert(m.dom().contains(t));
            } else {
                assert forall|t: ObjectIdView| #[trigger] m.dom().contains(t) implies !is_meant(d, t, id@, name.deep_view()) by {
                    assert(!p(t, self.local.triggers@[t]));
                }
            }
        }
        r
    }

    fn change_trigger_mode(&mut self, id: &ObjectId, name: &Option<String>, mode: TriggerEnableMode) -> (r: MutationResult)
        ensures
            (final(self)@.data, r@) == trigger_mode_changed(old(self)@.data, id@, name.deep_view(), mode),
            kept(old(self)@, final(self)@),
    {
        proof {
            reveal(trigger_mode_changed);
        }
        if let Some(text) = name {
            if !means_all_triggers(name) && !self.some_trigger_is_meant(id, name) {
                return self.refuse(Refusal::Conflict(join5("trigger '", text, "' does not exist on relation '", &id.show(), "'")));
            }
        }
        self.set_trigger_mode(id, name, mode);
        MutationResult::Applied
    }

    fn child_refusal(&self, child: &ObjectId) -> (r: Option<Refusal>)
        ensures
            r.deep_view() == child_refusal(self@.data, child@),
    {
        let shown = child.show();
        self.relation_refusal(
            child,
            RelationFilter::Table,
            join3("partition child relation '", &shown, "' does not exist"),
            join3("partition child '", &shown, "' is not a table"),
        )
    }

    fn partition_edges(&self, child: &ObjectId) -> (r: Vec<DependencyEdge>)
        ensures
            r.deep_view() == partition_edges(self@.data, child@),
    {
        let is = |e: &DependencyEdge| -> (b: bool)
            ensures
                b == is_partition(e@, child@),
            {
                match &e.kind {
                    DependencyKind::PartitionOf => e.dependent.same(child),
                    _ => false,
                }
            };
        crate::collections::vec_filter(self.graph().edges(), is, Ghost(|e: DependencyEdgeView| is_partition(e, child@)))
    }

    fn attach_refusal(&self, id: &ObjectId, child: &ObjectId, strategy: &Option<String>) -> (r: Option<Refusal>)
        requires
            present(self@.data.relations, id@),
        ensures
            r.deep_view() == attach_refusal(self@.data, id@, child@, strategy.deep_view()),
    {
        proof {
            reveal(attach_refusal);
        }
        let refusal = self.child_refusal(child);
        if refusal.is_some() {
            return refusal;
        }
        let partition_type = match self.present_relation(id) {
            Some(relation) => relation.partition_type.dup(),
            None => None,
        };
        match partition_type {
            None => {
                return Some(Refusal::Conflict(join3("partition parent '", &id.show(), "' is not partitioned")));
            },
            Some(kind) => {
                if let Some(text) = strategy {
                    if !eq_ignore_ascii_case(text, &kind) {
                        let head = join5("partition strategy for '", &child.show(), "' does not match parent '", &id.show(), "' (");
                        return Some(Refusal::Conflict(join2(&head, &join2(&kind, ")"))));
                    }
                }
            },
        }
        if self.graph().check_partition_cycle(id, child) {
            return Some(
                Refusal::Conflict(join5("attaching partition '", &child.show(), "' to '", &id.show(), "' would create a partition cycle")),
            );
        }
        let parents = self.partition_edges(child);
        if parents.len() > 0 {
            assert(parents.deep_view()[0] == parents@[0]@);
            return Some(
                Refusal::Conflict(join5("partition '", &child.show(), "' is already attached to '", &parents[0].referenced.show(), "'")),
            );
        }
        None
    }

    fn attach_partition(&mut self, id: &ObjectId, child: &ObjectId, strategy: &Option<String>) -> (r: MutationResult)
        requires
            present(old(self)@.data.relations, id@),
        ensures
            (final(self)@.data, r@) == partition_attached(old(self)@.data, id@, child@, strategy.deep_view()),
            kept_as(old(self)@, final(self)@, if_applied(r@, EdgeUndo::Cut)),
    {
        if let Some(refusal) = self.attach_refusal(id, child, strategy) {
            return self.refuse(refusal);
        }
        proof {
            reveal(with_graph);
        }
        self.append_edge(DependencyEdge::new(child.dup(), id.dup(), DependencyKind::PartitionOf));
        MutationResult::Applied
    }

    fn detach_refusal(&self, id: &ObjectId, child: &ObjectId) -> (r: Option<Refusal>)
        ensures
            r.deep_view() == detach_refusal(self@.data, id@, child@),
    {
        proof {
            reveal(detach_refusal);
        }
        let refusal = self.child_refusal(child);
        if refusal.is_some() {
            return refusal;
        }
        let is = |e: &DependencyEdge| -> (b: bool)
            ensures
                b == is_partition_of(e@, child@, id@),
            {
                match &e.kind {
                    DependencyKind::PartitionOf => e.dependent.same(child) && e.referenced.same(id),
                    _ => false,
                }
            };
        if !self.graph().any_edge(is, Ghost(|e: DependencyEdgeView| is_partition_of(e, child@, id@))) {
            return Some(Refusal::Conflict(join5("partition '", &child.show(), "' is not attached to parent '", &id.show(), "'")));
        }
        None
    }

    fn detach_partition(&mut self, id: &ObjectId, child: &ObjectId) -> (r: MutationResult)
        ensures
            (final(self)@.data, r@) == partition_detached(old(self)@.data, id@, child@),
            r@ is Applied ==> undone_by(old(self)@, final(self)@, EdgeUndo::Cut),
            !(r@ is Applied) ==> kept(old(self)@, final(self)@),
            r@ is Applied ==> is_noted_since(old(self)@, id@, final(self)@),
    {
        if let Some(refusal) = self.detach_refusal(id, child) {
            return self.refuse(refusal);
        }
        proof {
            reveal(with_graph);
        }
        let ghost start = self@;
        self.snapshot_relation(id);
        let ghost noted = self@;
        let stays = |e: &DependencyEdge| -> (b: bool)
            ensures
                b == !is_partition_of(e@, child@, id@),
            {
                match &e.kind {
                    DependencyKind::PartitionOf => !(e.dependent.same(child) && e.referenced.same(id)),
                    _ => true,
                }
            };
        self.retain_edges_marked(stays, Ghost(|e: DependencyEdgeView| !is_partition_of(e, child@, id@)));
        assert(kept(start, noted));
        proof {
            lemma_undone_after(start, noted, self@, EdgeUndo::Stay, EdgeUndo::Cut);
            lemma_noted_first(
                start,
                id@,
                noted,
                noted,
                StateChangeView::GraphLengthMarker { len: noted.data.graph.len() as usize },
                self@,
            );
        }
        MutationResult::Applied
    }

    fn altered_table_refusal(&self, id: &ObjectId) -> (r: Option<Refusal>)
        ensures
            r.deep_view() == altered_table_refusal(self@.data, id@),
            r is None ==> present(self@.data.relations, id@),
    {
        proof {
            reveal(altered_table_refusal);
        }
        let shown = id.show();
        self.relation_refusal(
            id,
            RelationFilter::Table,
            join3("relation '", &shown, "' does not exist"),
            join3("object '", &shown, "' is not a table"),
        )
    }

    fn note_unsupported(&mut self, scope: EvidenceScope) -> (r: MutationResult)
        ensures
            (final(self)@.data, r@) == unsupported(old(self)@.data, scope),
            kept(old(self)@, final(self)@),
    {
        self.taint(EvidenceCode::UnsupportedSemantics, scope);
        MutationResult::Applied
    }

    fn apply_action(&mut self, id: &ObjectId, action: &AlterTableActionMutation) -> (r: MutationResult)
        requires
            present(old(self)@.data.relations, id@),
            old(self)@.data.generation_counter < u64::MAX,
        ensures
            (final(self)@.data, r@) == action_applied(old(self)@.data, id@, *action),
            action_undone_by(old(self)@, id@, *action, final(self)@, r@),
            removes_edges_for_good(*action) && r@ is Applied ==> is_noted_since(old(self)@, id@, final(self)@),
    {
        proof {
            reveal(action_applied);
        }
        match action {
            AlterTableActionMutation::AddColumn { name, ty, if_not_exists, not_null, default, depends_on, generation } => {
                let c = NewColumn {
                    name: name.clone(),
                    ty: ty.dup(),
                    not_null: *not_null,
                    default: default.dup(),
                    depends_on: depends_on.dup(),
                    generation: *generation,
                };
                self.add_column(id, &c, *if_not_exists)
            },
            AlterTableActionMutation::DropColumn { name, if_exists, cascade } => self.drop_column(id, name, *if_exists, *cascade),
            AlterTableActionMutation::RenameColumn { from, to } => self.rename_column(id, from, to),
            AlterTableActionMutation::AddForeignKey { constraint_name, to_table, from_columns, to_columns, not_valid } => {
                let k = KeyUse { table: id.dup(), to_table: to_table.dup(), from_columns: from_columns.dup(), to_columns: to_columns.dup() };
                self.add_foreign_key(&k, constraint_name, *not_valid)
            },
            AlterTableActionMutation::AlterConstraint { name, .. } => self.alter_constraint(id, name),
            AlterTableActionMutation::RenameConstraint { old_name, new_name } => self.rename_constraint(id, old_name, new_name),
            AlterTableActionMutation::DropConstraint { name, if_exists, .. } => self.drop_constraint(id, name, *if_exists),
            AlterTableActionMutation::AddCheckConstraint { constraint_name, columns, columns_complete, not_valid } => self.add_inline(
                id,
                ConstraintKind::Check,
                constraint_name,
                columns,
                *columns_complete,
                *not_valid,
            ),
            AlterTableActionMutation::AddUniqueConstraint { constraint_name, columns, using_index } => self.add_key_constraint(
                id,
                ConstraintKind::Unique,
                constraint_name,
                columns,
                using_index,
            ),
            AlterTableActionMutation::AddPrimaryKeyConstraint { constraint_name, columns, using_index } => self.add_key_constraint(
                id,
                ConstraintKind::PrimaryKey,
                constraint_name,
                columns,
                using_index,
            ),
            AlterTableActionMutation::AddExcludeConstraint { constraint_name, columns, columns_complete } => self.add_inline(
                id,
                ConstraintKind::Exclusion,
                constraint_name,
                columns,
                *columns_complete,
                false,
            ),
            AlterTableActionMutation::SetNotNull { column } => self.change_nullability(id, column, false),
            AlterTableActionMutation::DropNotNull { column } => self.change_nullability(id, column, true),
            AlterTableActionMutation::SetType { column, ty, .. } => self.change_type(id, column, ty),
            AlterTableActionMutation::SetDefault { column, default } => self.change_default(id, column, default),
            AlterTableActionMutation::ValidateConstraint { constraint_name } => self.validate_constraint(id, constraint_name),
            AlterTableActionMutation::DisableTrigger { trigger_name } => self.change_trigger_mode(id, trigger_name, TriggerEnableMode::Disabled),
            AlterTableActionMutation::EnableTrigger { trigger_name } => self.change_trigger_mode(id, trigger_name, TriggerEnableMode::Origin),
            AlterTableActionMutation::AttachPartition { child, strategy } => self.attach_partition(id, child, strategy),
            AlterTableActionMutation::DetachPartition { child } => self.detach_partition(id, child),
            AlterTableActionMutation::SetStorage { .. } => self.note_unsupported(EvidenceScope::Statement),
            AlterTableActionMutation::SetAccessMethod => self.note_unsupported(EvidenceScope::Statement),
            AlterTableActionMutation::OwnerTo { new_owner } => self.change_table_owner(id, new_owner),
            AlterTableActionMutation::Opaque => self.note_unsupported(EvidenceScope::Chain),
        }
    }

    pub(crate) fn apply_alter_table(&mut self, alter: &AlterTable) -> (r: MutationResult)
        requires
            old(self)@.data.generation_counter < u64::MAX,
        ensures
            (final(self)@.data, r@) == table_altered(old(self)@.data, *alter),
            action_undone_by(old(self)@, alter.id@, alter.action, final(self)@, r@),
            removes_edges_for_good(alter.action) && r@ is Applied ==> is_noted_since(old(self)@, alter.id@, final(self)@),
    {
        if let Some(refusal) = self.altered_table_refusal(&alter.id) {
            return self.refuse(refusal);
        }
        self.apply_action(&alter.id, &alter.action)
    }
}

} // verus!
