//! Views, materialized views and indexes.
use crate::collections::{set_of, vec_contains, vec_map, Dup, Key, VecSet};
use crate::graph::{edge, resolved, DependencyEdge, DependencyEdgeView, DependencyKind, DependencyKindView};
use crate::identifiers::{role_object, ObjectId, ObjectIdView};
use crate::model::column_action::new_relation;
use crate::model::constraint::{ConstraintKind, ConstraintState, ConstraintStateView};
use crate::model::relation::{Persistence, RelationKind, RelationState, RelationStateView};
use crate::model::Overlay;
use crate::mutations::{
    CreateIndex, CreateMaterializedView, CreateView, DropIndex, DropMaterializedViewMutation, DropViewMutation, RefreshMaterializedViewMutation,
};
use crate::state::apply_schema::{dropped_where, drop_where, reaches_unmodeled};
use crate::state::apply_sequence::distrusted_if;
use crate::state::cascade::{cascade_for, constraints_removed, CascadeResult, CascadeView};
use crate::state::journal::{distrusted, group_steps, if_applied, kept, kept_as, namespace_of, undone_by, with_namespace, EdgeUndo};
use crate::state::lookup::{
    conflict, conflict_with, index_lookup, index_present, is_index, namespace_taken, present, relation_lookup, relation_target_checked, schema_target_checked,
    state_of, RelationFilter,
};
use crate::state::{data_of, AnalysisState, MutationResult, MutationResultView, ObjectLookup, StateData};
use crate::text::{join2, join3};
use crate::transaction::{NamespaceSnapshot, NamespaceSnapshotView};
use vstd::prelude::*;

verus! {

broadcast use group_steps;

/// Where a list of dependencies stops to be usable. A recursive view depends
/// on itself; that names no object that must exist already.
pub open spec fn first_bad_dependency(d: StateData, id: ObjectIdView, list: Seq<ObjectIdView>, i: nat) -> nat
    decreases list.len() - i,
{
    if i >= list.len() || (list[i as int] != id && relation_lookup(d, list[i as int], RelationFilter::Any) != ObjectLookup::Present) {
        i
    } else {
        first_bad_dependency(d, id, list, i + 1)
    }
}

/// What checking what a view depends on leads to.
#[verifier::opaque]
pub open spec fn dependencies_checked(d: StateData, id: ObjectIdView, list: Seq<ObjectIdView>) -> (StateData, Option<MutationResultView>) {
    let i = first_bad_dependency(d, id, list, 0);
    if i < list.len() {
        let shown = list[i as int].shown();
        relation_target_checked(
            d,
            list[i as int],
            RelationFilter::Any,
            "view dependency relation '"@ + shown + "' does not exist"@,
            "view dependency '"@ + shown + "' is not a relation"@,
        )
    } else {
        (d, None)
    }
}

pub open spec fn relation_exists_already(id: ObjectIdView) -> MutationResultView {
    conflict("relation '"@ + id.shown() + "' already exists"@)
}

/// The edges of a view.
pub open spec fn view_edges(id: ObjectIdView, list: Seq<ObjectIdView>, generation: u64) -> Seq<DependencyEdgeView> {
    list.map_values(
        |dependency: ObjectIdView|
            edge(id, dependency, DependencyKindView::ViewDependency { view_generation: generation, referenced_column: None }),
    )
}

pub open spec fn is_view_edge_of(e: DependencyEdgeView, id: ObjectIdView) -> bool {
    e.kind is ViewDependency && e.dependent == id
}

pub open spec fn is_view(d: StateData, id: ObjectIdView) -> bool {
    relation_lookup(d, id, RelationFilter::View) == ObjectLookup::Present
}

/// A view that is replaced keeps all that is known of it but its generation.
pub open spec fn view_state(d: StateData, id: ObjectIdView, generation: u64, depth: u64) -> RelationStateView {
    if is_view(d, id) {
        RelationStateView {
            id,
            generation,
            kind: RelationKind::View,
            persistence: Persistence::Permanent,
            ..state_of(d.relations, id)
        }
    } else {
        new_relation(id, role_object(d.current_role), generation, None, RelationKind::View, Persistence::Permanent, depth)
    }
}

/// The data with a view.
#[verifier::opaque]
pub open spec fn with_view(d: StateData, id: ObjectIdView, list: Seq<ObjectIdView>, depth: u64) -> StateData {
    let generation = (d.generation_counter + 1) as u64;
    StateData {
        generation_counter: generation,
        relations: d.relations.insert(id, Overlay::Present(view_state(d, id, generation, depth))),
        graph: (if is_view(d, id) {
            d.graph.filter(|e: DependencyEdgeView| !is_view_edge_of(e, id))
        } else {
            d.graph
        }) + view_edges(id, list, generation),
        ..d
    }
}

/// `CREATE VIEW`.
pub open spec fn view_created(d: StateData, id: ObjectIdView, or_replace: bool, list: Seq<ObjectIdView>, depth: u64) -> (StateData, MutationResultView) {
    let (d1, refused) = schema_target_checked(d, id.schema);
    let (d2, unusable) = dependencies_checked(d, id, list);
    if refused is Some {
        (d1, refused->0)
    } else if namespace_taken(d, id) && (!or_replace || !is_view(d, id)) {
        (d, relation_exists_already(id))
    } else if unusable is Some {
        (d2, unusable->0)
    } else {
        (with_view(d, id, list, depth), MutationResultView::Applied)
    }
}

/// The data with a materialized view.
#[verifier::opaque]
pub open spec fn with_materialized_view(d: StateData, id: ObjectIdView, list: Seq<ObjectIdView>, depth: u64) -> StateData {
    let generation = (d.generation_counter + 1) as u64;
    let view = new_relation(id, role_object(d.current_role), generation, None, RelationKind::MaterializedView, Persistence::Permanent, depth);
    StateData {
        generation_counter: generation,
        relations: d.relations.insert(id, Overlay::Present(view)),
        graph: d.graph + view_edges(id, list, generation),
        ..d
    }
}

/// `CREATE MATERIALIZED VIEW`.
pub open spec fn materialized_view_created(d: StateData, id: ObjectIdView, list: Seq<ObjectIdView>, depth: u64) -> (StateData, MutationResultView) {
    let (d1, refused) = schema_target_checked(d, id.schema);
    let (d2, unusable) = dependencies_checked(d, id, list);
    if refused is Some {
        (d1, refused->0)
    } else if namespace_taken(d, id) {
        (d, relation_exists_already(id))
    } else if unusable is Some {
        (d2, unusable->0)
    } else {
        (with_materialized_view(d, id, list, depth), MutationResultView::Applied)
    }
}

/// `REFRESH MATERIALIZED VIEW`.
pub open spec fn materialized_view_refreshed(d: StateData, in_transaction: bool, id: ObjectIdView, concurrently: bool) -> (
    StateData,
    MutationResultView,
) {
    if concurrently && in_transaction {
        (d, conflict("REFRESH MATERIALIZED VIEW CONCURRENTLY cannot run inside a transaction block"@))
    } else {
        match relation_lookup(d, id, RelationFilter::MaterializedView) {
            ObjectLookup::Present => if concurrently && state_of(d.relations, id).is_populated == Some(false) {
                (d, conflict("materialized view '"@ + id.shown() + "' is not populated and cannot be refreshed concurrently"@))
            } else {
                (d, MutationResultView::Applied)
            },
            ObjectLookup::WrongKind => (d, conflict("'"@ + id.shown() + "' is not a materialized view"@)),
            ObjectLookup::Unknown => (distrusted(d), MutationResultView::Skipped),
            _ => (d, conflict("materialized view '"@ + id.shown() + "' does not exist"@)),
        }
    }
}

/// Whether a relation is a partitioned table.
pub open spec fn is_partitioned(d: StateData, id: ObjectIdView) -> bool {
    present(d.relations, id) && state_of(d.relations, id).partition_type is Some
}

/// The edge of a new index. Expressions and predicates may read columns that
/// the statement does not list.
pub open spec fn index_edge_of(create: CreateIndex) -> DependencyEdgeView {
    edge(
        create.id@,
        create.table@,
        DependencyKindView::IndexOnRelation {
            using_method: create.using_method.deep_view(),
            key_columns: create.key_columns.deep_view(),
            included_columns: create.included_columns.deep_view(),
            dependency_columns: create.key_columns.deep_view() + create.included_columns.deep_view(),
            dependency_columns_known: !create.has_expression_keys && !create.has_predicate,
            has_expression_keys: create.has_expression_keys,
            has_predicate: create.has_predicate,
            is_concurrent: create.concurrently,
            is_unique: create.unique,
            is_valid: true,
            is_ready: true,
            is_live: true,
            has_default_sort_order: create.has_default_sort_order,
            has_default_opclasses: create.has_default_opclasses,
            has_default_collations: create.has_default_collations,
            eligibility_known: true,
        },
    )
}

/// What checking the table of a new index leads to.
#[verifier::opaque]
pub open spec fn index_target_checked(d: StateData, table: ObjectIdView) -> (StateData, Option<MutationResultView>) {
    relation_target_checked(
        d,
        table,
        RelationFilter::Indexable,
        "index target relation '"@ + table.shown() + "' does not exist"@,
        "index target '"@ + table.shown() + "' cannot be indexed"@,
    )
}

/// The data with one edge more.
#[verifier::opaque]
pub open spec fn with_edge(d: StateData, e: DependencyEdgeView) -> StateData {
    StateData { graph: d.graph.push(e), ..d }
}

/// `CREATE INDEX`.
pub open spec fn index_created(d: StateData, in_transaction: bool, create: CreateIndex) -> (StateData, MutationResultView) {
    let (d1, refused) = schema_target_checked(d, create.id@.schema);
    let (d2, unusable) = index_target_checked(d, create.table@);
    if create.concurrently && in_transaction {
        (d, conflict("CREATE INDEX CONCURRENTLY cannot run inside a transaction block"@))
    } else if refused is Some {
        (d1, refused->0)
    } else if create.if_not_exists && index_present(d, create.id@) {
        (d, MutationResultView::Skipped)
    } else if namespace_taken(d, create.id@) {
        (d, relation_exists_already(create.id@))
    } else if unusable is Some {
        (d2, unusable->0)
    } else if create.concurrently && is_partitioned(d, create.table@) {
        (d, conflict("cannot create index on partitioned table '"@ + create.table@.shown() + "' concurrently"@))
    } else {
        (with_edge(d, index_edge_of(create)), MutationResultView::Applied)
    }
}

/// Whether `DROP VIEW` and its kin fail at a name.
pub open spec fn relation_drop_fails_at(d: StateData, id: ObjectIdView, filter: RelationFilter, if_exists: bool) -> bool {
    match relation_lookup(d, id, filter) {
        ObjectLookup::Present => false,
        ObjectLookup::Unknown => false,
        ObjectLookup::WrongKind => true,
        _ => !if_exists,
    }
}

pub open spec fn first_undroppable(d: StateData, ids: Seq<ObjectIdView>, filter: RelationFilter, if_exists: bool, i: nat) -> nat
    decreases ids.len() - i,
{
    if i >= ids.len() || relation_drop_fails_at(d, ids[i as int], filter, if_exists) {
        i
    } else {
        first_undroppable(d, ids, filter, if_exists, i + 1)
    }
}

pub open spec fn unknown_relation_before(d: StateData, ids: Seq<ObjectIdView>, filter: RelationFilter, n: nat) -> bool {
    exists|i: int| 0 <= i < n && relation_lookup(d, #[trigger] ids[i], filter) == ObjectLookup::Unknown
}

pub open spec fn is_outside_view_of(d: StateData, e: DependencyEdgeView, roots: Seq<ObjectIdView>) -> bool {
    e.kind is ViewDependency && roots.contains(resolved(d.graph, e.referenced)) && !roots.contains(resolved(d.graph, e.dependent))
}

/// Whether a view outside of the dropped relations reads one of them.
pub open spec fn has_outside_views(d: StateData, roots: Seq<ObjectIdView>) -> bool {
    exists|i: int| 0 <= i < d.graph.len() && is_outside_view_of(d, #[trigger] d.graph[i], roots)
}

/// What falls with relations.
pub open spec fn family_cascade(d: StateData, roots: Seq<ObjectIdView>, cascade: bool) -> CascadeView {
    if cascade {
        cascade_for(d, roots.to_set())
    } else {
        CascadeView { relations: roots.to_set(), indexes: Set::empty(), constraints: Set::empty() }
    }
}

pub open spec fn falls_as_modeled(d: StateData, c: CascadeView, id: ObjectIdView) -> bool {
    c.relations.contains(id) && present(d.relations, id)
}

/// Whether a trigger falls with its table.
pub open spec fn trigger_falls_with_table(d: StateData, c: CascadeView, id: ObjectIdView) -> bool {
    present(d.triggers, id) && falls_as_modeled(d, c, resolved(d.graph, state_of(d.triggers, id).table_id))
}

/// Whether an edge touches what falls.
pub open spec fn edge_falls(d: StateData, e: DependencyEdgeView, c: CascadeView) -> bool {
    let dependent = resolved(d.graph, e.dependent);
    c.indexes.contains(dependent) || c.relations.contains(dependent) || c.relations.contains(resolved(d.graph, e.referenced))
}

/// The namespace after relations were dropped. A dependent view that a scoped
/// cache left out is still known by its edge, which falls too.
#[verifier::opaque]
pub open spec fn namespace_without_relations(d: StateData, n: NamespaceSnapshotView, c: CascadeView) -> NamespaceSnapshotView {
    NamespaceSnapshotView {
        relations: dropped_where(d.relations, |id: ObjectIdView| falls_as_modeled(d, c, id)),
        triggers: dropped_where(d.triggers, |id: ObjectIdView| trigger_falls_with_table(d, c, id)),
        graph: d.graph.filter(|e: DependencyEdgeView| !edge_falls(d, e, c)),
        ..n
    }
}

/// The data after relations were dropped with what falls with them.
#[verifier::opaque]
pub open spec fn family_without(d: StateData, c: CascadeView, cascade: bool) -> StateData {
    let d1 = constraints_removed(distrusted_if(d, cascade && reaches_unmodeled(d, c)), c);
    with_namespace(d1, namespace_without_relations(d1, namespace_of(d1), c))
}

/// Drops relations that are present.
#[verifier::opaque]
pub open spec fn family_dropped(d: StateData, roots: Seq<ObjectIdView>, cascade: bool) -> (StateData, MutationResultView) {
    if !cascade && has_outside_views(d, roots) {
        (d, conflict("relation '"@ + roots[0].shown() + "' still has dependent views; use CASCADE"@))
    } else {
        (family_without(d, family_cascade(d, roots, cascade), cascade), MutationResultView::Applied)
    }
}

/// The relations of a list that the statement accepts.
pub open spec fn accepted_relations(d: StateData, ids: Seq<ObjectIdView>, filter: RelationFilter) -> Seq<ObjectIdView> {
    ids.filter(|id: ObjectIdView| relation_lookup(d, id, filter) == ObjectLookup::Present)
}

pub open spec fn undroppable(d: StateData, id: ObjectIdView, filter: RelationFilter, kind: Seq<char>) -> MutationResultView {
    if relation_lookup(d, id, filter) == ObjectLookup::WrongKind {
        conflict("'"@ + id.shown() + "' is not a "@ + kind)
    } else {
        conflict(kind + " '"@ + id.shown() + "' does not exist"@)
    }
}

/// `DROP VIEW` and `DROP MATERIALIZED VIEW`: every name is looked up before
/// anything is dropped.
pub open spec fn views_dropped(
    d: StateData,
    ids: Seq<ObjectIdView>,
    filter: RelationFilter,
    kind: Seq<char>,
    if_exists: bool,
    cascade: bool,
) -> (StateData, MutationResultView) {
    let stop = first_undroppable(d, ids, filter, if_exists, 0);
    let unknown = unknown_relation_before(d, ids, filter, stop);
    let roots = accepted_relations(d, ids, filter);
    if stop < ids.len() {
        (distrusted_if(d, unknown), undroppable(d, ids[stop as int], filter, kind))
    } else if unknown || roots.len() == 0 {
        (distrusted_if(d, unknown), MutationResultView::Skipped)
    } else {
        family_dropped(d, roots, cascade)
    }
}

/// Whether `DROP INDEX` stops at a name.
pub open spec fn index_drop_stops_at(d: StateData, id: ObjectIdView, if_exists: bool) -> bool {
    match index_lookup(d, id) {
        ObjectLookup::Present => false,
        ObjectLookup::AuthoritativelyAbsent => !if_exists,
        _ => true,
    }
}

pub open spec fn first_undroppable_index(d: StateData, ids: Seq<ObjectIdView>, if_exists: bool, i: nat) -> nat
    decreases ids.len() - i,
{
    if i >= ids.len() || index_drop_stops_at(d, ids[i as int], if_exists) {
        i
    } else {
        first_undroppable_index(d, ids, if_exists, i + 1)
    }
}

/// The first edge of an index.
pub open spec fn index_edge(graph: Seq<DependencyEdgeView>, id: ObjectIdView) -> DependencyEdgeView {
    graph.filter(|e: DependencyEdgeView| is_index(e, id))[0]
}

/// Whether a key constraint of the table bears the index's name.
pub open spec fn backs_constraint(d: StateData, id: ObjectIdView, table: ObjectIdView) -> bool {
    exists|key: (ObjectIdView, Seq<char>)| #[trigger]
        d.constraints.dom().contains(key) && key.1 == id.name && resolved(d.graph, key.0) == table && (d.constraints[key].kind
            == ConstraintKind::PrimaryKey || d.constraints[key].kind == ConstraintKind::Unique)
}

/// Why an index cannot be dropped.
#[verifier::opaque]
pub open spec fn index_drop_refused(d: StateData, id: ObjectIdView, concurrently: bool) -> Option<(StateData, MutationResultView)> {
    let e = index_edge(d.graph, id);
    let table = resolved(d.graph, e.referenced);
    if concurrently && is_partitioned(d, table) {
        Some((d, conflict("cannot drop partitioned index '"@ + id.shown() + "' concurrently"@)))
    } else if backs_constraint(d, id, table) {
        Some((d, conflict("cannot drop index '"@ + id.shown() + "' because a constraint requires it"@)))
    } else if !e.kind->eligibility_known {
        Some((distrusted(d), MutationResultView::Skipped))
    } else {
        None
    }
}

pub open spec fn first_refused_index(d: StateData, ids: Seq<ObjectIdView>, concurrently: bool, i: nat) -> nat
    decreases ids.len() - i,
{
    if i >= ids.len() || (index_present(d, ids[i as int]) && index_drop_refused(d, ids[i as int], concurrently) is Some) {
        i
    } else {
        first_refused_index(d, ids, concurrently, i + 1)
    }
}

proof fn lemma_first_refused(d: StateData, ids: Seq<ObjectIdView>, concurrently: bool, i: nat)
    ensures
        ({
            let k = first_refused_index(d, ids, concurrently, i);
            k < ids.len() ==> index_drop_refused(d, ids[k as int], concurrently) is Some
        }),
    decreases ids.len() - i,
{
    if i < ids.len() && !(index_present(d, ids[i as int]) && index_drop_refused(d, ids[i as int], concurrently) is Some) {
        lemma_first_refused(d, ids, concurrently, i + 1);
    }
}

/// What looking the indexes of `DROP INDEX` up leads to.
#[verifier::opaque]
pub open spec fn index_drop_checked(d: StateData, in_transaction: bool, drop: DropIndex) -> (StateData, Option<MutationResultView>) {
    let ids = drop.ids.deep_view();
    let stop = first_undroppable_index(d, ids, drop.if_exists, 0);
    let refused = first_refused_index(d, ids, drop.concurrently, 0);
    if drop.concurrently && in_transaction {
        (d, Some(conflict("DROP INDEX CONCURRENTLY cannot run inside a transaction block"@)))
    } else if drop.concurrently && drop.cascade {
        (d, Some(conflict("DROP INDEX CONCURRENTLY does not support CASCADE"@)))
    } else if stop < ids.len() {
        if index_lookup(d, ids[stop as int]) == ObjectLookup::AuthoritativelyAbsent {
            (d, Some(conflict("index '"@ + ids[stop as int].shown() + "' does not exist"@)))
        } else {
            (distrusted(d), Some(MutationResultView::Skipped))
        }
    } else if !(exists|i: int| 0 <= i < ids.len() && index_present(d, #[trigger] ids[i])) {
        (d, Some(MutationResultView::Skipped))
    } else if refused < ids.len() {
        let outcome = index_drop_refused(d, ids[refused as int], drop.concurrently)->0;
        (outcome.0, Some(outcome.1))
    } else {
        (d, None)
    }
}

/// Whether an edge is of one of the indexes.
pub open spec fn is_index_of(e: DependencyEdgeView, ids: Seq<ObjectIdView>) -> bool {
    e.kind is IndexOnRelation && ids.contains(e.dependent)
}

/// `DROP INDEX`.
pub open spec fn indexes_dropped(d: StateData, in_transaction: bool, drop: DropIndex) -> (StateData, MutationResultView) {
    let (d1, refused) = index_drop_checked(d, in_transaction, drop);
    if refused is Some {
        (d1, refused->0)
    } else {
        (
            StateData { graph: d.graph.filter(|e: DependencyEdgeView| !is_index_of(e, drop.ids.deep_view())), ..d },
            MutationResultView::Applied,
        )
    }
}

/// Dropping indexes leaves no more edges than there were.
pub proof fn lemma_dropped_indexes(d: StateData, in_transaction: bool, drop: DropIndex)
    requires
        indexes_dropped(d, in_transaction, drop).1 is Applied,
    ensures
        indexes_dropped(d, in_transaction, drop).0.graph.len() <= d.graph.len(),
{
    reveal(index_drop_checked);
    reveal(index_drop_refused);
    lemma_first_refused(d, drop.ids.deep_view(), drop.concurrently, 0);
    d.graph.lemma_filter_len(|e: DependencyEdgeView| !is_index_of(e, drop.ids.deep_view()));
}

/// No index that was dropped is left.
pub proof fn law_dropped_index_is_absent(d: StateData, in_transaction: bool, drop: DropIndex, i: int)
    requires
        indexes_dropped(d, in_transaction, drop).1 is Applied,
        0 <= i < drop.ids.deep_view().len(),
    ensures
        !index_present(indexes_dropped(d, in_transaction, drop).0, drop.ids.deep_view()[i]),
{
    let ids = drop.ids.deep_view();
    let stays = |e: DependencyEdgeView| !is_index_of(e, drop.ids.deep_view());
    reveal(index_drop_checked);
    reveal(index_drop_refused);
    lemma_first_refused(d, ids, drop.concurrently, 0);
    crate::collections::lemma_filtered(d.graph, stays);
    let after = d.graph.filter(stays);
    assert forall|j: int| 0 <= j < after.len() implies !is_index(#[trigger] after[j], ids[i]) by {
        assert(after.contains(after[j]));
        assert(ids.contains(ids[i]));
    }
}

impl AnalysisState {
    pub(crate) fn validate_view_dependencies(&mut self, dependent: &ObjectId, dependencies: &Vec<ObjectId>) -> (r: Result<(), MutationResult>)
        ensures
            ({
                let (data, outcome) = dependencies_checked(old(self)@.data, dependent@, dependencies.deep_view());
                &&& final(self)@.data == data
                &&& match r {
                    Ok(_) => outcome is None && final(self)@ == old(self)@,
                    Err(result) => outcome == Some(result@) && !(result@ is Applied),
                }
            }),
            kept(old(self)@, final(self)@),
    {
        proof {
            reveal(dependencies_checked);
        }
        let ghost d = self@.data;
        let ghost list = dependencies.deep_view();
        let mut i: usize = 0;
        while i < dependencies.len()
            invariant
                i <= dependencies.len(),
                list == dependencies.deep_view(),
                d == old(self)@.data,
                self@ == old(self)@,
                first_bad_dependency(d, dependent@, list, 0) == first_bad_dependency(d, dependent@, list, i as nat),
            decreases dependencies.len() - i,
        {
            proof {
                reveal(dependencies_checked);
                assert(list[i as int] == dependencies@[i as int]@);
            }
            if !dependencies[i].same(dependent) {
                let shown = dependencies[i].show();
                if let Err(result) = self.ensure_relation_target(
                    &dependencies[i],
                    RelationFilter::Any,
                    join3("view dependency relation '", &shown, "' does not exist"),
                    join3("view dependency '", &shown, "' is not a relation"),
                ) {
                    return Err(result);
                }
            }
            i = i + 1;
        }
        Ok(())
    }

    fn is_view(&self, id: &ObjectId) -> (r: bool)
        ensures
            r == is_view(self@.data, id@),
    {
        match self.relation_lookup(id, RelationFilter::View) {
            ObjectLookup::Present => true,
            _ => false,
        }
    }

    fn add_view(&mut self, id: &ObjectId, dependencies: &Vec<ObjectId>)
        requires
            old(self)@.data.generation_counter < u64::MAX,
        ensures
            final(self)@.data == with_view(old(self)@.data, id@, dependencies.deep_view(), old(self)@.frames.len() as u64),
            kept_as(old(self)@, final(self)@, EdgeUndo::PutBack),
    {
        proof {
            reveal(with_view);
        }
        let existing = self.is_view(id);
        let depth = self.transaction_depth();
        let owner = ObjectId::new("", self.current_role());
        let old_state = match self.present_relation(id) {
            Some(relation) => Some(relation.dup()),
            None => None,
        };
        let mut graph = self.graph().dup();
        let generation = self.bump_generation();
        let relation = match (existing, old_state) {
            (true, Some(view)) => {
                let mut view = view;
                view.id = id.dup();
                view.generation = generation;
                view.kind = RelationKind::View;
                view.persistence = Persistence::Permanent;
                view
            },
            _ => RelationState::new(id.dup(), owner, generation, None, RelationKind::View, Persistence::Permanent, depth),
        };
        if existing {
            let stays = |e: &DependencyEdge| -> (b: bool)
                ensures
                    b == !is_view_edge_of(e@, id@),
                {
                    match &e.kind {
                        DependencyKind::ViewDependency { .. } => !e.dependent.same(id),
                        _ => true,
                    }
                };
            graph.retain_matching(stays, Ghost(|e: DependencyEdgeView| !is_view_edge_of(e, id@)));
        }
        graph.add_edges(edges_of_view(id, dependencies, generation));
        self.put_relation(id, Overlay::Present(relation));
        self.set_graph(graph);
    }

    pub(crate) fn apply_create_view(&mut self, create: &CreateView) -> (r: MutationResult)
        requires
            old(self)@.data.generation_counter < u64::MAX,
        ensures
            (final(self)@.data, r@) == view_created(
                old(self)@.data,
                create.id@,
                create.or_replace,
                create.depends_on.deep_view(),
                old(self)@.frames.len() as u64,
            ),
            kept_as(old(self)@, final(self)@, if_applied(r@, EdgeUndo::PutBack)),
    {
        if let Err(result) = self.ensure_schema_target(&create.id.schema) {
            return result;
        }
        if self.relation_namespace_is_taken(&create.id) && (!create.or_replace || !self.is_view(&create.id)) {
            return conflict_with(join3("relation '", &create.id.show(), "' already exists"));
        }
        if let Err(result) = self.validate_view_dependencies(&create.id, &create.depends_on) {
            return result;
        }
        self.add_view(&create.id, &create.depends_on);
        MutationResult::Applied
    }

    fn add_materialized_view(&mut self, id: &ObjectId, dependencies: &Vec<ObjectId>)
        requires
            old(self)@.data.generation_counter < u64::MAX,
        ensures
            final(self)@.data == with_materialized_view(old(self)@.data, id@, dependencies.deep_view(), old(self)@.frames.len() as u64),
            kept_as(old(self)@, final(self)@, EdgeUndo::PutBack),
    {
        proof {
            reveal(with_materialized_view);
        }
        let depth = self.transaction_depth();
        let owner = ObjectId::new("", self.current_role());
        let mut graph = self.graph().dup();
        let generation = self.bump_generation();
        graph.add_edges(edges_of_view(id, dependencies, generation));
        let view = RelationState::new(id.dup(), owner, generation, None, RelationKind::MaterializedView, Persistence::Permanent, depth);
        self.put_relation(id, Overlay::Present(view));
        self.set_graph(graph);
    }

    pub(crate) fn apply_create_materialized_view(&mut self, create: &CreateMaterializedView) -> (r: MutationResult)
        requires
            old(self)@.data.generation_counter < u64::MAX,
        ensures
            (final(self)@.data, r@) == materialized_view_created(
                old(self)@.data,
                create.id@,
                create.depends_on.deep_view(),
                old(self)@.frames.len() as u64,
            ),
            kept_as(old(self)@, final(self)@, if_applied(r@, EdgeUndo::PutBack)),
    {
        if let Err(result) = self.ensure_schema_target(&create.id.schema) {
            return result;
        }
        if self.relation_namespace_is_taken(&create.id) {
            return conflict_with(join3("relation '", &create.id.show(), "' already exists"));
        }
        if let Err(result) = self.validate_view_dependencies(&create.id, &create.depends_on) {
            return result;
        }
        self.add_materialized_view(&create.id, &create.depends_on);
        MutationResult::Applied
    }

    pub(crate) fn apply_refresh_materialized_view(&mut self, refresh: &RefreshMaterializedViewMutation) -> (r: MutationResult)
        ensures
            (final(self)@.data, r@) == materialized_view_refreshed(
                old(self)@.data,
                old(self)@.frames.len() > 0,
                refresh.id@,
                refresh.concurrently,
            ),
            kept(old(self)@, final(self)@),
    {
        if refresh.concurrently && self.in_transaction() {
            return conflict_with("REFRESH MATERIALIZED VIEW CONCURRENTLY cannot run inside a transaction block".to_string());
        }
        match self.relation_lookup(&refresh.id, RelationFilter::MaterializedView) {
            ObjectLookup::Present => {
                let populated = match self.present_relation(&refresh.id) {
                    Some(view) => view.is_populated,
                    None => None,
                };
                if refresh.concurrently && matches!(populated, Some(false)) {
                    return conflict_with(
                        join3(
                            "materialized view '",
                            &refresh.id.show(),
                            "' is not populated and cannot be refreshed concurrently",
                        ),
                    );
                }
                MutationResult::Applied
            },
            ObjectLookup::WrongKind => conflict_with(join3("'", &refresh.id.show(), "' is not a materialized view")),
            ObjectLookup::Unknown => {
                self.distrust();
                MutationResult::Skipped
            },
            _ => conflict_with(join3("materialized view '", &refresh.id.show(), "' does not exist")),
        }
    }

    pub(crate) fn is_partitioned(&self, id: &ObjectId) -> (r: bool)
        ensures
            r == is_partitioned(self@.data, id@),
    {
        match self.present_relation(id) {
            Some(relation) => relation.partition_type.is_some(),
            None => false,
        }
    }

    pub(crate) fn add_edge(&mut self, e: DependencyEdge)
        ensures
            final(self)@.data == with_edge(old(self)@.data, e@),
            kept_as(old(self)@, final(self)@, EdgeUndo::Cut),
    {
        proof {
            reveal(with_edge);
        }
        self.append_edge(e);
    }

    fn ensure_index_target(&mut self, table: &ObjectId) -> (r: Result<(), MutationResult>)
        ensures
            ({
                let (data, outcome) = index_target_checked(old(self)@.data, table@);
                &&& final(self)@.data == data
                &&& match r {
                    Ok(_) => outcome is None && final(self)@ == old(self)@,
                    Err(result) => outcome == Some(result@) && !(result@ is Applied),
                }
            }),
            kept(old(self)@, final(self)@),
    {
        proof {
            reveal(index_target_checked);
        }
        let shown = table.show();
        self.ensure_relation_target(
            table,
            RelationFilter::Indexable,
            join3("index target relation '", &shown, "' does not exist"),
            join3("index target '", &shown, "' cannot be indexed"),
        )
    }

    pub(crate) fn apply_create_index(&mut self, create: &CreateIndex) -> (r: MutationResult)
        ensures
            (final(self)@.data, r@) == index_created(old(self)@.data, old(self)@.frames.len() > 0, *create),
            kept_as(old(self)@, final(self)@, if_applied(r@, EdgeUndo::Cut)),
    {
        if create.concurrently && self.in_transaction() {
            return conflict_with("CREATE INDEX CONCURRENTLY cannot run inside a transaction block".to_string());
        }
        if let Err(result) = self.ensure_schema_target(&create.id.schema) {
            return result;
        }
        if create.if_not_exists && self.index_is_present(&create.id) {
            return MutationResult::Skipped;
        }
        if self.relation_namespace_is_taken(&create.id) {
            return conflict_with(join3("relation '", &create.id.show(), "' already exists"));
        }
        if let Err(result) = self.ensure_index_target(&create.table) {
            return result;
        }
        if create.concurrently && self.is_partitioned(&create.table) {
            return conflict_with(join3("cannot create index on partitioned table '", &create.table.show(), "' concurrently"));
        }
        self.add_edge(edge_of_index(create));
        MutationResult::Applied
    }

    fn has_external_view_dependents(&self, roots: &Vec<ObjectId>) -> (r: bool)
        ensures
            r == has_outside_views(self@.data, roots.deep_view()),
    {
        let outside = |e: &DependencyEdge| -> (b: bool)
            ensures
                b == is_outside_view_of(self@.data, e@, roots.deep_view()),
            {
                match &e.kind {
                    DependencyKind::ViewDependency { .. } => vec_contains(roots, self.graph().resolve_rename(&e.referenced)) && !vec_contains(
                        roots,
                        self.graph().resolve_rename(&e.dependent),
                    ),
                    _ => false,
                }
            };
        let ghost d = self@.data;
        self.graph().any_edge(outside, Ghost(|e: DependencyEdgeView| is_outside_view_of(d, e, roots.deep_view())))
    }

    fn family_cascade(&self, roots: &Vec<ObjectId>, cascade: bool) -> (r: CascadeResult)
        ensures
            r@ == family_cascade(self@.data, roots.deep_view(), cascade),
    {
        if cascade {
            return self.cascade_for_relations(roots);
        }
        let r = CascadeResult { dropped_relations: set_of(roots), dropped_indexes: VecSet::new(), dropped_constraints: VecSet::new() };
        assert(r@ =~= family_cascade(self@.data, roots.deep_view(), cascade));
        r
    }

    fn trigger_falls_with_table(&self, c: &CascadeResult, id: &ObjectId) -> (r: bool)
        ensures
            r == trigger_falls_with_table(self@.data, c@, id@),
    {
        match self.present_trigger(id) {
            Some(trigger) => {
                let table = self.graph().resolve_rename(&trigger.table_id);
                c.dropped_relations.contains(table) && self.relation_is_present(table)
            },
            None => false,
        }
    }

    fn edge_falls(&self, e: &DependencyEdge, c: &CascadeResult) -> (r: bool)
        ensures
            r == edge_falls(self@.data, e@, c@),
    {
        let dependent = self.graph().resolve_rename(&e.dependent);
        c.dropped_indexes.contains(dependent) || c.dropped_relations.contains(dependent) || c.dropped_relations.contains(
            self.graph().resolve_rename(&e.referenced),
        )
    }

    fn namespace_without_relations(&self, c: &CascadeResult) -> (r: NamespaceSnapshot)
        ensures
            r@ == namespace_without_relations(self@.data, namespace_of(self@.data), c@),
    {
        let ghost d = self@.data;
        let mut n = self.current_namespace();
        let falls = |id: &ObjectId| -> (b: bool)
            ensures
                b == falls_as_modeled(self@.data, c@, id@),
            { c.dropped_relations.contains(id) && self.relation_is_present(id) };
        n.relations = drop_where(&n.relations, falls, Ghost(|id: ObjectIdView| falls_as_modeled(d, c@, id)));
        let trigger = |id: &ObjectId| -> (b: bool)
            ensures
                b == trigger_falls_with_table(self@.data, c@, id@),
            { self.trigger_falls_with_table(c, id) };
        n.triggers = drop_where(&n.triggers, trigger, Ghost(|id: ObjectIdView| trigger_falls_with_table(d, c@, id)));
        let stays = |e: &DependencyEdge| -> (b: bool)
            ensures
                b == !edge_falls(self@.data, e@, c@),
            { !self.edge_falls(e, c) };
        n.graph = crate::collections::vec_filter(self.graph().edges(), stays, Ghost(|e: DependencyEdgeView| !edge_falls(d, e, c@)));
        proof {
            reveal(namespace_without_relations);
            assert(n@ =~= namespace_without_relations(d, namespace_of(d), c@));
        }
        n
    }

    pub(crate) fn drop_family(&mut self, c: &CascadeResult, cascade: bool)
        ensures
            final(self)@.data == family_without(old(self)@.data, c@, cascade),
            kept_as(old(self)@, final(self)@, EdgeUndo::PutBack),
    {
        proof {
            reveal(family_without);
        }
        let gap = cascade && self.reaches_unmodeled(c);
        self.distrust_if(gap);
        self.remove_dropped_constraints(c);
        let n = self.namespace_without_relations(c);
        self.replace_namespace(n);
    }

    fn apply_drop_relation_family(&mut self, roots: &Vec<ObjectId>, cascade: bool) -> (r: MutationResult)
        requires
            roots.len() > 0,
        ensures
            (final(self)@.data, r@) == family_dropped(old(self)@.data, roots.deep_view(), cascade),
            kept_as(old(self)@, final(self)@, if_applied(r@, EdgeUndo::PutBack)),
    {
        proof {
            reveal(family_dropped);
        }
        if !cascade && self.has_external_view_dependents(roots) {
            assert(roots.deep_view()[0] == roots@[0]@);
            return conflict_with(join3("relation '", &roots[0].show(), "' still has dependent views; use CASCADE"));
        }
        let c = self.family_cascade(roots, cascade);
        self.drop_family(&c, cascade);
        MutationResult::Applied
    }

    /// The first name that the drop fails at, and whether an unknown relation
    /// comes before it.
    fn scan_relations(&self, ids: &Vec<ObjectId>, filter: RelationFilter, if_exists: bool) -> (r: (usize, bool))
        ensures
            ({
                let stop = first_undroppable(self@.data, ids.deep_view(), filter, if_exists, 0);
                &&& r.0 == stop
                &&& r.0 <= ids.len()
                &&& r.1 == unknown_relation_before(self@.data, ids.deep_view(), filter, stop)
            }),
    {
        let ghost d = self@.data;
        let ghost list = ids.deep_view();
        let mut unknown = false;
        let mut i: usize = 0;
        while i < ids.len()
            invariant
                i <= ids.len(),
                d == self@.data,
                list == ids.deep_view(),
                first_undroppable(d, list, filter, if_exists, 0) == first_undroppable(d, list, filter, if_exists, i as nat),
                unknown == unknown_relation_before(d, list, filter, i as nat),
            decreases ids.len() - i,
        {
            proof {
                assert(list[i as int] == ids@[i as int]@);
                assert(unknown_relation_before(d, list, filter, (i + 1) as nat) == (unknown || relation_lookup(d, list[i as int], filter)
                    == ObjectLookup::Unknown)) by {
                    if unknown_relation_before(d, list, filter, (i + 1) as nat) && relation_lookup(d, list[i as int], filter) != ObjectLookup::Unknown {
                        let j = choose|j: int| 0 <= j < i + 1 && relation_lookup(d, #[trigger] list[j], filter) == ObjectLookup::Unknown;
                        assert(relation_lookup(d, list[j], filter) == ObjectLookup::Unknown);
                    }
                }
            }
            match self.relation_lookup(&ids[i], filter) {
                ObjectLookup::Present => {},
                ObjectLookup::Unknown => {
                    unknown = true;
                },
                ObjectLookup::WrongKind => {
                    return (i, unknown);
                },
                _ => {
                    if !if_exists {
                        return (i, unknown);
                    }
                },
            }
            i = i + 1;
        }
        (i, unknown)
    }

    pub(crate) fn accepted_relations(&self, ids: &Vec<ObjectId>, filter: RelationFilter) -> (r: Vec<ObjectId>)
        ensures
            r.deep_view() == accepted_relations(self@.data, ids.deep_view(), filter),
    {
        let ghost d = self@.data;
        let accepted = |id: &ObjectId| -> (b: bool)
            ensures
                b == (relation_lookup(self@.data, id@, filter) == ObjectLookup::Present),
            {
                match self.relation_lookup(id, filter) {
                    ObjectLookup::Present => true,
                    _ => false,
                }
            };
        crate::collections::vec_filter(
            ids,
            accepted,
            Ghost(|id: ObjectIdView| relation_lookup(d, id, filter) == ObjectLookup::Present),
        )
    }

    fn undroppable(&self, id: &ObjectId, filter: RelationFilter, kind: &str) -> (r: MutationResult)
        ensures
            r@ == undroppable(self@.data, id@, filter, kind@),
    {
        match self.relation_lookup(id, filter) {
            ObjectLookup::WrongKind => conflict_with(join2(&join3("'", &id.show(), "' is not a "), kind)),
            _ => conflict_with(join2(&join3(kind, " '", &id.show()), "' does not exist")),
        }
    }

    fn drop_views(&mut self, ids: &Vec<ObjectId>, filter: RelationFilter, kind: &str, if_exists: bool, cascade: bool) -> (r: MutationResult)
        ensures
            (final(self)@.data, r@) == views_dropped(old(self)@.data, ids.deep_view(), filter, kind@, if_exists, cascade),
            kept_as(old(self)@, final(self)@, if_applied(r@, EdgeUndo::PutBack)),
    {
        let (stop, unknown) = self.scan_relations(ids, filter, if_exists);
        let roots = self.accepted_relations(ids, filter);
        if stop < ids.len() {
            assert(ids.deep_view()[stop as int] == ids@[stop as int]@);
            let result = self.undroppable(&ids[stop], filter, kind);
            self.distrust_if(unknown);
            return result;
        }
        if unknown || roots.len() == 0 {
            self.distrust_if(unknown);
            return MutationResult::Skipped;
        }
        self.apply_drop_relation_family(&roots, cascade)
    }

    pub(crate) fn apply_drop_view(&mut self, drop: &DropViewMutation) -> (r: MutationResult)
        ensures
            (final(self)@.data, r@) == views_dropped(
                old(self)@.data,
                drop.ids.deep_view(),
                RelationFilter::View,
                "view"@,
                drop.if_exists,
                drop.cascade,
            ),
            kept_as(old(self)@, final(self)@, if_applied(r@, EdgeUndo::PutBack)),
    {
        self.drop_views(&drop.ids, RelationFilter::View, "view", drop.if_exists, drop.cascade)
    }

    pub(crate) fn apply_drop_materialized_view(&mut self, drop: &DropMaterializedViewMutation) -> (r: MutationResult)
        ensures
            (final(self)@.data, r@) == views_dropped(
                old(self)@.data,
                drop.ids.deep_view(),
                RelationFilter::MaterializedView,
                "materialized view"@,
                drop.if_exists,
                drop.cascade,
            ),
            kept_as(old(self)@, final(self)@, if_applied(r@, EdgeUndo::PutBack)),
    {
        self.drop_views(&drop.ids, RelationFilter::MaterializedView, "materialized view", drop.if_exists, drop.cascade)
    }

    fn backs_constraint(&self, id: &ObjectId, table: &ObjectId) -> (r: bool)
        ensures
            r == backs_constraint(self@.data, id@, table@),
    {
        proof {
            reveal(data_of);
        }
        let backs = |key: &(ObjectId, String), constraint: &ConstraintState| -> (b: bool)
            ensures
                b == (key.deep_view().1 == id@.name && resolved(self@.data.graph, key.deep_view().0) == table@ && (constraint.deep_view().kind
                    == ConstraintKind::PrimaryKey || constraint.deep_view().kind == ConstraintKind::Unique)),
            {
                key.1 == id.name && self.graph().resolve_rename(&key.0).same(table) && match constraint.kind {
                    ConstraintKind::PrimaryKey => true,
                    ConstraintKind::Unique => true,
                    _ => false,
                }
            };
        let ghost d = self@.data;
        self.local.constraints.any(
            backs,
            Ghost(
                |key: (ObjectIdView, Seq<char>), constraint: ConstraintStateView|
                    key.1 == id@.name && resolved(d.graph, key.0) == table@ && (constraint.kind == ConstraintKind::PrimaryKey || constraint.kind
                        == ConstraintKind::Unique),
            ),
        )
    }

    pub(crate) fn index_edge(&self, id: &ObjectId) -> (r: DependencyEdge)
        requires
            index_present(self@.data, id@),
        ensures
            r@ == index_edge(self@.data.graph, id@),
            r@.kind is IndexOnRelation,
    {
        let is = |e: &DependencyEdge| -> (b: bool)
            ensures
                b == is_index(e@, id@),
            {
                match &e.kind {
                    DependencyKind::IndexOnRelation { .. } => e.dependent.same(id),
                    _ => false,
                }
            };
        let ghost p = |e: DependencyEdgeView| is_index(e, id@);
        let ghost g = self@.data.graph;
        let found = self.graph().edges_where(is, Ghost(p));
        proof {
            crate::collections::lemma_filtered(g, p);
            let i = choose|i: int| 0 <= i < g.len() && is_index(#[trigger] g[i], id@);
            assert(g.contains(g[i]) && p(g[i]));
            assert(g.filter(p).contains(g[i]));
            assert(found.deep_view().len() == found.len());
            assert(found.deep_view()[0] == found@[0]@);
            assert(g.filter(p).contains(g.filter(p)[0]));
        }
        found[0].dup()
    }

    fn index_drop_refused(&mut self, id: &ObjectId, concurrently: bool) -> (r: Option<MutationResult>)
        requires
            index_present(old(self)@.data, id@),
        ensures
            ({
                let outcome = index_drop_refused(old(self)@.data, id@, concurrently);
                match r {
                    None => outcome is None && final(self)@ == old(self)@,
                    Some(result) => outcome == Some((final(self)@.data, result@)) && !(result@ is Applied),
                }
            }),
            kept(old(self)@, final(self)@),
    {
        proof {
            reveal(index_drop_refused);
        }
        let e = self.index_edge(id);
        let table = self.graph().resolve_rename(&e.referenced).dup();
        if concurrently && self.is_partitioned(&table) {
            return Some(conflict_with(join3("cannot drop partitioned index '", &id.show(), "' concurrently")));
        }
        if self.backs_constraint(id, &table) {
            return Some(conflict_with(join3("cannot drop index '", &id.show(), "' because a constraint requires it")));
        }
        let known = match &e.kind {
            DependencyKind::IndexOnRelation { eligibility_known, .. } => *eligibility_known,
            _ => true,
        };
        if !known {
            self.distrust();
            return Some(MutationResult::Skipped);
        }
        None
    }

    fn first_undroppable_index(&self, ids: &Vec<ObjectId>, if_exists: bool) -> (r: usize)
        ensures
            r == first_undroppable_index(self@.data, ids.deep_view(), if_exists, 0),
            r <= ids.len(),
    {
        let ghost d = self@.data;
        let ghost list = ids.deep_view();
        let mut i: usize = 0;
        while i < ids.len()
            invariant
                i <= ids.len(),
                d == self@.data,
                list == ids.deep_view(),
                first_undroppable_index(d, list, if_exists, 0) == first_undroppable_index(d, list, if_exists, i as nat),
            decreases ids.len() - i,
        {
            assert(list[i as int] == ids@[i as int]@);
            let stops = match self.index_lookup(&ids[i]) {
                ObjectLookup::Present => false,
                ObjectLookup::AuthoritativelyAbsent => !if_exists,
                _ => true,
            };
            if stops {
                return i;
            }
            i = i + 1;
        }
        i
    }

    fn some_index_is_present(&self, ids: &Vec<ObjectId>) -> (r: bool)
        ensures
            r == exists|i: int| 0 <= i < ids.deep_view().len() && index_present(self@.data, #[trigger] ids.deep_view()[i]),
    {
        let is_present = |id: &ObjectId| -> (b: bool)
            ensures
                b == index_present(self@.data, id@),
            { self.index_is_present(id) };
        let ghost d = self@.data;
        crate::collections::vec_any(ids, is_present, Ghost(|id: ObjectIdView| index_present(d, id)))
    }

    fn refuse_index_drop(&mut self, ids: &Vec<ObjectId>, concurrently: bool) -> (r: Option<MutationResult>)
        ensures
            ({
                let d = old(self)@.data;
                let list = ids.deep_view();
                let refused = first_refused_index(d, list, concurrently, 0);
                match r {
                    None => refused >= list.len() && final(self)@ == old(self)@,
                    Some(result) => refused < list.len() && index_drop_refused(d, list[refused as int], concurrently) == Some(
                        (final(self)@.data, result@),
                    ) && !(result@ is Applied),
                }
            }),
            kept(old(self)@, final(self)@),
    {
        let ghost d = self@.data;
        let ghost list = ids.deep_view();
        let mut i: usize = 0;
        while i < ids.len()
            invariant
                i <= ids.len(),
                d == old(self)@.data,
                self@ == old(self)@,
                list == ids.deep_view(),
                first_refused_index(d, list, concurrently, 0) == first_refused_index(d, list, concurrently, i as nat),
            decreases ids.len() - i,
        {
            assert(list[i as int] == ids@[i as int]@);
            if self.index_is_present(&ids[i]) {
                if let Some(result) = self.index_drop_refused(&ids[i], concurrently) {
                    return Some(result);
                }
            }
            i = i + 1;
        }
        None
    }

    fn check_index_drop(&mut self, drop: &DropIndex) -> (r: Result<(), MutationResult>)
        ensures
            ({
                let (data, outcome) = index_drop_checked(old(self)@.data, old(self)@.frames.len() > 0, *drop);
                &&& final(self)@.data == data
                &&& match r {
                    Ok(_) => outcome is None && final(self)@ == old(self)@,
                    Err(result) => outcome == Some(result@) && !(result@ is Applied),
                }
            }),
            kept(old(self)@, final(self)@),
    {
        proof {
            reveal(index_drop_checked);
        }
        if drop.concurrently && self.in_transaction() {
            return Err(conflict_with("DROP INDEX CONCURRENTLY cannot run inside a transaction block".to_string()));
        }
        if drop.concurrently && drop.cascade {
            return Err(conflict_with("DROP INDEX CONCURRENTLY does not support CASCADE".to_string()));
        }
        let stop = self.first_undroppable_index(&drop.ids, drop.if_exists);
        if stop < drop.ids.len() {
            assert(drop.ids.deep_view()[stop as int] == drop.ids@[stop as int]@);
            return match self.index_lookup(&drop.ids[stop]) {
                ObjectLookup::AuthoritativelyAbsent => Err(
                    conflict_with(join3("index '", &drop.ids[stop].show(), "' does not exist")),
                ),
                _ => {
                    self.distrust();
                    Err(MutationResult::Skipped)
                },
            };
        }
        if !self.some_index_is_present(&drop.ids) {
            return Err(MutationResult::Skipped);
        }
        match self.refuse_index_drop(&drop.ids, drop.concurrently) {
            Some(result) => Err(result),
            None => Ok(()),
        }
    }

    pub(crate) fn apply_drop_index(&mut self, drop: &DropIndex) -> (r: MutationResult)
        ensures
            (final(self)@.data, r@) == indexes_dropped(old(self)@.data, old(self)@.frames.len() > 0, *drop),
            r@ is Applied ==> undone_by(old(self)@, final(self)@, EdgeUndo::Cut),
            !(r@ is Applied) ==> kept(old(self)@, final(self)@),
    {
        if let Err(result) = self.check_index_drop(drop) {
            return result;
        }
        let stays = |e: &DependencyEdge| -> (b: bool)
            ensures
                b == !is_index_of(e@, drop.ids.deep_view()),
            {
                match &e.kind {
                    DependencyKind::IndexOnRelation { .. } => !vec_contains(&drop.ids, &e.dependent),
                    _ => true,
                }
            };
        self.retain_edges_marked(stays, Ghost(|e: DependencyEdgeView| !is_index_of(e, drop.ids.deep_view())));
        MutationResult::Applied
    }
}

fn edges_of_view(id: &ObjectId, dependencies: &Vec<ObjectId>, generation: u64) -> (r: Vec<DependencyEdge>)
    ensures
        r.deep_view() == view_edges(id@, dependencies.deep_view(), generation),
{
    let make = |dependency: &ObjectId| -> (e: DependencyEdge)
        ensures
            e@ == edge(id@, dependency@, DependencyKindView::ViewDependency { view_generation: generation, referenced_column: None }),
        {
            DependencyEdge::new(
                id.dup(),
                dependency.dup(),
                DependencyKind::ViewDependency { view_generation: generation, referenced_column: None },
            )
        };
    vec_map(
        dependencies,
        make,
        Ghost(
            |dependency: ObjectIdView|
                edge(id@, dependency, DependencyKindView::ViewDependency { view_generation: generation, referenced_column: None }),
        ),
    )
}

fn edge_of_index(create: &CreateIndex) -> (r: DependencyEdge)
    ensures
        r@ == index_edge_of(*create),
{
    let mut columns = create.key_columns.dup();
    let mut included = create.included_columns.dup();
    let ghost a = columns.deep_view();
    let ghost b = included.deep_view();
    columns.append(&mut included);
    assert(columns.deep_view() =~= a + b);
    DependencyEdge::new(
        create.id.dup(),
        create.table.dup(),
        DependencyKind::IndexOnRelation {
            using_method: create.using_method.dup(),
            key_columns: create.key_columns.dup(),
            included_columns: create.included_columns.dup(),
            dependency_columns: columns,
            dependency_columns_known: !create.has_expression_keys && !create.has_predicate,
            has_expression_keys: create.has_expression_keys,
            has_predicate: create.has_predicate,
            is_concurrent: create.concurrently,
            is_unique: create.unique,
            is_valid: true,
            is_ready: true,
            is_live: true,
            has_default_sort_order: create.has_default_sort_order,
            has_default_opclasses: create.has_default_opclasses,
            has_default_collations: create.has_default_collations,
            eligibility_known: true,
        },
    )
}

} // verus!
