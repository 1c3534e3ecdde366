//! Sequences.
use crate::cache::CatalogFamily;
use crate::collections::{vec_any, vec_contains, vec_filter, with_each, Dup, Key};
use crate::evidence::{EvidenceCode, EvidenceScope};
use crate::facts::RoleFact;
use crate::graph::{edge, with_sequence_renamed, DependencyEdge, DependencyEdgeView, DependencyKind, DependencyKindView};
use crate::identifiers::{role_object, ObjectId, ObjectIdView};
use crate::model::column_action::has_column;
use crate::model::sequence::{SequenceKind, SequenceState, SequenceStateView};
use crate::model::Overlay;
use crate::mutations::{AlterSequenceActionMutation, AlterSequenceMutation, CreateSequenceMutation, DropSequenceMutation};
use crate::state::apply_role::role_missing;
use crate::state::journal::{appending, distrusted, group_steps, if_applied, kept, kept_as, namespace_of, tainted, undone, with_namespace, EdgeUndo};
use crate::state::lookup::{
    conflict,
    conflict_with,
    covers_object,
    namespace_taken,
    present,
    relation_target_checked,
    role_identity,
    role_present,
    schema_target_checked,
    scoped_family_object,
    sequence_lookup,
    state_of,
    RelationFilter,
};
use crate::state::sequence_refs::relations_without_defaults;
use crate::state::{data_of, AnalysisState, MutationResult, MutationResultView, ObjectLookup, StateData};
use crate::text::{join3, join5};
use crate::transaction::NamespaceSnapshotView;
use vstd::prelude::*;

verus! {

broadcast use group_steps;

pub open spec fn relation_exists(id: ObjectIdView) -> MutationResultView {
    conflict("relation '"@ + id.shown() + "' already exists"@)
}

pub open spec fn sequence_missing(id: ObjectIdView) -> MutationResultView {
    conflict("sequence '"@ + id.shown() + "' does not exist"@)
}

pub open spec fn other_schema() -> MutationResultView {
    conflict("sequence must be in the same schema as its owning table"@)
}

pub open spec fn other_owner() -> MutationResultView {
    conflict("sequence and table must have the same owner"@)
}

/// Whose table may own a sequence.
pub enum OwnerRule {
    /// The current role's, where that is known.
    CurrentRole,
    /// That of the role which owns the sequence.
    SameAs(ObjectIdView),
}

pub open spec fn owner_differs(d: StateData, owner: ObjectIdView, rule: OwnerRule) -> bool {
    match rule {
        OwnerRule::CurrentRole => d.current_role_known && owner.name != d.current_role,
        OwnerRule::SameAs(role) => owner != role,
    }
}

pub open spec fn table_target_checked(d: StateData, table: ObjectIdView) -> (StateData, Option<MutationResultView>) {
    relation_target_checked(
        d,
        table,
        RelationFilter::Table,
        "relation '"@ + table.shown() + "' does not exist"@,
        "sequence owner '"@ + table.shown() + "' is not a table"@,
    )
}

/// What checking the table that is to own a sequence leads to.
pub open spec fn owning_table_checked(d: StateData, schema: Seq<char>, owned_by: Option<(ObjectIdView, Seq<char>)>, rule: OwnerRule) -> (
    StateData,
    Option<MutationResultView>,
) {
    match owned_by {
        None => (d, None),
        Some((table, column)) => if table.schema != schema {
            (d, Some(other_schema()))
        } else {
            let (d1, refused) = table_target_checked(d, table);
            if refused is Some {
                (d1, refused)
            } else if !has_column(state_of(d.relations, table).columns, column) {
                (d, Some(conflict("column '"@ + table.shown() + "."@ + column + "' does not exist"@)))
            } else if owner_differs(d, state_of(d.relations, table).owner, rule) {
                (d, Some(other_owner()))
            } else {
                (d, None)
            }
        },
    }
}

pub open spec fn owned_kind(owned: bool) -> SequenceKind {
    if owned {
        SequenceKind::Owned
    } else {
        SequenceKind::Standalone
    }
}

pub open spec fn ownership_edge(id: ObjectIdView, table: ObjectIdView, column: Seq<char>) -> DependencyEdgeView {
    edge(id, table, DependencyKindView::SequenceOwnedBy { column })
}

pub open spec fn with_ownership(graph: Seq<DependencyEdgeView>, id: ObjectIdView, owned_by: Option<(ObjectIdView, Seq<char>)>) -> Seq<
    DependencyEdgeView,
> {
    match owned_by {
        Some((table, column)) => graph.push(ownership_edge(id, table, column)),
        None => graph,
    }
}

/// `CREATE SEQUENCE`.
pub open spec fn sequence_created(d: StateData, id: ObjectIdView, if_not_exists: bool, owned_by: Option<(ObjectIdView, Seq<char>)>) -> (
    StateData,
    MutationResultView,
) {
    let (d1, refused) = schema_target_checked(d, id.schema);
    if refused is Some {
        (d1, refused->0)
    } else if namespace_taken(d, id) {
        (
            d,
            if if_not_exists {
                MutationResultView::Skipped
            } else {
                relation_exists(id)
            },
        )
    } else {
        let (d2, refused) = owning_table_checked(d, id.schema, owned_by, OwnerRule::CurrentRole);
        if refused is Some {
            (d2, refused->0)
        } else {
            let generation = (d.generation_counter + 1) as u64;
            let sequence = SequenceStateView { id, owner: role_object(d.current_role), owned_by, kind: owned_kind(owned_by is Some), generation };
            (
                StateData {
                    generation_counter: generation,
                    sequences: d.sequences.insert(id, Overlay::Present(sequence)),
                    graph: with_ownership(d.graph, id, owned_by),
                    ..d
                },
                MutationResultView::Applied,
            )
        }
    }
}

/// What looking for the sequence of an `ALTER SEQUENCE` leads to.
pub open spec fn sequence_reached(d: StateData, id: ObjectIdView, if_exists: bool) -> (StateData, Option<MutationResultView>) {
    match sequence_lookup(d, id) {
        ObjectLookup::Present => (d, None),
        ObjectLookup::AuthoritativelyAbsent => (
            d,
            Some(
                if if_exists {
                    MutationResultView::Skipped
                } else {
                    sequence_missing(id)
                },
            ),
        ),
        ObjectLookup::Tombstone => if d.baseline_available && covers_object(d, id) {
            (d, Some(sequence_missing(id)))
        } else if if_exists {
            (d, Some(MutationResultView::Skipped))
        } else {
            (distrusted(d), Some(MutationResultView::Skipped))
        },
        _ => (distrusted(d), Some(MutationResultView::Skipped)),
    }
}

pub open spec fn is_ownership_of(e: DependencyEdgeView, id: ObjectIdView) -> bool {
    e.kind is SequenceOwnedBy && e.dependent == id
}

pub open spec fn identity_sequence() -> MutationResultView {
    conflict("cannot alter an identity sequence independently"@)
}

/// `ALTER SEQUENCE ... OWNED BY`.
pub open spec fn sequence_reowned(d: StateData, id: ObjectIdView, owned_by: Option<(ObjectIdView, Seq<char>)>) -> (StateData, MutationResultView) {
    let s = state_of(d.sequences, id);
    if s.kind == SequenceKind::Identity {
        (d, conflict("cannot change ownership of an identity sequence"@))
    } else {
        let (d1, refused) = owning_table_checked(d, id.schema, owned_by, OwnerRule::SameAs(s.owner));
        if refused is Some {
            (d1, refused->0)
        } else {
            (
                StateData {
                    sequences: d.sequences.insert(
                        id,
                        Overlay::Present(SequenceStateView { owned_by, kind: owned_kind(owned_by is Some), ..s }),
                    ),
                    graph: with_ownership(d.graph.filter(|e: DependencyEdgeView| !is_ownership_of(e, id)), id, owned_by),
                    ..d
                },
                MutationResultView::Applied,
            )
        }
    }
}

/// The data after a gap that has no record of its own.
#[verifier::opaque]
pub open spec fn distrusted_if(d: StateData, gap: bool) -> StateData {
    StateData {
        confidence: if gap {
            distrusted(d).confidence
        } else {
            d.confidence
        },
        ..d
    }
}

/// The data after a sequence was given to a role. An owning table must belong
/// to the same role.
pub open spec fn sequence_given_to(d: StateData, id: ObjectIdView, name: Seq<char>) -> (StateData, MutationResultView) {
    match state_of(d.sequences, id).owned_by {
        Some((table, _)) => {
            let (d1, refused) = table_target_checked(d, table);
            if refused is Some {
                (d1, refused->0)
            } else if state_of(d.relations, table).owner.name != name {
                (d, other_owner())
            } else {
                (with_sequence_owner(d, id, name), MutationResultView::Applied)
            }
        },
        None => (with_sequence_owner(d, id, name), MutationResultView::Applied),
    }
}

/// `ALTER SEQUENCE ... OWNER TO`.
pub open spec fn sequence_owner_changed(d: StateData, id: ObjectIdView, owner: RoleFact) -> (StateData, MutationResultView) {
    let s = state_of(d.sequences, id);
    if s.kind == SequenceKind::Identity {
        (d, identity_sequence())
    } else {
        match role_identity(d, owner) {
            None => (distrusted(d), MutationResultView::Skipped),
            Some(identity) => if identity.1 && d.roles_known && !role_present(d, identity.0) {
                (d, role_missing(identity.0))
            } else {
                sequence_given_to(distrusted_if(d, identity.1 && !d.roles_known), id, identity.0)
            },
        }
    }
}

pub open spec fn with_sequence_owner(d: StateData, id: ObjectIdView, name: Seq<char>) -> StateData {
    StateData {
        sequences: d.sequences.insert(id, Overlay::Present(SequenceStateView { owner: role_object(name), ..state_of(d.sequences, id) })),
        ..d
    }
}

/// The namespace after a sequence got another identity.
pub open spec fn with_sequence_moved(n: NamespaceSnapshotView, id: ObjectIdView, new_id: ObjectIdView) -> NamespaceSnapshotView {
    NamespaceSnapshotView {
        sequences: n.sequences.remove(id).insert(new_id, Overlay::Present(SequenceStateView { id: new_id, ..state_of(n.sequences, id) })),
        graph: n.graph.map_values(|e: DependencyEdgeView| with_sequence_renamed(e, id, new_id)).push(edge(id, new_id, DependencyKindView::RenameTo)),
        baseline_sequences: if n.baseline_sequences.contains(id) {
            n.baseline_sequences.remove(id).insert(new_id)
        } else {
            n.baseline_sequences
        },
        ..n
    }
}

/// `ALTER SEQUENCE ... RENAME TO` and `SET SCHEMA`.
pub open spec fn sequence_renamed(d: StateData, id: ObjectIdView, new_id: ObjectIdView) -> (StateData, MutationResultView) {
    let s = state_of(d.sequences, id);
    let (d1, refused) = schema_target_checked(d, new_id.schema);
    if s.kind == SequenceKind::Identity {
        (d, identity_sequence())
    } else if refused is Some {
        (d1, refused->0)
    } else if namespace_taken(d, new_id) {
        (d, relation_exists(new_id))
    } else if s.owned_by is Some && (s.owned_by->0).0.schema != new_id.schema {
        (d, other_schema())
    } else {
        (with_namespace(d, with_sequence_moved(namespace_of(d), id, new_id)), MutationResultView::Applied)
    }
}

/// `ALTER SEQUENCE`.
pub open spec fn sequence_altered(d: StateData, alter: AlterSequenceMutation) -> (StateData, MutationResultView) {
    let (d1, refused) = sequence_reached(d, alter.id@, alter.if_exists);
    if refused is Some {
        (d1, refused->0)
    } else {
        match alter.action {
            AlterSequenceActionMutation::OwnedBy(owned_by) => sequence_reowned(d, alter.id@, owned_by.deep_view()),
            AlterSequenceActionMutation::OwnerTo(owner) => sequence_owner_changed(d, alter.id@, owner),
            AlterSequenceActionMutation::RenameTo(new_id) => sequence_renamed(d, alter.id@, new_id@),
            AlterSequenceActionMutation::SetSchema(new_id) => sequence_renamed(d, alter.id@, new_id@),
            AlterSequenceActionMutation::Other => (distrusted(d), MutationResultView::Skipped),
        }
    }
}

/// Whether `DROP SEQUENCE` stops at a name.
pub open spec fn sequence_drop_stops_at(d: StateData, id: ObjectIdView, if_exists: bool) -> bool {
    let lookup = sequence_lookup(d, id);
    lookup == ObjectLookup::Unknown || (lookup != ObjectLookup::Present && !if_exists)
}

/// The first name from `i` on that `DROP SEQUENCE` stops at, or the end.
pub open spec fn first_sequence_stop(d: StateData, ids: Seq<ObjectIdView>, if_exists: bool, i: nat) -> nat
    decreases ids.len() - i,
{
    if i >= ids.len() || sequence_drop_stops_at(d, ids[i as int], if_exists) {
        i
    } else {
        first_sequence_stop(d, ids, if_exists, i + 1)
    }
}

pub open spec fn present_sequences(d: StateData, ids: Seq<ObjectIdView>) -> Seq<ObjectIdView> {
    ids.filter(|id: ObjectIdView| present(d.sequences, id))
}

/// Whether the catalog does not show all that depends on a sequence.
pub open spec fn sequence_dependents_unknown(d: StateData, id: ObjectIdView) -> bool {
    (d.baseline_sequences.contains(id) && !d.baseline_coverage.families.contains(CatalogFamily::Dependencies)) || scoped_family_object(
        d,
        id,
        CatalogFamily::Sequences,
    )
}

pub open spec fn some_dependents_unknown(d: StateData, ids: Seq<ObjectIdView>) -> bool {
    exists|i: int| 0 <= i < ids.len() && sequence_dependents_unknown(d, #[trigger] ids[i])
}

/// Why a sequence cannot be dropped: it belongs to an identity column, or
/// defaults depend on it and `CASCADE` is missing.
pub open spec fn sequence_held(d: StateData, id: ObjectIdView, cascade: bool) -> Option<MutationResultView> {
    let kind = state_of(d.sequences, id).kind;
    if kind == SequenceKind::Identity {
        Some(conflict("cannot drop identity sequence '"@ + id.shown() + "' independently"@))
    } else if kind == SequenceKind::SerialLike && !cascade {
        Some(conflict("sequence '"@ + id.shown() + "' still has dependent defaults"@))
    } else {
        None
    }
}

/// What holds the first sequence that is held.
pub open spec fn first_held(d: StateData, ids: Seq<ObjectIdView>, cascade: bool) -> Option<MutationResultView>
    decreases ids.len(),
{
    if ids.len() == 0 {
        None
    } else if sequence_held(d, ids[0], cascade) is Some {
        sequence_held(d, ids[0], cascade)
    } else {
        first_held(d, ids.drop_first(), cascade)
    }
}

/// The data after sequences were dropped.
#[verifier::opaque]
pub open spec fn without_sequences(d: StateData, ids: Seq<ObjectIdView>, cascade: bool) -> StateData {
    StateData {
        relations: if cascade {
            relations_without_defaults(d.relations, d.sequences, ids.to_set())
        } else {
            d.relations
        },
        sequences: with_each(d.sequences, ids, Overlay::Dropped),
        graph: d.graph.filter(|e: DependencyEdgeView| !(e.kind is SequenceOwnedBy && ids.contains(e.dependent))),
        ..d
    }
}

/// `DROP SEQUENCE`.
pub open spec fn sequences_dropped(d: StateData, ids: Seq<ObjectIdView>, if_exists: bool, cascade: bool) -> (StateData, MutationResultView) {
    let stop = first_sequence_stop(d, ids, if_exists, 0);
    let found = present_sequences(d, ids);
    if stop < ids.len() {
        if sequence_lookup(d, ids[stop as int]) == ObjectLookup::Unknown {
            (distrusted(d), MutationResultView::Skipped)
        } else {
            (d, sequence_missing(ids[stop as int]))
        }
    } else if found.len() == 0 {
        (d, MutationResultView::Skipped)
    } else if first_held(d, found, cascade) is Some {
        (d, first_held(d, found, cascade)->0)
    } else if some_dependents_unknown(d, found) {
        (tainted(d, EvidenceCode::CatalogCoverageIncomplete, EvidenceScope::Chain), MutationResultView::Skipped)
    } else {
        (without_sequences(d, found, cascade), MutationResultView::Applied)
    }
}

/// How an action on a sequence is undone: another owner has nothing to do with
/// edges.
pub open spec fn sequence_edge_undo(action: AlterSequenceActionMutation) -> EdgeUndo {
    match action {
        AlterSequenceActionMutation::OwnerTo(_) | AlterSequenceActionMutation::Other => EdgeUndo::Stay,
        _ => EdgeUndo::PutBack,
    }
}

impl AnalysisState {
    fn ensure_table_target(&mut self, table: &ObjectId) -> (r: Result<(), MutationResult>)
        ensures
            ({
                let (data, outcome) = table_target_checked(old(self)@.data, table@);
                &&& final(self)@.data == data
                &&& match r {
                    Ok(_) => outcome is None && final(self)@ == old(self)@ && present(old(self)@.data.relations, table@),
                    Err(result) => outcome == Some(result@) && !(result@ is Applied),
                }
            }),
            kept(old(self)@, final(self)@),
    {
        let shown = table.show();
        let missing = join3("relation '", &shown, "' does not exist");
        let wrong = join3("sequence owner '", &shown, "' is not a table");
        self.ensure_relation_target(table, RelationFilter::Table, missing, wrong)
    }

    fn owner_differs(&self, owner: &ObjectId, same_as: &Option<ObjectId>) -> (r: bool)
        ensures
            r == owner_differs(
                self@.data,
                owner@,
                match same_as {
                    Some(role) => OwnerRule::SameAs(role@),
                    None => OwnerRule::CurrentRole,
                },
            ),
    {
        match same_as {
            Some(role) => !owner.same(role),
            None => self.current_role_is_known() && !(owner.name == *self.current_role()),
        }
    }

    /// Checks the table that is to own a sequence.
    fn ensure_owning_table(&mut self, schema: &String, owned_by: &Option<(ObjectId, String)>, same_as: &Option<ObjectId>) -> (r: Result<
        (),
        MutationResult,
    >)
        ensures
            ({
                let rule = match same_as {
                    Some(role) => OwnerRule::SameAs(role@),
                    None => OwnerRule::CurrentRole,
                };
                let (data, outcome) = owning_table_checked(old(self)@.data, schema@, owned_by.deep_view(), rule);
                &&& final(self)@.data == data
                &&& match r {
                    Ok(_) => outcome is None && final(self)@ == old(self)@,
                    Err(result) => outcome == Some(result@) && !(result@ is Applied),
                }
            }),
            kept(old(self)@, final(self)@),
    {
        match owned_by {
            None => Ok(()),
            Some((table, column)) => {
                if !(table.schema == *schema) {
                    return Err(conflict_with("sequence must be in the same schema as its owning table".to_owned()));
                }
                if let Err(result) = self.ensure_table_target(table) {
                    return Err(result);
                }
                match self.present_relation(table) {
                    None => {
                        assert(false);
                        Ok(())
                    },
                    Some(relation) => {
                        if !relation.has_column(column) {
                            return Err(conflict_with(join5("column '", &table.show(), ".", column, "' does not exist")));
                        }
                        if self.owner_differs(&relation.owner, same_as) {
                            return Err(conflict_with("sequence and table must have the same owner".to_owned()));
                        }
                        Ok(())
                    },
                }
            },
        }
    }

    fn own_sequence(&mut self, id: &ObjectId, owned_by: &Option<(ObjectId, String)>)
        ensures
            final(self)@.data == (StateData { graph: with_ownership(old(self)@.data.graph, id@, owned_by.deep_view()), ..old(self)@.data }),
            kept_as(old(self)@, final(self)@, appending(old(self)@.data.graph, final(self)@.data.graph)),
    {
        if let Some((table, column)) = owned_by {
            let kind = DependencyKind::SequenceOwnedBy { column: column.clone() };
            self.append_edge(DependencyEdge::new(id.dup(), table.dup(), kind));
        }
    }

    pub(crate) fn apply_create_sequence(&mut self, create: &CreateSequenceMutation) -> (r: MutationResult)
        requires
            old(self)@.data.generation_counter < u64::MAX,
        ensures
            (final(self)@.data, r@) == sequence_created(old(self)@.data, create.id@, create.if_not_exists, create.owned_by.deep_view()),
            kept_as(old(self)@, final(self)@, if_applied(r@, appending(old(self)@.data.graph, final(self)@.data.graph))),
    {
        if let Err(result) = self.ensure_schema_target(&create.id.schema) {
            return result;
        }
        if self.relation_namespace_is_taken(&create.id) {
            if create.if_not_exists {
                return MutationResult::Skipped;
            }
            return conflict_with(join3("relation '", &create.id.show(), "' already exists"));
        }
        if let Err(result) = self.ensure_owning_table(&create.id.schema, &create.owned_by, &None) {
            return result;
        }
        self.add_sequence(create);
        MutationResult::Applied
    }

    fn add_sequence(&mut self, create: &CreateSequenceMutation)
        requires
            old(self)@.data.generation_counter < u64::MAX,
        ensures
            ({
                let d = old(self)@.data;
                let generation = (d.generation_counter + 1) as u64;
                let owned_by = create.owned_by.deep_view();
                let sequence = SequenceStateView {
                    id: create.id@,
                    owner: role_object(d.current_role),
                    owned_by,
                    kind: owned_kind(owned_by is Some),
                    generation,
                };
                final(self)@.data == (StateData {
                    generation_counter: generation,
                    sequences: d.sequences.insert(create.id@, Overlay::Present(sequence)),
                    graph: with_ownership(d.graph, create.id@, owned_by),
                    ..d
                })
            }),
            kept_as(old(self)@, final(self)@, appending(old(self)@.data.graph, final(self)@.data.graph)),
    {
        let generation = self.bump_generation();
        let sequence = SequenceState {
            id: create.id.dup(),
            owner: ObjectId::new("", self.current_role()),
            owned_by: create.owned_by.dup(),
            kind: if create.owned_by.is_some() {
                SequenceKind::Owned
            } else {
                SequenceKind::Standalone
            },
            generation,
        };
        self.put_sequence(&create.id, Overlay::Present(sequence));
        self.own_sequence(&create.id, &create.owned_by);
    }

    fn reach_sequence(&mut self, id: &ObjectId, if_exists: bool) -> (r: Result<(), MutationResult>)
        ensures
            ({
                let (data, outcome) = sequence_reached(old(self)@.data, id@, if_exists);
                &&& final(self)@.data == data
                &&& match r {
                    Ok(_) => outcome is None && final(self)@ == old(self)@ && present(old(self)@.data.sequences, id@),
                    Err(result) => outcome == Some(result@) && !(result@ is Applied),
                }
            }),
            kept(old(self)@, final(self)@),
    {
        match self.sequence_lookup(id) {
            ObjectLookup::Present => Ok(()),
            ObjectLookup::AuthoritativelyAbsent => {
                if if_exists {
                    return Err(MutationResult::Skipped);
                }
                Err(conflict_with(join3("sequence '", &id.show(), "' does not exist")))
            },
            ObjectLookup::Tombstone => {
                if self.baseline_is_available() && self.baseline_covers_object(id) {
                    return Err(conflict_with(join3("sequence '", &id.show(), "' does not exist")));
                }
                if !if_exists {
                    self.distrust();
                }
                Err(MutationResult::Skipped)
            },
            _ => {
                self.distrust();
                Err(MutationResult::Skipped)
            },
        }
    }

    fn reown_sequence(&mut self, id: &ObjectId, owned_by: &Option<(ObjectId, String)>) -> (r: MutationResult)
        requires
            present(old(self)@.data.sequences, id@),
        ensures
            (final(self)@.data, r@) == sequence_reowned(old(self)@.data, id@, owned_by.deep_view()),
            kept_as(old(self)@, final(self)@, if_applied(r@, EdgeUndo::PutBack)),
    {
        let current = match self.present_sequence(id) {
            Some(sequence) => sequence.dup(),
            None => {
                assert(false);
                return MutationResult::Skipped;
            },
        };
        if current.kind == SequenceKind::Identity {
            return conflict_with("cannot change ownership of an identity sequence".to_owned());
        }
        let owner = Some(current.owner.dup());
        if let Err(result) = self.ensure_owning_table(&id.schema, owned_by, &owner) {
            return result;
        }
        let stays = |e: &DependencyEdge| -> (b: bool)
            ensures
                b == !is_ownership_of(e@, id@),
            {
                match &e.kind {
                    DependencyKind::SequenceOwnedBy { .. } => !e.dependent.same(id),
                    _ => true,
                }
            };
        let mut graph = self.graph().dup();
        graph.retain_matching(stays, Ghost(|e: DependencyEdgeView| !is_ownership_of(e, id@)));
        self.set_graph(graph);
        let sequence = SequenceState {
            id: current.id,
            owner: current.owner,
            owned_by: owned_by.dup(),
            kind: if owned_by.is_some() {
                SequenceKind::Owned
            } else {
                SequenceKind::Standalone
            },
            generation: current.generation,
        };
        self.put_sequence(id, Overlay::Present(sequence));
        self.own_sequence(id, owned_by);
        MutationResult::Applied
    }

    pub(crate) fn distrust_if(&mut self, gap: bool)
        ensures
            final(self)@.data == distrusted_if(old(self)@.data, gap),
            kept(old(self)@, final(self)@),
    {
        proof {
            reveal(distrusted_if);
            reveal(crate::state::journal::distrusted);
        }
        if gap {
            self.distrust();
        }
    }

    fn set_sequence_owner(&mut self, id: &ObjectId, name: &String)
        requires
            present(old(self)@.data.sequences, id@),
        ensures
            final(self)@.data == with_sequence_owner(old(self)@.data, id@, name@),
            kept(old(self)@, final(self)@),
    {
        if let Some(sequence) = self.present_sequence(id) {
            let mut sequence = sequence.dup();
            sequence.owner = ObjectId::new("", name);
            self.put_sequence(id, Overlay::Present(sequence));
        }
    }

    fn change_sequence_owner(&mut self, id: &ObjectId, owner: &RoleFact) -> (r: MutationResult)
        requires
            present(old(self)@.data.sequences, id@),
        ensures
            (final(self)@.data, r@) == sequence_owner_changed(old(self)@.data, id@, *owner),
            kept(old(self)@, final(self)@),
    {
        let current = match self.present_sequence(id) {
            Some(sequence) => sequence.dup(),
            None => {
                assert(false);
                return MutationResult::Skipped;
            },
        };
        if current.kind == SequenceKind::Identity {
            return conflict_with("cannot alter an identity sequence independently".to_owned());
        }
        let (name, known) = match self.role_fact_identity(owner) {
            Some(identity) => identity,
            None => {
                self.distrust();
                return MutationResult::Skipped;
            },
        };
        let roles_known = self.roles_are_known();
        if known && roles_known && self.present_role(&name).is_none() {
            return conflict_with(join3("role '", &name, "' does not exist"));
        }
        self.distrust_if(known && !roles_known);
        proof {
            reveal(distrusted_if);
        }
        self.give_sequence(id, &name)
    }

    fn give_sequence(&mut self, id: &ObjectId, name: &String) -> (r: MutationResult)
        requires
            present(old(self)@.data.sequences, id@),
        ensures
            (final(self)@.data, r@) == sequence_given_to(old(self)@.data, id@, name@),
            kept(old(self)@, final(self)@),
    {
        let owned_by = match self.present_sequence(id) {
            Some(sequence) => sequence.owned_by.dup(),
            None => None,
        };
        if let Some((table, _)) = &owned_by {
            if let Err(result) = self.ensure_table_target(table) {
                return result;
            }
            if let Some(relation) = self.present_relation(table) {
                if !(relation.owner.name == *name) {
                    return conflict_with("sequence and table must have the same owner".to_owned());
                }
            }
        }
        self.set_sequence_owner(id, name);
        MutationResult::Applied
    }

    fn move_sequence(&mut self, id: &ObjectId, new_id: &ObjectId)
        requires
            present(old(self)@.data.sequences, id@),
        ensures
            final(self)@.data == with_namespace(old(self)@.data, with_sequence_moved(namespace_of(old(self)@.data), id@, new_id@)),
            kept_as(old(self)@, final(self)@, EdgeUndo::PutBack),
    {
        let mut n = self.current_namespace();
        let ghost before = n@;
        if let Some(sequence) = self.present_sequence(id) {
            let mut moved = sequence.dup();
            moved.id = new_id.dup();
            n.sequences.remove(id);
            n.sequences.insert(new_id.dup(), Overlay::Present(moved));
            let mut graph = self.graph().dup();
            graph.propagate_sequence_rename(id, new_id);
            graph.add_edge(DependencyEdge::new(id.dup(), new_id.dup(), DependencyKind::RenameTo));
            n.graph = graph.edges().dup();
            if n.baseline_sequences.contains(id) {
                n.baseline_sequences.remove(id);
                n.baseline_sequences.insert(new_id.dup());
            }
        }
        assert(n@ =~= with_sequence_moved(before, id@, new_id@));
        self.replace_namespace(n);
    }

    fn rename_sequence(&mut self, id: &ObjectId, new_id: &ObjectId) -> (r: MutationResult)
        requires
            present(old(self)@.data.sequences, id@),
        ensures
            (final(self)@.data, r@) == sequence_renamed(old(self)@.data, id@, new_id@),
            kept_as(old(self)@, final(self)@, if_applied(r@, EdgeUndo::PutBack)),
    {
        let current = match self.present_sequence(id) {
            Some(sequence) => sequence.dup(),
            None => {
                assert(false);
                return MutationResult::Skipped;
            },
        };
        if current.kind == SequenceKind::Identity {
            return conflict_with("cannot alter an identity sequence independently".to_owned());
        }
        if let Err(result) = self.ensure_schema_target(&new_id.schema) {
            return result;
        }
        if self.relation_namespace_is_taken(new_id) {
            return conflict_with(join3("relation '", &new_id.show(), "' already exists"));
        }
        if let Some((table, _)) = &current.owned_by {
            if !(table.schema == new_id.schema) {
                return conflict_with("sequence must be in the same schema as its owning table".to_owned());
            }
        }
        self.move_sequence(id, new_id);
        MutationResult::Applied
    }

    pub(crate) fn apply_alter_sequence(&mut self, alter: &AlterSequenceMutation) -> (r: MutationResult)
        ensures
            (final(self)@.data, r@) == sequence_altered(old(self)@.data, *alter),
            kept_as(old(self)@, final(self)@, if_applied(r@, sequence_edge_undo(alter.action))),
    {
        if let Err(result) = self.reach_sequence(&alter.id, alter.if_exists) {
            return result;
        }
        match &alter.action {
            AlterSequenceActionMutation::OwnedBy(owned_by) => self.reown_sequence(&alter.id, owned_by),
            AlterSequenceActionMutation::OwnerTo(owner) => self.change_sequence_owner(&alter.id, owner),
            AlterSequenceActionMutation::RenameTo(new_id) => self.rename_sequence(&alter.id, new_id),
            AlterSequenceActionMutation::SetSchema(new_id) => self.rename_sequence(&alter.id, new_id),
            AlterSequenceActionMutation::Other => {
                self.distrust();
                MutationResult::Skipped
            },
        }
    }

    fn first_sequence_stop(&self, ids: &Vec<ObjectId>, if_exists: bool) -> (r: Option<usize>)
        ensures
            match r {
                Some(i) => i < ids.len() && i == first_sequence_stop(self@.data, ids.deep_view(), if_exists, 0),
                None => first_sequence_stop(self@.data, ids.deep_view(), if_exists, 0) >= ids.len(),
            },
    {
        let mut i: usize = 0;
        while i < ids.len()
            invariant
                i <= ids.len(),
                first_sequence_stop(self@.data, ids.deep_view(), if_exists, 0) == first_sequence_stop(
                    self@.data,
                    ids.deep_view(),
                    if_exists,
                    i as nat,
                ),
            decreases ids.len() - i,
        {
            assert(ids.deep_view()[i as int] == ids@[i as int]@);
            let lookup = self.sequence_lookup(&ids[i]);
            if lookup == ObjectLookup::Unknown || (lookup != ObjectLookup::Present && !if_exists) {
                return Some(i);
            }
            i = i + 1;
        }
        None
    }

    fn baseline_sequence_is_known(&self, id: &ObjectId) -> (r: bool)
        ensures
            r == self@.data.baseline_sequences.contains(id@),
    {
        proof {
            reveal(data_of);
        }
        self.baseline_sequences.contains(id)
    }

    fn some_dependents_unknown(&self, ids: &Vec<ObjectId>) -> (r: bool)
        ensures
            r == some_dependents_unknown(self@.data, ids.deep_view()),
    {
        let unknown = |id: &ObjectId| -> (b: bool)
            ensures
                b == sequence_dependents_unknown(self@.data, id@),
            {
                (self.baseline_sequence_is_known(id) && !self.baseline_has_coverage(CatalogFamily::Dependencies))
                    || self.baseline_scoped_family_object(id, CatalogFamily::Sequences)
            };
        let ghost d = self@.data;
        vec_any(ids, unknown, Ghost(|id: ObjectIdView| sequence_dependents_unknown(d, id)))
    }

    fn first_held(&self, ids: &Vec<ObjectId>, cascade: bool) -> (r: Option<MutationResult>)
        requires
            forall|i: int| 0 <= i < ids.deep_view().len() ==> present(self@.data.sequences, #[trigger] ids.deep_view()[i]),
        ensures
            match r {
                Some(result) => first_held(self@.data, ids.deep_view(), cascade) == Some(result@) && !(result@ is Applied),
                None => first_held(self@.data, ids.deep_view(), cascade) is None,
            },
    {
        let ghost list = ids.deep_view();
        let mut i: usize = 0;
        assert(list.skip(0) =~= list);
        while i < ids.len()
            invariant
                i <= ids.len(),
                list == ids.deep_view(),
                forall|k: int| 0 <= k < list.len() ==> present(self@.data.sequences, #[trigger] list[k]),
                first_held(self@.data, list, cascade) == first_held(self@.data, list.skip(i as int), cascade),
            decreases ids.len() - i,
        {
            let id = &ids[i];
            proof {
                assert(list[i as int] == id@);
                assert(list.skip(i as int)[0] == id@);
                assert(list.skip(i as int).drop_first() =~= list.skip(i + 1));
            }
            if let Some(sequence) = self.present_sequence(id) {
                if sequence.kind == SequenceKind::Identity {
                    return Some(conflict_with(join3("cannot drop identity sequence '", &id.show(), "' independently")));
                }
                if sequence.kind == SequenceKind::SerialLike && !cascade {
                    return Some(conflict_with(join3("sequence '", &id.show(), "' still has dependent defaults")));
                }
            }
            i = i + 1;
        }
        None
    }

    fn remove_sequences(&mut self, ids: &Vec<ObjectId>, cascade: bool)
        requires
            forall|i: int| 0 <= i < ids.deep_view().len() ==> present(old(self)@.data.sequences, #[trigger] ids.deep_view()[i]),
        ensures
            final(self)@.data == without_sequences(old(self)@.data, ids.deep_view(), cascade),
            kept_as(old(self)@, final(self)@, EdgeUndo::PutBack),
    {
        proof {
            reveal(without_sequences);
        }
        if cascade {
            self.clear_sequence_defaults_on_cascade(ids);
        }
        self.drop_sequences(ids);
        let stays = |e: &DependencyEdge| -> (b: bool)
            ensures
                b == !(e@.kind is SequenceOwnedBy && ids.deep_view().contains(e@.dependent)),
            {
                match &e.kind {
                    DependencyKind::SequenceOwnedBy { .. } => !vec_contains(ids, &e.dependent),
                    _ => true,
                }
            };
        let mut graph = self.graph().dup();
        graph.retain_matching(stays, Ghost(|e: DependencyEdgeView| !(e.kind is SequenceOwnedBy && ids.deep_view().contains(e.dependent))));
        self.set_graph(graph);
    }

    pub(crate) fn apply_drop_sequence(&mut self, drop: &DropSequenceMutation) -> (r: MutationResult)
        ensures
            (final(self)@.data, r@) == sequences_dropped(old(self)@.data, drop.ids.deep_view(), drop.if_exists, drop.cascade),
            kept_as(old(self)@, final(self)@, if_applied(r@, EdgeUndo::PutBack)),
    {
        let ghost d = self@.data;
        if let Some(i) = self.first_sequence_stop(&drop.ids, drop.if_exists) {
            assert(drop.ids.deep_view()[i as int] == drop.ids@[i as int]@);
            if self.sequence_lookup(&drop.ids[i]) == ObjectLookup::Unknown {
                self.distrust();
                return MutationResult::Skipped;
            }
            return conflict_with(join3("sequence '", &drop.ids[i].show(), "' does not exist"));
        }
        let is_present = |id: &ObjectId| -> (b: bool)
            ensures
                b == present(self@.data.sequences, id@),
            { self.sequence_is_present(id) };
        let found = vec_filter(&drop.ids, is_present, Ghost(|id: ObjectIdView| present(d.sequences, id)));
        proof {
            crate::collections::lemma_filtered(drop.ids.deep_view(), |id: ObjectIdView| present(d.sequences, id));
        }
        if found.len() == 0 {
            return MutationResult::Skipped;
        }
        if let Some(result) = self.first_held(&found, drop.cascade) {
            return result;
        }
        if self.some_dependents_unknown(&found) {
            self.taint(EvidenceCode::CatalogCoverageIncomplete, EvidenceScope::Chain);
            return MutationResult::Skipped;
        }
        self.remove_sequences(&found, drop.cascade);
        MutationResult::Applied
    }
}

} // verus!
