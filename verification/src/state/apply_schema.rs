//! Schemas.
use crate::collections::{vec_contains, vec_filter, Dup, Key, VecMap};
use crate::evidence::{EvidenceCode, EvidenceScope};
use crate::facts::{PublicationObjectFact, PublicationObjectFactView, PublicationScope, PublicationScopeView, RoleFact};
use crate::graph::{resolved, DependencyEdge, DependencyEdgeView, DependencyKind, DependencyKindView};
use crate::identifiers::{role_object, ObjectId, ObjectIdView};
use crate::model::relation::{RelationOverlay, RelationStateView};
use crate::model::replication::{PublicationOverlay, PublicationState, PublicationStateView};
use crate::model::schema::{SchemaState, SchemaStateView};
use crate::model::sequence::{SequenceOverlay, SequenceStateView};
use crate::model::Overlay;
use crate::mutations::{AlterSchemaMutation, CreateSchemaMutation, DropSchemaMutation};
use crate::state::apply_privileges::coverage_gap;
use crate::state::apply_role::role_missing;
use crate::reach::lemma_roots_reachable;
use crate::state::cascade::{cascade_for, constraints_removed, dropped_with, edge_is_current, fallen_relations, falls_with, CascadeResult, CascadeView};
use crate::state::journal::{group_steps, if_applied, kept, kept_as, namespace_of, tainted, tainted_if, undone, with_namespace, EdgeUndo};
use crate::state::lookup::{conflict, conflict_with, present, role_identity, role_present, schema_lookup, schema_missing, state_of};
use crate::state::schema_rename::schema_namespace_renamed;
use crate::state::search_path::refreshed;
use crate::state::sequence_refs::{defaults_cleared, relations_without_defaults};
use crate::state::{data_of, AnalysisState, MutationResult, MutationResultView, ObjectLookup, StateData};
use crate::text::{debug_list, join3, show_list};
use crate::transaction::{NamespaceSnapshot, NamespaceSnapshotView};
use vstd::prelude::*;

verus! {

broadcast use group_steps;

pub open spec fn schema_exists(name: Seq<char>) -> MutationResultView {
    conflict("schema '"@ + name + "' already exists"@)
}

/// The role that is to own a new schema, and whether it is known.
pub open spec fn schema_owner(d: StateData, authorization: Option<RoleFact>) -> (Seq<char>, bool) {
    match authorization {
        Some(fact) => match role_identity(d, fact) {
            Some(identity) => identity,
            None => (d.current_role, false),
        },
        None => (d.current_role, d.current_role_known),
    }
}

/// The data after the owner of a new schema was named: who it is may stay
/// open.
#[verifier::opaque]
pub open spec fn owner_named(d: StateData, authorization: Option<RoleFact>) -> StateData {
    tainted_if(
        d,
        authorization is Some && role_identity(d, authorization->0) is None,
        EvidenceCode::UnresolvedReference,
        EvidenceScope::Chain,
    )
}

/// Whether an owner is known not to exist.
pub open spec fn owner_missing(d: StateData, name: Seq<char>, known: bool) -> bool {
    known && d.roles_known && !role_present(d, name)
}

/// The data after an owner was looked up: without a role catalog that is a
/// gap.
#[verifier::opaque]
pub open spec fn owner_looked_up(d: StateData, known: bool) -> StateData {
    coverage_gap(d, !known || !d.roles_known)
}

/// The data with a new schema.
#[verifier::opaque]
pub open spec fn with_schema(d: StateData, name: Seq<char>, owner: Seq<char>) -> StateData {
    let generation = (d.generation_counter + 1) as u64;
    refreshed(
        StateData {
            generation_counter: generation,
            schemas: d.schemas.insert(name, Overlay::Present(SchemaStateView { name, owner: role_object(owner), generation })),
            ..d
        },
    )
}

/// `CREATE SCHEMA`.
pub open spec fn schema_created(d: StateData, name: Seq<char>, if_not_exists: bool, authorization: Option<RoleFact>) -> (
    StateData,
    MutationResultView,
) {
    match schema_lookup(d, name) {
        ObjectLookup::Present => (
            d,
            if if_not_exists {
                MutationResultView::Skipped
            } else {
                schema_exists(name)
            },
        ),
        ObjectLookup::Unknown => (tainted(d, EvidenceCode::UnknownObjectState, EvidenceScope::Chain), MutationResultView::Skipped),
        _ => {
            let (owner, known) = schema_owner(d, authorization);
            let d1 = owner_named(d, authorization);
            if owner_missing(d, owner, known) {
                (d1, role_missing(owner))
            } else {
                (with_schema(owner_looked_up(d1, known), name, owner), MutationResultView::Applied)
            }
        },
    }
}

/// What looking for a schema leads to.
pub open spec fn schema_reached(d: StateData, name: Seq<char>) -> (StateData, Option<MutationResultView>) {
    match schema_lookup(d, name) {
        ObjectLookup::Present => (d, None),
        ObjectLookup::Unknown => (
            tainted(d, EvidenceCode::UnknownObjectState, EvidenceScope::Chain),
            Some(MutationResultView::Skipped),
        ),
        _ => (d, Some(schema_missing(name))),
    }
}

/// The data with a schema that has another owner.
#[verifier::opaque]
pub open spec fn with_schema_owner(d: StateData, name: Seq<char>, owner: Seq<char>) -> StateData {
    let schema = SchemaStateView { owner: role_object(owner), ..state_of(d.schemas, name) };
    StateData { schemas: d.schemas.insert(name, Overlay::Present(schema)), ..d }
}

/// `ALTER SCHEMA ... OWNER TO`.
pub open spec fn schema_owner_changed(d: StateData, name: Seq<char>, owner: RoleFact) -> (StateData, MutationResultView) {
    let (d1, refused) = schema_reached(d, name);
    if refused is Some {
        (d1, refused->0)
    } else {
        match role_identity(d, owner) {
            None => (tainted(d, EvidenceCode::UnresolvedReference, EvidenceScope::Chain), MutationResultView::Skipped),
            Some(identity) => if owner_missing(d, identity.0, identity.1) {
                (d, role_missing(identity.0))
            } else {
                (with_schema_owner(owner_looked_up(d, identity.1), name, identity.0), MutationResultView::Applied)
            },
        }
    }
}

/// Why `ALTER SCHEMA ... RENAME TO` does not rename, with the data it leaves.
pub open spec fn schema_rename_refused(d: StateData, old_name: Seq<char>, new_name: Seq<char>) -> (StateData, Option<MutationResultView>) {
    let (d1, refused) = schema_reached(d, old_name);
    if refused is Some {
        (d1, refused)
    } else {
        match schema_lookup(d, new_name) {
            ObjectLookup::Present => (d, Some(schema_exists(new_name))),
            ObjectLookup::Unknown => (
                tainted(d, EvidenceCode::UnknownObjectState, EvidenceScope::Chain),
                Some(MutationResultView::Skipped),
            ),
            _ => (d, None),
        }
    }
}

/// Whether `after` and `r` are what `ALTER SCHEMA` leads to.
pub open spec fn schema_edge_undo(alter: AlterSchemaMutation) -> EdgeUndo {
    match alter {
        AlterSchemaMutation::OwnerTo { .. } => EdgeUndo::Stay,
        AlterSchemaMutation::Rename { .. } => EdgeUndo::PutBack,
    }
}

pub open spec fn schema_altered(d: StateData, alter: AlterSchemaMutation, after: StateData, r: MutationResultView) -> bool {
    match alter {
        AlterSchemaMutation::OwnerTo { name, new_owner } => (after, r) == schema_owner_changed(d, name@, new_owner),
        AlterSchemaMutation::Rename { old_name, new_name } => {
            let (d1, refused) = schema_rename_refused(d, old_name@, new_name@);
            if refused is Some {
                after == d1 && r == refused->0
            } else {
                r is Applied && schema_namespace_renamed(d, after, old_name@, new_name@)
            }
        },
    }
}

/// Whether `DROP SCHEMA` fails at a name.
pub open spec fn schema_drop_fails_at(d: StateData, name: Seq<char>, if_exists: bool) -> bool {
    let lookup = schema_lookup(d, name);
    lookup != ObjectLookup::Present && lookup != ObjectLookup::Unknown && !if_exists
}

pub open spec fn first_missing_schema(d: StateData, names: Seq<Seq<char>>, if_exists: bool, i: nat) -> nat
    decreases names.len() - i,
{
    if i >= names.len() || schema_drop_fails_at(d, names[i as int], if_exists) {
        i
    } else {
        first_missing_schema(d, names, if_exists, i + 1)
    }
}

pub open spec fn unknown_schema_before(d: StateData, names: Seq<Seq<char>>, n: nat) -> bool {
    exists|i: int| 0 <= i < n && schema_lookup(d, #[trigger] names[i]) == ObjectLookup::Unknown
}

/// Whether an edge comes from outside of the named schemas.
pub open spec fn depends_from_outside(d: StateData, e: DependencyEdgeView, names: Seq<Seq<char>>) -> bool {
    !(e.kind is RenameTo) && edge_is_current(d, e) && names.contains(e.referenced.schema) && !names.contains(e.dependent.schema)
}

pub open spec fn has_outside_dependents(d: StateData, names: Seq<Seq<char>>) -> bool {
    exists|i: int| 0 <= i < d.graph.len() && depends_from_outside(d, #[trigger] d.graph[i], names)
}

pub open spec fn has_object_in<V>(m: Map<ObjectIdView, Overlay<V>>, names: Seq<Seq<char>>) -> bool {
    exists|id: ObjectIdView| #[trigger] m.dom().contains(id) && names.contains(id.schema) && m[id] is Present
}

/// Whether the named schemas hold a modeled object.
pub open spec fn schemas_hold_objects(d: StateData, names: Seq<Seq<char>>) -> bool {
    has_object_in(d.relations, names) || has_object_in(d.types, names) || has_object_in(d.sequences, names) || has_object_in(d.functions, names)
        || has_object_in(d.triggers, names)
}

/// `DROP SCHEMA ... RESTRICT`. Object families that the model leaves out can
/// make the statement fail, so that an empty schema proves nothing.
#[verifier::opaque]
pub open spec fn schemas_restricted(d: StateData, names: Seq<Seq<char>>) -> (StateData, MutationResultView) {
    if has_outside_dependents(d, names) {
        (d, conflict("schema(s) "@ + debug_list(names) + " have dependent objects outside the schema; use CASCADE"@))
    } else if schemas_hold_objects(d, names) {
        (d, conflict("schema(s) "@ + debug_list(names) + " still contain objects; use CASCADE to drop them"@))
    } else {
        (tainted(d, EvidenceCode::UnmodeledState, EvidenceScope::Chain), MutationResultView::Skipped)
    }
}

/// The relations of the named schemas.
pub open spec fn relations_in(d: StateData, names: Seq<Seq<char>>) -> Set<ObjectIdView> {
    Set::new(|id: ObjectIdView| present(d.relations, id) && names.contains(id.schema))
}

/// Everything that falls with the relations of schemas.
pub open spec fn schema_cascade(d: StateData, names: Seq<Seq<char>>) -> CascadeView {
    cascade_for(d, relations_in(d, names))
}

pub open spec fn sequence_falls(d: StateData, names: Seq<Seq<char>>, c: CascadeView, id: ObjectIdView) -> bool {
    present(d.sequences, id) && (names.contains(id.schema) || match state_of(d.sequences, id).owned_by {
        Some((table, _)) => c.relations.contains(resolved(d.graph, table)),
        None => false,
    })
}

/// Whether a trigger calls a routine of the named schemas.
pub open spec fn calls_into(e: DependencyEdgeView, d: StateData, names: Seq<Seq<char>>, id: ObjectIdView) -> bool {
    match e.kind {
        DependencyKindView::TriggerOnTable { trigger_id, function_id, .. } => trigger_id == id && d.functions.dom().contains(function_id)
            && names.contains(function_id.schema),
        _ => false,
    }
}

pub open spec fn trigger_falls(d: StateData, names: Seq<Seq<char>>, c: CascadeView, id: ObjectIdView) -> bool {
    present(d.triggers, id) && {
        ||| names.contains(id.schema)
        ||| c.relations.contains(resolved(d.graph, state_of(d.triggers, id).table_id))
        ||| exists|i: int| 0 <= i < d.graph.len() && calls_into(#[trigger] d.graph[i], d, names, id)
    }
}

/// Whether a publication keeps an object.
pub open spec fn stays_published(o: PublicationObjectFactView, names: Seq<Seq<char>>) -> bool {
    match o {
        PublicationObjectFactView::Table { name, .. } => name.schema is None || !names.contains(name.schema->0.resolved()),
        PublicationObjectFactView::SchemaTables { schema, .. } => !names.contains(schema),
        _ => true,
    }
}

pub open spec fn publication_left(o: Overlay<PublicationStateView>, names: Seq<Seq<char>>) -> Overlay<PublicationStateView> {
    match o {
        Overlay::Present(s) => match s.scope {
            PublicationScopeView::Explicit(objects) => Overlay::Present(
                PublicationStateView {
                    scope: PublicationScopeView::Explicit(objects.filter(|x: PublicationObjectFactView| stays_published(x, names))),
                    ..s
                },
            ),
            _ => o,
        },
        Overlay::Dropped => o,
    }
}

/// Whether an edge outlives the drop of schemas.
pub open spec fn edge_stays(d: StateData, e: DependencyEdgeView, names: Seq<Seq<char>>, c: CascadeView) -> bool {
    let dependent = resolved(d.graph, e.dependent);
    let referenced = resolved(d.graph, e.referenced);
    if c.relations.contains(dependent) || c.relations.contains(referenced) || c.indexes.contains(dependent) || names.contains(e.dependent.schema)
        || names.contains(e.referenced.schema) {
        false
    } else {
        match e.kind {
            DependencyKindView::ForeignKey { constraint_name, .. } => constraint_name is None || !c.constraints.contains(
                (dependent, constraint_name->0),
            ),
            DependencyKindView::TriggerOnTable { trigger_id, function_id, .. } => !trigger_falls(d, names, c, trigger_id) && !(
            d.functions.dom().contains(function_id) && names.contains(function_id.schema)),
            _ => true,
        }
    }
}

/// The family with the objects that satisfy `p` dropped.
pub open spec fn dropped_where<V>(m: Map<ObjectIdView, Overlay<V>>, p: spec_fn(ObjectIdView) -> bool) -> Map<ObjectIdView, Overlay<V>> {
    Map::new(
        |id: ObjectIdView| m.dom().contains(id),
        |id: ObjectIdView|
            if p(id) {
                Overlay::Dropped
            } else {
                m[id]
            },
    )
}

/// The namespace after schemas were dropped with everything in them.
#[verifier::opaque]
pub open spec fn namespace_without_schemas(d: StateData, n: NamespaceSnapshotView, names: Seq<Seq<char>>, c: CascadeView) -> NamespaceSnapshotView {
    NamespaceSnapshotView {
        schemas: Map::new(
            |s: Seq<char>| n.schemas.dom().contains(s),
            |s: Seq<char>|
                if names.contains(s) {
                    Overlay::Dropped
                } else {
                    n.schemas[s]
                },
        ),
        relations: relations_without_defaults(
            dropped_where(d.relations, |id: ObjectIdView| c.relations.contains(id) && present(d.relations, id)),
            d.sequences,
            Set::new(|id: ObjectIdView| sequence_falls(d, names, c, id)),
        ),
        types: dropped_where(d.types, |id: ObjectIdView| names.contains(id.schema)),
        sequences: dropped_where(d.sequences, |id: ObjectIdView| sequence_falls(d, names, c, id)),
        functions: dropped_where(d.functions, |id: ObjectIdView| names.contains(id.schema)),
        triggers: dropped_where(d.triggers, |id: ObjectIdView| trigger_falls(d, names, c, id)),
        publications: Map::new(
            |name: Seq<char>| n.publications.dom().contains(name),
            |name: Seq<char>| publication_left(n.publications[name], names),
        ),
        pending_validation: n.pending_validation.filter(|key: (ObjectIdView, Seq<char>)| !names.contains(key.0.schema)),
        graph: d.graph.filter(|e: DependencyEdgeView| edge_stays(d, e, names, c)),
        ..n
    }
}

/// Whether the drop reaches a relation that is not modeled.
pub open spec fn reaches_unmodeled(d: StateData, c: CascadeView) -> bool {
    exists|id: ObjectIdView| #[trigger] c.relations.contains(id) && !present(d.relations, id)
}

/// The data after schemas were dropped with everything in them.
#[verifier::opaque]
pub open spec fn schemas_cascaded(d: StateData, names: Seq<Seq<char>>) -> StateData {
    let c = schema_cascade(d, names);
    let d1 = constraints_removed(coverage_gap(d, reaches_unmodeled(d, c)), c);
    refreshed(with_namespace(d1, namespace_without_schemas(d1, namespace_of(d1), names, c)))
}

pub open spec fn present_schemas(d: StateData, names: Seq<Seq<char>>) -> Seq<Seq<char>> {
    names.filter(|s: Seq<char>| present(d.schemas, s))
}

/// `DROP SCHEMA`.
pub open spec fn schemas_dropped(d: StateData, names: Seq<Seq<char>>, if_exists: bool, cascade: bool) -> (StateData, MutationResultView) {
    let stop = first_missing_schema(d, names, if_exists, 0);
    let unknown = unknown_schema_before(d, names, stop);
    let d1 = tainted_if(d, unknown, EvidenceCode::UnknownObjectState, EvidenceScope::Chain);
    if stop < names.len() {
        (d1, schema_missing(names[stop as int]))
    } else if unknown || present_schemas(d, names).len() == 0 {
        (d1, MutationResultView::Skipped)
    } else if cascade {
        (schemas_cascaded(d, present_schemas(d, names)), MutationResultView::Applied)
    } else {
        schemas_restricted(d, names)
    }
}

/// A schema that was created is present, with its owner.
pub proof fn law_created_schema_is_present(d: StateData, name: Seq<char>, if_not_exists: bool, authorization: Option<RoleFact>)
    requires
        schema_created(d, name, if_not_exists, authorization).1 is Applied,
    ensures
        present(schema_created(d, name, if_not_exists, authorization).0.schemas, name),
        state_of(schema_created(d, name, if_not_exists, authorization).0.schemas, name).owner == role_object(schema_owner(d, authorization).0),
{
    reveal(with_schema);
    reveal(refreshed);
    reveal(tainted_if);
    reveal(tainted);
    reveal(owner_named);
    reveal(owner_looked_up);
}

/// A schema that was dropped with everything in it is gone, and so are its
/// types, its routines and its sequences, and its relations under the names
/// that they have now.
pub proof fn law_dropped_schema_is_gone(d: StateData, names: Seq<Seq<char>>, name: Seq<char>)
    requires
        names.contains(name),
    ensures
        !present(schemas_cascaded(d, names).schemas, name),
        forall|id: ObjectIdView| id.schema == name ==> !#[trigger] present(schemas_cascaded(d, names).types, id),
        forall|id: ObjectIdView| id.schema == name ==> !#[trigger] present(schemas_cascaded(d, names).functions, id),
        forall|id: ObjectIdView| id.schema == name ==> !#[trigger] present(schemas_cascaded(d, names).sequences, id),
        forall|id: ObjectIdView|
            id.schema == name && resolved(d.graph, id) == id ==> !#[trigger] present(schemas_cascaded(d, names).relations, id),
{
    reveal(schemas_cascaded);
    reveal(namespace_without_schemas);
    reveal(constraints_removed);
    reveal(refreshed);
    reveal(tainted_if);
    reveal(tainted);
    reveal(undone);
    reveal(cascade_for);
    reveal(relations_without_defaults);
    let c = schema_cascade(d, names);
    assert forall|id: ObjectIdView| id.schema == name && resolved(d.graph, id) == id implies !#[trigger] present(
        schemas_cascaded(d, names).relations,
        id,
    ) by {
        if present(d.relations, id) {
            assert(relations_in(d, names).contains(id));
            lemma_roots_reachable(|a: ObjectIdView| dropped_with(d, a), seq![resolved(d.graph, id)], 0);
            assert(falls_with(d, id, id));
            assert(fallen_relations(d, relations_in(d, names)).contains(id));
            assert(c.relations.contains(id));
        }
    }
}

fn is_published_still(o: &PublicationObjectFact, names: &Vec<String>) -> (r: bool)
    ensures
        r == stays_published(o@, names.deep_view()),
{
    match o {
        PublicationObjectFact::Table { name, .. } => match &name.schema {
            Some(schema) => !vec_contains(names, &schema.resolve()),
            None => true,
        },
        PublicationObjectFact::SchemaTables { schema, .. } => !vec_contains(names, schema),
        _ => true,
    }
}

fn leave_publication(o: &PublicationOverlay, names: &Vec<String>) -> (r: PublicationOverlay)
    ensures
        r.deep_view() == publication_left(o.deep_view(), names.deep_view()),
{
    match o {
        Overlay::Present(s) => match &s.scope {
            PublicationScope::Explicit(objects) => {
                let stays = |x: &PublicationObjectFact| -> (b: bool)
                    ensures
                        b == stays_published(x@, names.deep_view()),
                    { is_published_still(x, names) };
                let left = vec_filter(objects, stays, Ghost(|x: PublicationObjectFactView| stays_published(x, names.deep_view())));
                Overlay::Present(PublicationState { name: s.name.dup(), scope: PublicationScope::Explicit(left), params: s.params.dup() })
            },
            _ => o.dup(),
        },
        Overlay::Dropped => Overlay::Dropped,
    }
}

/// The family with the objects that satisfy `p` dropped.
pub(crate) fn drop_where<T: Dup, F: Fn(&ObjectId) -> bool>(m: &VecMap<ObjectId, Overlay<T>>, f: F, Ghost(p): Ghost<spec_fn(ObjectIdView) -> bool>) -> (r: VecMap<
    ObjectId,
    Overlay<T>,
>)
    requires
        forall|id: &ObjectId| f.requires((id,)),
        forall|id: &ObjectId, b: bool| f.ensures((id,), b) ==> b == p(id@),
    ensures
        r@ == dropped_where(m@, p),
{
    let change = |id: &ObjectId, o: &Overlay<T>| -> (x: Overlay<T>)
        ensures
            x.deep_view() == (if p(id@) {
                Overlay::Dropped
            } else {
                o.deep_view()
            }),
        {
            if f(id) {
                Overlay::Dropped
            } else {
                o.dup()
            }
        };
    let r = m.map_entries(
        change,
        Ghost(
            |id: ObjectIdView, o: Overlay<T::V>|
                if p(id) {
                    Overlay::Dropped
                } else {
                    o
                },
        ),
    );
    assert(r@ =~= dropped_where(m@, p));
    r
}

fn holds_object_in<T: Dup>(m: &VecMap<ObjectId, Overlay<T>>, names: &Vec<String>) -> (r: bool)
    ensures
        r == has_object_in(m@, names.deep_view()),
{
    let hit = |id: &ObjectId, o: &Overlay<T>| -> (b: bool)
        ensures
            b == (names.deep_view().contains(id@.schema) && o.deep_view() is Present),
        {
            vec_contains(names, &id.schema) && match o {
                Overlay::Present(_) => true,
                Overlay::Dropped => false,
            }
        };
    m.any(hit, Ghost(|id: ObjectIdView, o: Overlay<T::V>| names.deep_view().contains(id.schema) && o is Present))
}

impl AnalysisState {
    fn schema_owner(&self, authorization: &Option<RoleFact>) -> (r: (String, bool))
        ensures
            r.deep_view() == schema_owner(self@.data, *authorization),
    {
        if let Some(fact) = authorization {
            return match self.role_fact_identity(fact) {
                Some(identity) => identity,
                None => (self.current_role().clone(), false),
            };
        }
        (self.current_role().clone(), self.current_role_is_known())
    }

    fn name_owner(&mut self, authorization: &Option<RoleFact>)
        ensures
            final(self)@.data == owner_named(old(self)@.data, *authorization),
            final(self)@.data.generation_counter == old(self)@.data.generation_counter,
            kept(old(self)@, final(self)@),
    {
        proof {
            reveal(owner_named);
            reveal(tainted);
            reveal(tainted_if);
        }
        let unresolved = match authorization {
            Some(fact) => self.role_fact_identity(fact).is_none(),
            None => false,
        };
        self.taint_if(unresolved, EvidenceCode::UnresolvedReference, EvidenceScope::Chain);
    }

    pub(crate) fn owner_missing(&self, name: &String, known: bool) -> (r: bool)
        ensures
            r == owner_missing(self@.data, name@, known),
    {
        known && self.roles_are_known() && self.present_role(name).is_none()
    }

    pub(crate) fn look_up_owner(&mut self, known: bool)
        ensures
            final(self)@.data == owner_looked_up(old(self)@.data, known),
            final(self)@.data.generation_counter == old(self)@.data.generation_counter,
            final(self)@.data.schemas == old(self)@.data.schemas,
            final(self)@.data.relations == old(self)@.data.relations,
            kept(old(self)@, final(self)@),
    {
        proof {
            reveal(owner_looked_up);
            reveal(tainted);
            reveal(tainted_if);
        }
        let gap = !known || !self.roles_are_known();
        self.taint_if(gap, EvidenceCode::CatalogCoverageIncomplete, EvidenceScope::Chain);
    }

    fn add_schema(&mut self, name: &String, owner: &String)
        requires
            old(self)@.data.generation_counter < u64::MAX,
        ensures
            final(self)@.data == with_schema(old(self)@.data, name@, owner@),
            kept(old(self)@, final(self)@),
    {
        proof {
            reveal(with_schema);
        }
        let generation = self.bump_generation();
        self.put_schema(name, Overlay::Present(SchemaState { name: name.clone(), owner: ObjectId::new("", owner), generation }));
        self.refresh_role_sensitive_search_path();
    }

    pub(crate) fn apply_create_schema(&mut self, create_schema: &CreateSchemaMutation) -> (r: MutationResult)
        requires
            old(self)@.data.generation_counter < u64::MAX,
        ensures
            (final(self)@.data, r@) == schema_created(
                old(self)@.data,
                create_schema.name@,
                create_schema.if_not_exists,
                create_schema.authorization,
            ),
            kept(old(self)@, final(self)@),
    {
        match self.schema_lookup(&create_schema.name) {
            ObjectLookup::Present => {
                if create_schema.if_not_exists {
                    return MutationResult::Skipped;
                }
                return conflict_with(join3("schema '", &create_schema.name, "' already exists"));
            },
            ObjectLookup::Unknown => {
                self.taint(EvidenceCode::UnknownObjectState, EvidenceScope::Chain);
                return MutationResult::Skipped;
            },
            _ => {},
        }
        let (owner, known) = self.schema_owner(&create_schema.authorization);
        let missing = self.owner_missing(&owner, known);
        self.name_owner(&create_schema.authorization);
        if missing {
            return conflict_with(join3("role '", &owner, "' does not exist"));
        }
        self.look_up_owner(known);
        self.add_schema(&create_schema.name, &owner);
        MutationResult::Applied
    }

    fn reach_schema(&mut self, name: &String) -> (r: Result<(), MutationResult>)
        ensures
            ({
                let (data, outcome) = schema_reached(old(self)@.data, name@);
                &&& final(self)@.data == data
                &&& match r {
                    Ok(_) => outcome is None && final(self)@ == old(self)@ && present(old(self)@.data.schemas, name@),
                    Err(result) => outcome == Some(result@) && !(result@ is Applied),
                }
            }),
            kept(old(self)@, final(self)@),
    {
        match self.schema_lookup(name) {
            ObjectLookup::Present => Ok(()),
            ObjectLookup::Unknown => {
                self.taint(EvidenceCode::UnknownObjectState, EvidenceScope::Chain);
                Err(MutationResult::Skipped)
            },
            _ => Err(conflict_with(join3("schema '", name, "' does not exist"))),
        }
    }

    fn set_schema_owner(&mut self, name: &String, owner: &String)
        requires
            present(old(self)@.data.schemas, name@),
        ensures
            final(self)@.data == with_schema_owner(old(self)@.data, name@, owner@),
            kept(old(self)@, final(self)@),
    {
        proof {
            reveal(with_schema_owner);
        }
        if let Some(schema) = self.present_schema(name) {
            let mut schema = schema.dup();
            schema.owner = ObjectId::new("", owner);
            self.put_schema(name, Overlay::Present(schema));
        }
    }

    fn change_schema_owner(&mut self, name: &String, owner: &RoleFact) -> (r: MutationResult)
        ensures
            (final(self)@.data, r@) == schema_owner_changed(old(self)@.data, name@, *owner),
            kept(old(self)@, final(self)@),
    {
        if let Err(result) = self.reach_schema(name) {
            return result;
        }
        match self.role_fact_identity(owner) {
            None => {
                self.taint(EvidenceCode::UnresolvedReference, EvidenceScope::Chain);
                MutationResult::Skipped
            },
            Some((owner_name, known)) => {
                if self.owner_missing(&owner_name, known) {
                    return conflict_with(join3("role '", &owner_name, "' does not exist"));
                }
                self.look_up_owner(known);
                self.set_schema_owner(name, &owner_name);
                MutationResult::Applied
            },
        }
    }

    fn refuse_schema_rename(&mut self, old_name: &String, new_name: &String) -> (r: Result<(), MutationResult>)
        ensures
            ({
                let (data, outcome) = schema_rename_refused(old(self)@.data, old_name@, new_name@);
                &&& final(self)@.data == data
                &&& match r {
                    Ok(_) => outcome is None && final(self)@ == old(self)@ && present(old(self)@.data.schemas, old_name@),
                    Err(result) => outcome == Some(result@) && !(result@ is Applied),
                }
            }),
            kept(old(self)@, final(self)@),
    {
        if let Err(result) = self.reach_schema(old_name) {
            return Err(result);
        }
        match self.schema_lookup(new_name) {
            ObjectLookup::Present => Err(conflict_with(join3("schema '", new_name, "' already exists"))),
            ObjectLookup::Unknown => {
                self.taint(EvidenceCode::UnknownObjectState, EvidenceScope::Chain);
                Err(MutationResult::Skipped)
            },
            _ => Ok(()),
        }
    }

    pub(crate) fn apply_alter_schema(&mut self, alter_schema: &AlterSchemaMutation) -> (r: MutationResult)
        ensures
            schema_altered(old(self)@.data, *alter_schema, final(self)@.data, r@),
            kept_as(old(self)@, final(self)@, if_applied(r@, schema_edge_undo(*alter_schema))),
    {
        match alter_schema {
            AlterSchemaMutation::OwnerTo { name, new_owner } => self.change_schema_owner(name, new_owner),
            AlterSchemaMutation::Rename { old_name, new_name } => {
                if let Err(result) = self.refuse_schema_rename(old_name, new_name) {
                    return result;
                }
                self.rename_schema_namespace(old_name, new_name);
                MutationResult::Applied
            },
        }
    }

    /// The first name that the drop fails at, and whether an unknown schema
    /// comes before it.
    fn scan_schemas(&self, names: &Vec<String>, if_exists: bool) -> (r: (usize, bool))
        ensures
            ({
                let stop = first_missing_schema(self@.data, names.deep_view(), if_exists, 0);
                &&& r.0 == stop
                &&& r.0 <= names.len()
                &&& r.1 == unknown_schema_before(self@.data, names.deep_view(), stop)
            }),
    {
        let ghost d = self@.data;
        let ghost list = names.deep_view();
        let mut unknown = false;
        let mut i: usize = 0;
        while i < names.len()
            invariant
                i <= names.len(),
                d == self@.data,
                list == names.deep_view(),
                first_missing_schema(d, list, if_exists, 0) == first_missing_schema(d, list, if_exists, i as nat),
                unknown == unknown_schema_before(d, list, i as nat),
            decreases names.len() - i,
        {
            proof {
                assert(list[i as int] == names@[i as int]@);
                assert(unknown_schema_before(d, list, (i + 1) as nat) == (unknown || schema_lookup(d, list[i as int]) == ObjectLookup::Unknown)) by {
                    if unknown_schema_before(d, list, (i + 1) as nat) && schema_lookup(d, list[i as int]) != ObjectLookup::Unknown {
                        let j = choose|j: int| 0 <= j < i + 1 && schema_lookup(d, #[trigger] list[j]) == ObjectLookup::Unknown;
                        assert(schema_lookup(d, list[j]) == ObjectLookup::Unknown);
                    }
                }
            }
            match self.schema_lookup(&names[i]) {
                ObjectLookup::Present => {},
                ObjectLookup::Unknown => {
                    unknown = true;
                },
                _ => {
                    if !if_exists {
                        return (i, unknown);
                    }
                },
            }
            i = i + 1;
        }
        (i, unknown)
    }

    fn has_outside_dependents(&self, names: &Vec<String>) -> (r: bool)
        ensures
            r == has_outside_dependents(self@.data, names.deep_view()),
    {
        let outside = |e: &DependencyEdge| -> (b: bool)
            ensures
                b == depends_from_outside(self@.data, e@, names.deep_view()),
            {
                let rename = match &e.kind {
                    DependencyKind::RenameTo => true,
                    _ => false,
                };
                !rename && self.dependency_edge_is_current(e) && vec_contains(names, &e.referenced.schema) && !vec_contains(
                    names,
                    &e.dependent.schema,
                )
            };
        let ghost d = self@.data;
        self.graph().any_edge(outside, Ghost(|e: DependencyEdgeView| depends_from_outside(d, e, names.deep_view())))
    }

    fn schemas_hold_objects(&self, names: &Vec<String>) -> (r: bool)
        ensures
            r == schemas_hold_objects(self@.data, names.deep_view()),
    {
        proof {
            reveal(data_of);
        }
        holds_object_in(&self.local.relations, names) || holds_object_in(&self.local.types, names) || holds_object_in(&self.local.sequences, names)
            || holds_object_in(&self.local.functions, names) || holds_object_in(&self.local.triggers, names)
    }

    fn restrict_schemas(&mut self, names: &Vec<String>) -> (r: MutationResult)
        ensures
            (final(self)@.data, r@) == schemas_restricted(old(self)@.data, names.deep_view()),
            !(r@ is Applied),
            kept(old(self)@, final(self)@),
    {
        proof {
            reveal(schemas_restricted);
        }
        if self.has_outside_dependents(names) {
            return conflict_with(join3("schema(s) ", &show_list(names), " have dependent objects outside the schema; use CASCADE"));
        }
        if self.schemas_hold_objects(names) {
            return conflict_with(join3("schema(s) ", &show_list(names), " still contain objects; use CASCADE to drop them"));
        }
        self.taint(EvidenceCode::UnmodeledState, EvidenceScope::Chain);
        MutationResult::Skipped
    }

    fn schema_cascade(&self, names: &Vec<String>) -> (r: CascadeResult)
        ensures
            r@ == schema_cascade(self@.data, names.deep_view()),
    {
        proof {
            reveal(data_of);
        }
        let inside = |id: &ObjectId, o: &RelationOverlay| -> (b: bool)
            ensures
                b == (names.deep_view().contains(id@.schema) && o.deep_view() is Present),
            {
                vec_contains(names, &id.schema) && match o {
                    Overlay::Present(_) => true,
                    Overlay::Dropped => false,
                }
            };
        let roots = self.local.relations.keys_where(
            inside,
            Ghost(|id: ObjectIdView, o: Overlay<RelationStateView>| names.deep_view().contains(id.schema) && o is Present),
        );
        proof {
            assert forall|id: ObjectIdView| roots.deep_view().to_set().contains(id) <==> relations_in(self@.data, names.deep_view()).contains(id) by {
                assert(roots.deep_view().to_set().contains(id) <==> roots.deep_view().contains(id));
            }
            assert(roots.deep_view().to_set() =~= relations_in(self@.data, names.deep_view()));
        }
        self.cascade_for_relations(&roots)
    }

    pub(crate) fn reaches_unmodeled(&self, c: &CascadeResult) -> (r: bool)
        ensures
            r == reaches_unmodeled(self@.data, c@),
    {
        let missing = |id: &ObjectId| -> (b: bool)
            ensures
                b == !present(self@.data.relations, id@),
            { !self.relation_is_present(id) };
        let ghost d = self@.data;
        let ghost p = |id: ObjectIdView| !present(d.relations, id);
        let r = c.dropped_relations.any(missing, Ghost(p));
        proof {
            assert(c@.relations == c.dropped_relations@);
            if r {
                let id = choose|id: ObjectIdView| #[trigger] c.dropped_relations@.contains(id) && p(id);
                assert(c@.relations.contains(id) && !present(d.relations, id));
            }
        }
        r
    }

    fn sequence_falls(&self, names: &Vec<String>, c: &CascadeResult, id: &ObjectId) -> (r: bool)
        ensures
            r == sequence_falls(self@.data, names.deep_view(), c@, id@),
    {
        match self.present_sequence(id) {
            None => false,
            Some(sequence) => vec_contains(names, &id.schema) || match &sequence.owned_by {
                Some((table, _)) => c.dropped_relations.contains(self.graph().resolve_rename(table)),
                None => false,
            },
        }
    }

    fn routine_falls(&self, names: &Vec<String>, id: &ObjectId) -> (r: bool)
        ensures
            r == (self@.data.functions.dom().contains(id@) && names.deep_view().contains(id@.schema)),
    {
        proof {
            reveal(data_of);
        }
        self.local.functions.contains_key(id) && vec_contains(names, &id.schema)
    }

    fn trigger_falls(&self, names: &Vec<String>, c: &CascadeResult, id: &ObjectId) -> (r: bool)
        ensures
            r == trigger_falls(self@.data, names.deep_view(), c@, id@),
    {
        match self.present_trigger(id) {
            None => false,
            Some(trigger) => {
                if vec_contains(names, &id.schema) || c.dropped_relations.contains(self.graph().resolve_rename(&trigger.table_id)) {
                    return true;
                }
                let calls = |e: &DependencyEdge| -> (b: bool)
                    ensures
                        b == calls_into(e@, self@.data, names.deep_view(), id@),
                    {
                        match &e.kind {
                            DependencyKind::TriggerOnTable { trigger_id, function_id, .. } => trigger_id.same(id) && self.routine_falls(
                                names,
                                function_id,
                            ),
                            _ => false,
                        }
                    };
                let ghost d = self@.data;
                self.graph().any_edge(calls, Ghost(|e: DependencyEdgeView| calls_into(e, d, names.deep_view(), id@)))
            },
        }
    }

    fn edge_stays(&self, e: &DependencyEdge, names: &Vec<String>, c: &CascadeResult) -> (r: bool)
        ensures
            r == edge_stays(self@.data, e@, names.deep_view(), c@),
    {
        let dependent = self.graph().resolve_rename(&e.dependent);
        let referenced = self.graph().resolve_rename(&e.referenced);
        if c.dropped_relations.contains(dependent) || c.dropped_relations.contains(referenced) || c.dropped_indexes.contains(dependent)
            || vec_contains(names, &e.dependent.schema) || vec_contains(names, &e.referenced.schema) {
            return false;
        }
        match &e.kind {
            DependencyKind::ForeignKey { constraint_name, .. } => match constraint_name {
                Some(name) => !c.dropped_constraints.contains(&(dependent.dup(), name.dup())),
                None => true,
            },
            DependencyKind::TriggerOnTable { trigger_id, function_id, .. } => !self.trigger_falls(names, c, trigger_id) && !self.routine_falls(
                names,
                function_id,
            ),
            _ => true,
        }
    }

    /// The relations after the drop, without defaults that drew from dropped
    /// sequences.
    fn relations_without_schemas(&self, names: &Vec<String>, c: &CascadeResult) -> (r: VecMap<ObjectId, RelationOverlay>)
        ensures
            ({
                let d = self@.data;
                r@ == relations_without_defaults(
                    dropped_where(d.relations, |id: ObjectIdView| c@.relations.contains(id) && present(d.relations, id)),
                    d.sequences,
                    Set::new(|id: ObjectIdView| sequence_falls(d, names.deep_view(), c@, id)),
                )
            }),
    {
        proof {
            reveal(data_of);
            reveal(relations_without_defaults);
        }
        let ghost d = self@.data;
        let falls = |id: &ObjectId| -> (b: bool)
            ensures
                b == (c@.relations.contains(id@) && present(self@.data.relations, id@)),
            { c.dropped_relations.contains(id) && self.relation_is_present(id) };
        let left = drop_where(
            &self.local.relations,
            falls,
            Ghost(|id: ObjectIdView| c@.relations.contains(id) && present(d.relations, id)),
        );
        let sequence = |id: &ObjectId, o: &SequenceOverlay| -> (b: bool)
            ensures
                b == sequence_falls(self@.data, names.deep_view(), c@, id@),
            { self.sequence_falls(names, c, id) };
        let ids = self.local.sequences.keys_where(
            sequence,
            Ghost(|id: ObjectIdView, o: Overlay<SequenceStateView>| sequence_falls(d, names.deep_view(), c@, id)),
        );
        let ghost set = Set::new(|id: ObjectIdView| sequence_falls(d, names.deep_view(), c@, id));
        proof {
            assert forall|id: ObjectIdView| ids.deep_view().to_set().contains(id) <==> set.contains(id) by {
                assert(ids.deep_view().to_set().contains(id) <==> ids.deep_view().contains(id));
            }
            assert(ids.deep_view().to_set() =~= set);
            assert forall|k: int| 0 <= k < ids.deep_view().len() implies present(self@.data.sequences, #[trigger] ids.deep_view()[k]) by {
                assert(ids.deep_view().contains(ids.deep_view()[k]));
            }
        }
        let clear = |id: &ObjectId, o: &RelationOverlay| -> (x: RelationOverlay)
            ensures
                x.deep_view() == (match o.deep_view() {
                    Overlay::Present(r) => Overlay::Present(
                        RelationStateView { columns: defaults_cleared(r.columns, id@, self@.data.sequences, ids.deep_view().to_set()), ..r },
                    ),
                    Overlay::Dropped => Overlay::Dropped,
                }),
            {
                match o {
                    Overlay::Present(r) => {
                        let mut relation = r.dup();
                        relation.columns = self.clear_defaults(&r.columns, id, &ids);
                        Overlay::Present(relation)
                    },
                    Overlay::Dropped => Overlay::Dropped,
                }
            };
        let r = left.map_entries(
            clear,
            Ghost(
                |id: ObjectIdView, o: Overlay<RelationStateView>|
                    match o {
                        Overlay::Present(r) => Overlay::Present(
                            RelationStateView { columns: defaults_cleared(r.columns, id, d.sequences, set), ..r },
                        ),
                        Overlay::Dropped => Overlay::Dropped,
                    },
            ),
        );
        proof {
            let relations = dropped_where(d.relations, |id: ObjectIdView| c@.relations.contains(id) && present(d.relations, id));
            assert(r@ =~= relations_without_defaults(relations, d.sequences, set));
        }
        r
    }

    /// The namespace after schemas were dropped.
    fn namespace_without_schemas(&self, names: &Vec<String>, c: &CascadeResult) -> (r: NamespaceSnapshot)
        ensures
            r@ == namespace_without_schemas(self@.data, namespace_of(self@.data), names.deep_view(), c@),
    {
        let ghost d = self@.data;
        let mut n = self.current_namespace();
        let ghost before = n@;
        n.relations = self.relations_without_schemas(names, c);
        let inside = |id: &ObjectId| -> (b: bool)
            ensures
                b == names.deep_view().contains(id@.schema),
            { vec_contains(names, &id.schema) };
        n.types = drop_where(&n.types, inside, Ghost(|id: ObjectIdView| names.deep_view().contains(id.schema)));
        let inside = |id: &ObjectId| -> (b: bool)
            ensures
                b == names.deep_view().contains(id@.schema),
            { vec_contains(names, &id.schema) };
        n.functions = drop_where(&n.functions, inside, Ghost(|id: ObjectIdView| names.deep_view().contains(id.schema)));
        let sequence = |id: &ObjectId| -> (b: bool)
            ensures
                b == sequence_falls(self@.data, names.deep_view(), c@, id@),
            { self.sequence_falls(names, c, id) };
        n.sequences = drop_where(&n.sequences, sequence, Ghost(|id: ObjectIdView| sequence_falls(d, names.deep_view(), c@, id)));
        let trigger = |id: &ObjectId| -> (b: bool)
            ensures
                b == trigger_falls(self@.data, names.deep_view(), c@, id@),
            { self.trigger_falls(names, c, id) };
        n.triggers = drop_where(&n.triggers, trigger, Ghost(|id: ObjectIdView| trigger_falls(d, names.deep_view(), c@, id)));
        let publication = |name: &String, o: &PublicationOverlay| -> (x: PublicationOverlay)
            ensures
                x.deep_view() == publication_left(o.deep_view(), names.deep_view()),
            { leave_publication(o, names) };
        n.publications = n.publications.map_entries(
            publication,
            Ghost(|name: Seq<char>, o: Overlay<PublicationStateView>| publication_left(o, names.deep_view())),
        );
        let stays = |key: &(ObjectId, String)| -> (b: bool)
            ensures
                b == !names.deep_view().contains(key.deep_view().0.schema),
            { !vec_contains(names, &key.0.schema) };
        n.pending_validation.retain(stays, Ghost(|key: (ObjectIdView, Seq<char>)| !names.deep_view().contains(key.0.schema)));
        let stays = |e: &DependencyEdge| -> (b: bool)
            ensures
                b == edge_stays(self@.data, e@, names.deep_view(), c@),
            { self.edge_stays(e, names, c) };
        n.graph = vec_filter(self.graph().edges(), stays, Ghost(|e: DependencyEdgeView| edge_stays(d, e, names.deep_view(), c@)));
        let schema = |name: &String, o: &Overlay<SchemaState>| -> (x: Overlay<SchemaState>)
            ensures
                x.deep_view() == (if names.deep_view().contains(name@) {
                    Overlay::Dropped
                } else {
                    o.deep_view()
                }),
            {
                if vec_contains(names, name) {
                    Overlay::Dropped
                } else {
                    o.dup()
                }
            };
        n.schemas = n.schemas.map_entries(
            schema,
            Ghost(
                |name: Seq<char>, o: Overlay<SchemaStateView>|
                    if names.deep_view().contains(name) {
                        Overlay::Dropped
                    } else {
                        o
                    },
            ),
        );
        proof {
            reveal(namespace_without_schemas);
            let goal = namespace_without_schemas(d, before, names.deep_view(), c@);
            assert(n@.schemas =~= goal.schemas);
            assert(n@.publications =~= goal.publications);
            assert(n@ =~= goal);
        }
        n
    }

    fn cascade_schemas(&mut self, names: &Vec<String>)
        ensures
            final(self)@.data == schemas_cascaded(old(self)@.data, names.deep_view()),
            kept_as(old(self)@, final(self)@, EdgeUndo::PutBack),
    {
        proof {
            reveal(schemas_cascaded);
        }
        let c = self.schema_cascade(names);
        let gap = self.reaches_unmodeled(&c);
        self.taint_if(gap, EvidenceCode::CatalogCoverageIncomplete, EvidenceScope::Chain);
        self.remove_dropped_constraints(&c);
        let n = self.namespace_without_schemas(names, &c);
        self.replace_namespace(n);
        self.refresh_role_sensitive_search_path();
    }

    fn present_schemas(&self, names: &Vec<String>) -> (r: Vec<String>)
        ensures
            r.deep_view() == present_schemas(self@.data, names.deep_view()),
    {
        let ghost d = self@.data;
        let is_present = |name: &String| -> (b: bool)
            ensures
                b == present(self@.data.schemas, name@),
            { self.schema_is_present(name) };
        vec_filter(names, is_present, Ghost(|name: Seq<char>| present(d.schemas, name)))
    }

    pub(crate) fn apply_drop_schema(&mut self, drop_schema: &DropSchemaMutation) -> (r: MutationResult)
        ensures
            (final(self)@.data, r@) == schemas_dropped(
                old(self)@.data,
                drop_schema.names.deep_view(),
                drop_schema.if_exists,
                drop_schema.cascade,
            ),
            kept_as(old(self)@, final(self)@, if_applied(r@, EdgeUndo::PutBack)),
    {
        let (stop, unknown) = self.scan_schemas(&drop_schema.names, drop_schema.if_exists);
        let found = self.present_schemas(&drop_schema.names);
        if stop < drop_schema.names.len() {
            assert(drop_schema.names.deep_view()[stop as int] == drop_schema.names@[stop as int]@);
            self.taint_if(unknown, EvidenceCode::UnknownObjectState, EvidenceScope::Chain);
            return conflict_with(join3("schema '", &drop_schema.names[stop], "' does not exist"));
        }
        if unknown || found.len() == 0 {
            self.taint_if(unknown, EvidenceCode::UnknownObjectState, EvidenceScope::Chain);
            return MutationResult::Skipped;
        }
        if drop_schema.cascade {
            self.cascade_schemas(&found);
            return MutationResult::Applied;
        }
        self.restrict_schemas(&drop_schema.names)
    }
}

} // verus!
