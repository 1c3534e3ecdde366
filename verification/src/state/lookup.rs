//! What the state knows of the objects that statements name.
use crate::cache::CatalogFamily;
use crate::collections::{vec_any, Dup, Key};
use crate::evidence::{EvidenceCode, EvidenceScope};
use crate::facts::RoleFact;
use crate::graph::{DependencyEdge, DependencyEdgeView, DependencyGraph, DependencyKind};
use crate::identifiers::{object, role_object, ObjectId, ObjectIdView, QualifiedName, QualifiedNameView};
use crate::model::constraint::ConstraintState;
use crate::model::function::{FunctionState, RoutineKind};
use crate::model::relation::{RelationKind, RelationOverlay, RelationState};
use crate::model::role::RoleState;
use crate::model::schema::SchemaState;
use crate::model::sequence::SequenceState;
use crate::model::trigger::TriggerState;
use crate::model::Overlay;
use crate::state::journal::{kept, lemma_kept_refl, tainted};
use crate::state::{data_of, AnalysisState, MutationResult, MutationResultView, ObjectLookup, StateData};
use crate::text::join3;
use vstd::prelude::*;

verus! {

/// Which kinds of relation a statement accepts.
#[derive(Clone, Copy, Debug, PartialEq, Eq, Structural)]
pub enum RelationFilter {
    Any,
    Table,
    View,
    MaterializedView,
    Indexable,
}

pub open spec fn accepts(filter: RelationFilter, kind: RelationKind) -> bool {
    match filter {
        RelationFilter::Any => true,
        RelationFilter::Table => kind == RelationKind::Table,
        RelationFilter::View => kind == RelationKind::View,
        RelationFilter::MaterializedView => kind == RelationKind::MaterializedView,
        RelationFilter::Indexable => kind == RelationKind::Table || kind == RelationKind::MaterializedView,
    }
}

impl RelationFilter {
    pub fn accepts(&self, kind: RelationKind) -> (r: bool)
        ensures
            r == accepts(*self, kind),
    {
        proof {
            reveal(data_of);
        }
        match self {
            RelationFilter::Any => true,
            RelationFilter::Table => kind == RelationKind::Table,
            RelationFilter::View => kind == RelationKind::View,
            RelationFilter::MaterializedView => kind == RelationKind::MaterializedView,
            RelationFilter::Indexable => kind == RelationKind::Table || kind == RelationKind::MaterializedView,
        }
    }
}

pub open spec fn conflict(reason: Seq<char>) -> MutationResultView {
    MutationResultView::Conflict { reason }
}

pub open spec fn present<K, T>(m: Map<K, Overlay<T>>, k: K) -> bool {
    m.dom().contains(k) && m[k] is Present
}

pub open spec fn dropped<K, T>(m: Map<K, Overlay<T>>, k: K) -> bool {
    m.dom().contains(k) && m[k] is Dropped
}

/// The state of an object that is present.
pub open spec fn state_of<K, T>(m: Map<K, Overlay<T>>, k: K) -> T {
    m[k]->Present_0
}

pub open spec fn is_index(e: DependencyEdgeView, id: ObjectIdView) -> bool {
    e.kind is IndexOnRelation && e.dependent == id
}

pub open spec fn index_present(d: StateData, id: ObjectIdView) -> bool {
    exists|i: int| 0 <= i < d.graph.len() && is_index(#[trigger] d.graph[i], id)
}

/// Relations, sequences and indexes share one namespace.
pub open spec fn namespace_object_present(d: StateData, id: ObjectIdView) -> bool {
    present(d.relations, id) || present(d.sequences, id) || index_present(d, id)
}

/// A type occupies the relation namespace too.
pub open spec fn namespace_taken(d: StateData, id: ObjectIdView) -> bool {
    namespace_object_present(d, id) || present(d.types, id)
}

/// Whether the baseline answers for an object: a scoped cache only knows the
/// schemas it synchronized.
pub open spec fn covers_object(d: StateData, id: ObjectIdView) -> bool {
    d.baseline_available && d.baseline_coverage.covers(id.schema) && (match d.baseline_schemas {
        Some(schemas) => schemas.contains(id.schema),
        None => true,
    })
}

/// Whether the baseline answers for an object of a catalog family.
pub open spec fn covers_family(d: StateData, id: ObjectIdView, family: CatalogFamily) -> bool {
    covers_object(d, id) && d.baseline_coverage.families.contains(family)
}

/// Whether a scoped baseline leaves open what outside of its scope depends on
/// an object.
pub open spec fn scoped_family_object(d: StateData, id: ObjectIdView, family: CatalogFamily) -> bool {
    d.baseline_schemas is Some && covers_family(d, id, family) && (!d.baseline_boundary_queries_complete || (match family {
        CatalogFamily::Relations => d.scoped_external_relation_dependencies.contains(id),
        CatalogFamily::Types => d.scoped_external_type_dependencies.contains(id),
        CatalogFamily::Routines => d.scoped_external_routine_dependencies.contains(id),
        _ => true,
    }))
}

pub open spec fn relation_lookup(d: StateData, id: ObjectIdView, filter: RelationFilter) -> ObjectLookup {
    if present(d.relations, id) {
        if accepts(filter, state_of(d.relations, id).kind) {
            ObjectLookup::Present
        } else {
            ObjectLookup::WrongKind
        }
    } else if dropped(d.relations, id) {
        ObjectLookup::Tombstone
    } else if present(d.sequences, id) || index_present(d, id) {
        ObjectLookup::WrongKind
    } else if covers_family(d, id, CatalogFamily::Relations) {
        ObjectLookup::AuthoritativelyAbsent
    } else {
        ObjectLookup::Unknown
    }
}

pub open spec fn schema_absence_is_authoritative(d: StateData, name: Seq<char>) -> bool {
    dropped(d.schemas, name) || (d.baseline_available && d.baseline_coverage.families.contains(CatalogFamily::Schemas) && (
    match d.baseline_schemas {
        Some(schemas) => schemas.contains(name),
        None => true,
    }))
}

pub open spec fn schema_lookup(d: StateData, name: Seq<char>) -> ObjectLookup {
    if present(d.schemas, name) {
        ObjectLookup::Present
    } else if dropped(d.schemas, name) {
        ObjectLookup::Tombstone
    } else if schema_absence_is_authoritative(d, name) {
        ObjectLookup::AuthoritativelyAbsent
    } else {
        ObjectLookup::Unknown
    }
}

pub open spec fn sequence_lookup(d: StateData, id: ObjectIdView) -> ObjectLookup {
    if present(d.sequences, id) {
        ObjectLookup::Present
    } else if dropped(d.sequences, id) {
        ObjectLookup::Tombstone
    } else if covers_object(d, id) {
        ObjectLookup::AuthoritativelyAbsent
    } else {
        ObjectLookup::Unknown
    }
}

pub open spec fn trigger_lookup(d: StateData, id: ObjectIdView) -> ObjectLookup {
    if present(d.triggers, id) {
        ObjectLookup::Present
    } else if dropped(d.triggers, id) {
        ObjectLookup::Tombstone
    } else if covers_object(d, id) {
        ObjectLookup::AuthoritativelyAbsent
    } else {
        ObjectLookup::Unknown
    }
}

pub open spec fn role_lookup(d: StateData, id: ObjectIdView) -> ObjectLookup {
    if present(d.roles, id) {
        ObjectLookup::Present
    } else if dropped(d.roles, id) {
        ObjectLookup::Tombstone
    } else if d.roles_known {
        ObjectLookup::AuthoritativelyAbsent
    } else {
        ObjectLookup::Unknown
    }
}

pub open spec fn index_lookup(d: StateData, id: ObjectIdView) -> ObjectLookup {
    if index_present(d, id) {
        ObjectLookup::Present
    } else if covers_object(d, id) {
        ObjectLookup::AuthoritativelyAbsent
    } else {
        ObjectLookup::Unknown
    }
}

pub open spec fn relation_or_index_lookup(d: StateData, id: ObjectIdView) -> ObjectLookup {
    if present(d.relations, id) || index_present(d, id) {
        ObjectLookup::Present
    } else if dropped(d.relations, id) {
        ObjectLookup::Tombstone
    } else if covers_family(d, id, CatalogFamily::Relations) || covers_family(d, id, CatalogFamily::Indexes) {
        ObjectLookup::AuthoritativelyAbsent
    } else {
        ObjectLookup::Unknown
    }
}

pub open spec fn role_present(d: StateData, name: Seq<char>) -> bool {
    present(d.roles, role_object(name))
}

/// The name of the role that a statement means, and whether it is known.
pub open spec fn role_identity(d: StateData, fact: RoleFact) -> Option<(Seq<char>, bool)> {
    match fact {
        RoleFact::Named { name, .. } => Some((name@, true)),
        RoleFact::CurrentUser => Some((d.current_role, d.current_role_known)),
        RoleFact::CurrentRole => Some((d.current_role, d.current_role_known)),
        RoleFact::SessionUser => Some((d.session_role, d.session_role_known)),
        RoleFact::Unknown => None,
    }
}

/// What checking a relation target leads to: the data after the check, and the
/// result that ends the statement where the target is not usable.
pub open spec fn relation_target_checked(
    d: StateData,
    id: ObjectIdView,
    filter: RelationFilter,
    missing: Seq<char>,
    wrong_kind: Seq<char>,
) -> (StateData, Option<MutationResultView>) {
    match relation_lookup(d, id, filter) {
        ObjectLookup::Present => (d, None),
        ObjectLookup::WrongKind => (d, Some(conflict(wrong_kind))),
        ObjectLookup::Tombstone => (d, Some(conflict(missing))),
        ObjectLookup::AuthoritativelyAbsent => (d, Some(conflict(missing))),
        ObjectLookup::Unknown => (
            tainted(d, EvidenceCode::UnknownObjectState, EvidenceScope::Chain),
            Some(MutationResultView::Skipped),
        ),
    }
}

pub open spec fn schema_missing(name: Seq<char>) -> MutationResultView {
    conflict("schema '"@ + name + "' does not exist"@)
}

/// What checking the namespace of a new object leads to.
pub open spec fn schema_target_checked(d: StateData, name: Seq<char>) -> (StateData, Option<MutationResultView>) {
    match schema_lookup(d, name) {
        ObjectLookup::Present => (d, None),
        ObjectLookup::Unknown => (
            tainted(d, EvidenceCode::UnknownObjectState, EvidenceScope::Chain),
            Some(MutationResultView::Skipped),
        ),
        _ => (d, Some(schema_missing(name))),
    }
}

/// What checking a routine target leads to.
pub open spec fn routine_target_checked(
    d: StateData,
    id: ObjectIdView,
    expected: RoutineKind,
    missing: Seq<char>,
    wrong_kind: Seq<char>,
) -> (StateData, Option<MutationResultView>) {
    if present(d.functions, id) {
        if state_of(d.functions, id).routine_kind == expected {
            (d, None)
        } else {
            (d, Some(conflict(wrong_kind)))
        }
    } else if dropped(d.functions, id) || covers_family(d, id, CatalogFamily::Routines) {
        (d, Some(conflict(missing)))
    } else {
        (tainted(d, EvidenceCode::UnknownObjectState, EvidenceScope::Chain), Some(MutationResultView::Skipped))
    }
}

/// The first schema of the search path, or `public`.
pub open spec fn first_schema(d: StateData) -> Seq<char> {
    if d.search_path.len() > 0 {
        d.search_path[0]
    } else {
        "public"@
    }
}

/// The first schema, from position `i` of the search path on, in which the
/// relation namespace holds `name`.
pub open spec fn visible_schema(d: StateData, name: Seq<char>, i: int) -> Seq<char>
    decreases d.search_path.len() - i,
{
    if i < 0 || i >= d.search_path.len() {
        first_schema(d)
    } else if namespace_object_present(d, object(d.search_path[i], name)) {
        d.search_path[i]
    } else {
        visible_schema(d, name, i + 1)
    }
}

/// The relation that a written name denotes.
pub open spec fn relation_id(d: StateData, name: QualifiedNameView) -> ObjectIdView {
    match name.schema {
        Some(schema) => object(schema.resolved(), name.name.resolved()),
        None => object(visible_schema(d, name.name.resolved(), 0), name.name.resolved()),
    }
}

/// The first schema, from position `i` of the search path on, that holds the
/// routine with this signature.
pub open spec fn routine_schema(d: StateData, signature: Seq<char>, i: int) -> Seq<char>
    decreases d.search_path.len() - i,
{
    if i < 0 || i >= d.search_path.len() {
        first_schema(d)
    } else if present(d.functions, object(d.search_path[i], signature)) {
        d.search_path[i]
    } else {
        routine_schema(d, signature, i + 1)
    }
}

pub(crate) fn conflict_with(reason: String) -> (r: MutationResult)
    ensures
        r@ == conflict(reason@),
{
    MutationResult::Conflict { reason }
}

impl AnalysisState {
    pub fn get_relation(&self, id: &ObjectId) -> (r: Option<&RelationOverlay>)
        ensures
            match r {
                Some(o) => self@.data.relations.dom().contains(id@) && o.deep_view() == self@.data.relations[id@],
                None => !self@.data.relations.dom().contains(id@),
            },
    {
        proof {
            reveal(data_of);
        }
        self.local.relations.get(id)
    }

    /// The state of a relation that is present.
    pub(crate) fn present_relation(&self, id: &ObjectId) -> (r: Option<&RelationState>)
        ensures
            match r {
                Some(relation) => present(self@.data.relations, id@) && relation@ == state_of(self@.data.relations, id@),
                None => !present(self@.data.relations, id@),
            },
    {
        proof {
            reveal(data_of);
        }
        match self.local.relations.get(id) {
            Some(Overlay::Present(relation)) => Some(relation),
            _ => None,
        }
    }

    /// The state of a trigger that is present.
    pub(crate) fn present_trigger(&self, id: &ObjectId) -> (r: Option<&TriggerState>)
        ensures
            match r {
                Some(state) => present(self@.data.triggers, id@) && state@ == state_of(self@.data.triggers, id@),
                None => !present(self@.data.triggers, id@),
            },
    {
        proof {
            reveal(data_of);
        }
        match self.local.triggers.get(id) {
            Some(Overlay::Present(state)) => Some(state),
            _ => None,
        }
    }

    /// The state of a sequence that is present.
    pub(crate) fn present_sequence(&self, id: &ObjectId) -> (r: Option<&SequenceState>)
        ensures
            match r {
                Some(state) => present(self@.data.sequences, id@) && state@ == state_of(self@.data.sequences, id@),
                None => !present(self@.data.sequences, id@),
            },
    {
        proof {
            reveal(data_of);
        }
        match self.local.sequences.get(id) {
            Some(Overlay::Present(state)) => Some(state),
            _ => None,
        }
    }

    /// The state of a routine that is present.
    pub(crate) fn present_function(&self, id: &ObjectId) -> (r: Option<&FunctionState>)
        ensures
            match r {
                Some(state) => present(self@.data.functions, id@) && state@ == state_of(self@.data.functions, id@),
                None => !present(self@.data.functions, id@),
            },
    {
        proof {
            reveal(data_of);
        }
        match self.local.functions.get(id) {
            Some(Overlay::Present(state)) => Some(state),
            _ => None,
        }
    }

    /// The state of a schema that is present.
    pub(crate) fn present_schema(&self, id: &String) -> (r: Option<&SchemaState>)
        ensures
            match r {
                Some(state) => present(self@.data.schemas, id@) && state@ == state_of(self@.data.schemas, id@),
                None => !present(self@.data.schemas, id@),
            },
    {
        proof {
            reveal(data_of);
        }
        match self.local.schemas.get(id) {
            Some(Overlay::Present(state)) => Some(state),
            _ => None,
        }
    }

    pub(crate) fn graph(&self) -> (r: &DependencyGraph)
        ensures
            r@ == self@.data.graph,
    {
        proof {
            reveal(data_of);
        }
        &self.local.graph
    }

    pub(crate) fn generation(&self) -> (r: u64)
        ensures
            r == self@.data.generation_counter,
    {
        proof {
            reveal(data_of);
        }
        self.local.generation_counter
    }

    pub(crate) fn current_role(&self) -> (r: &String)
        ensures
            r@ == self@.data.current_role,
    {
        proof {
            reveal(data_of);
        }
        &self.local.current_role
    }

    pub(crate) fn constraint(&self, table: &ObjectId, name: &String) -> (r: Option<&ConstraintState>)
        ensures
            match r {
                Some(state) => self@.data.constraints.dom().contains((table@, name@)) && state@ == self@.data.constraints[(table@, name@)],
                None => !self@.data.constraints.dom().contains((table@, name@)),
            },
    {
        proof {
            reveal(data_of);
        }
        self.local.constraints.get(&(table.dup(), name.dup()))
    }

    pub fn relation_is_present(&self, id: &ObjectId) -> (r: bool)
        ensures
            r == present(self@.data.relations, id@),
    {
        proof {
            reveal(data_of);
        }
        match self.local.relations.get(id) {
            Some(Overlay::Present(_)) => true,
            _ => false,
        }
    }

    pub fn sequence_is_present(&self, id: &ObjectId) -> (r: bool)
        ensures
            r == present(self@.data.sequences, id@),
    {
        proof {
            reveal(data_of);
        }
        match self.local.sequences.get(id) {
            Some(Overlay::Present(_)) => true,
            _ => false,
        }
    }

    pub fn type_is_present(&self, id: &ObjectId) -> (r: bool)
        ensures
            r == present(self@.data.types, id@),
    {
        proof {
            reveal(data_of);
        }
        match self.local.types.get(id) {
            Some(Overlay::Present(_)) => true,
            _ => false,
        }
    }

    pub fn routine_is_present(&self, id: &ObjectId) -> (r: bool)
        ensures
            r == present(self@.data.functions, id@),
    {
        proof {
            reveal(data_of);
        }
        match self.local.functions.get(id) {
            Some(Overlay::Present(_)) => true,
            _ => false,
        }
    }

    pub fn schema_is_present(&self, name: &String) -> (r: bool)
        ensures
            r == present(self@.data.schemas, name@),
    {
        proof {
            reveal(data_of);
        }
        match self.local.schemas.get(name) {
            Some(Overlay::Present(_)) => true,
            _ => false,
        }
    }

    pub fn index_is_present(&self, id: &ObjectId) -> (r: bool)
        ensures
            r == index_present(self@.data, id@),
    {
        proof {
            reveal(data_of);
        }
        let ghost p = |e: DependencyEdgeView| is_index(e, id@);
        let hit = |e: &DependencyEdge| -> (b: bool)
            ensures
                b == is_index(e@, id@),
        { matches!(e.kind, DependencyKind::IndexOnRelation { .. }) && e.dependent.same(id) };
        let r = vec_any(self.local.graph.edges(), hit, Ghost(p));
        assert(self@.data.graph == self.local.graph@);
        assert(r == exists|i: int| 0 <= i < self.local.graph@.len() && p(#[trigger] self.local.graph@[i]));
        r
    }

    pub fn relation_namespace_object_is_present(&self, id: &ObjectId) -> (r: bool)
        ensures
            r == namespace_object_present(self@.data, id@),
    {
        proof {
            reveal(data_of);
        }
        self.relation_is_present(id) || self.sequence_is_present(id) || self.index_is_present(id)
    }

    pub fn relation_namespace_is_taken(&self, id: &ObjectId) -> (r: bool)
        ensures
            r == namespace_taken(self@.data, id@),
    {
        proof {
            reveal(data_of);
        }
        self.relation_namespace_object_is_present(id) || self.type_is_present(id)
    }

    /// Whether a cache-backed absence is authoritative for an object.
    pub fn baseline_covers_object(&self, id: &ObjectId) -> (r: bool)
        ensures
            r == covers_object(self@.data, id@),
    {
        proof {
            reveal(data_of);
        }
        self.baseline_available && self.baseline_coverage.covers(&id.schema) && (match &self.baseline_schemas {
            Some(schemas) => schemas.contains(&id.schema),
            None => true,
        })
    }

    /// Whether a catalog family can answer for an object.
    pub fn baseline_covers_family_object(&self, id: &ObjectId, family: CatalogFamily) -> (r: bool)
        ensures
            r == covers_family(self@.data, id@, family),
    {
        proof {
            reveal(data_of);
        }
        self.baseline_covers_object(id) && self.baseline_coverage.has(family)
    }

    pub fn baseline_relation_is_known(&self, id: &ObjectId) -> (r: bool)
        ensures
            r == self@.data.baseline_relations.contains(id@),
    {
        proof {
            reveal(data_of);
        }
        self.baseline_relations.contains(id)
    }

    pub fn baseline_fk_dependency_is_known(&self, id: &ObjectId) -> (r: bool)
        ensures
            r == self@.data.baseline_fk_dependencies.contains(id@),
    {
        proof {
            reveal(data_of);
        }
        self.baseline_fk_dependencies.contains(id)
    }

    pub fn baseline_is_available(&self) -> (r: bool)
        ensures
            r == self@.data.baseline_available,
    {
        proof {
            reveal(data_of);
        }
        self.baseline_available
    }

    pub fn baseline_has_coverage(&self, family: CatalogFamily) -> (r: bool)
        ensures
            r == self@.data.baseline_coverage.families.contains(family),
    {
        proof {
            reveal(data_of);
        }
        self.baseline_coverage.has(family)
    }

    /// A schema-scoped baseline cannot prove that dependents in other schemas
    /// are absent unless the boundary queries were run.
    pub fn baseline_scoped_family_object(&self, id: &ObjectId, family: CatalogFamily) -> (r: bool)
        ensures
            r == scoped_family_object(self@.data, id@, family),
    {
        proof {
            reveal(data_of);
        }
        if self.baseline_schemas.is_none() || !self.baseline_covers_family_object(id, family) {
            return false;
        }
        if !self.baseline_boundary_queries_complete {
            return true;
        }
        match family {
            CatalogFamily::Relations => self.scoped_external_relation_dependencies.contains(id),
            CatalogFamily::Types => self.scoped_external_type_dependencies.contains(id),
            CatalogFamily::Routines => self.scoped_external_routine_dependencies.contains(id),
            _ => true,
        }
    }

    /// The PostgreSQL version that semantic decisions go by.
    pub fn effective_pg_version_num(&self, fallback: u32) -> (r: u32)
        ensures
            r == (match self@.data.pg_version_num {
                Some(version) => version,
                None => fallback,
            }),
    {
        proof {
            reveal(data_of);
        }
        match self.pg_version_num {
            Some(version) => version,
            None => fallback,
        }
    }

    pub fn search_path(&self) -> (r: &Vec<String>)
        ensures
            r.deep_view() == self@.data.search_path,
    {
        proof {
            reveal(data_of);
        }
        &self.local.search_path
    }

    pub fn transaction_depth(&self) -> (r: usize)
        ensures
            r == self@.frames.len(),
    {
        proof {
            reveal(data_of);
        }
        self.local.transactions.len()
    }

    pub fn effective_lock_timeout(&self) -> (r: Option<u64>)
        ensures
            r == self@.data.lock_timeout.effective,
    {
        proof {
            reveal(data_of);
        }
        self.local.lock_timeout.effective
    }

    pub fn effective_statement_timeout(&self) -> (r: Option<u64>)
        ensures
            r == self@.data.statement_timeout.effective,
    {
        proof {
            reveal(data_of);
        }
        self.local.statement_timeout.effective
    }

    pub fn transaction_is_aborted(&self) -> (r: bool)
        ensures
            r == self@.aborted,
    {
        proof {
            reveal(data_of);
        }
        self.local.transaction_aborted
    }

    pub fn evidence(&self) -> (r: &[crate::evidence::EvidenceRecord])
        ensures
            r@ == self@.data.evidence,
    {
        proof {
            reveal(data_of);
        }
        self.local.evidence.records()
    }

    pub fn confidence(&self) -> (r: &crate::state::Confidence)
        ensures
            *r == self@.data.confidence,
    {
        proof {
            reveal(data_of);
        }
        &self.local.confidence
    }

    /// Whether a relation is present and belongs to a role.
    pub fn relation_is_owned_by(&self, relation_id: &ObjectId, owner: &String) -> (r: bool)
        ensures
            r == (present(self@.data.relations, relation_id@) && state_of(self@.data.relations, relation_id@).owner.name == owner@),
    {
        proof {
            reveal(data_of);
        }
        match self.local.relations.get(relation_id) {
            Some(Overlay::Present(relation)) => relation.owner.name == *owner,
            _ => false,
        }
    }

    pub(crate) fn relation_lookup(&self, id: &ObjectId, filter: RelationFilter) -> (r: ObjectLookup)
        ensures
            r == relation_lookup(self@.data, id@, filter),
    {
        proof {
            reveal(data_of);
        }
        match self.local.relations.get(id) {
            Some(Overlay::Present(relation)) => {
                if filter.accepts(relation.kind) {
                    ObjectLookup::Present
                } else {
                    ObjectLookup::WrongKind
                }
            },
            Some(Overlay::Dropped) => ObjectLookup::Tombstone,
            None => {
                if self.sequence_is_present(id) || self.index_is_present(id) {
                    ObjectLookup::WrongKind
                } else if self.baseline_covers_family_object(id, CatalogFamily::Relations) {
                    ObjectLookup::AuthoritativelyAbsent
                } else {
                    ObjectLookup::Unknown
                }
            },
        }
    }

    pub(crate) fn schema_absence_is_authoritative(&self, name: &String) -> (r: bool)
        ensures
            r == schema_absence_is_authoritative(self@.data, name@),
    {
        proof {
            reveal(data_of);
        }
        match self.local.schemas.get(name) {
            Some(Overlay::Dropped) => {
                return true;
            },
            _ => {},
        }
        self.baseline_available && self.baseline_coverage.has(CatalogFamily::Schemas) && (match &self.baseline_schemas {
            Some(schemas) => schemas.contains(name),
            None => true,
        })
    }

    pub(crate) fn schema_lookup(&self, name: &String) -> (r: ObjectLookup)
        ensures
            r == schema_lookup(self@.data, name@),
    {
        proof {
            reveal(data_of);
        }
        match self.local.schemas.get(name) {
            Some(Overlay::Present(_)) => ObjectLookup::Present,
            Some(Overlay::Dropped) => ObjectLookup::Tombstone,
            None => {
                if self.schema_absence_is_authoritative(name) {
                    ObjectLookup::AuthoritativelyAbsent
                } else {
                    ObjectLookup::Unknown
                }
            },
        }
    }

    pub(crate) fn sequence_lookup(&self, id: &ObjectId) -> (r: ObjectLookup)
        ensures
            r == sequence_lookup(self@.data, id@),
    {
        proof {
            reveal(data_of);
        }
        match self.local.sequences.get(id) {
            Some(Overlay::Present(_)) => ObjectLookup::Present,
            Some(Overlay::Dropped) => ObjectLookup::Tombstone,
            None => {
                if self.baseline_covers_object(id) {
                    ObjectLookup::AuthoritativelyAbsent
                } else {
                    ObjectLookup::Unknown
                }
            },
        }
    }

    pub(crate) fn trigger_lookup(&self, id: &ObjectId) -> (r: ObjectLookup)
        ensures
            r == trigger_lookup(self@.data, id@),
    {
        proof {
            reveal(data_of);
        }
        match self.local.triggers.get(id) {
            Some(Overlay::Present(_)) => ObjectLookup::Present,
            Some(Overlay::Dropped) => ObjectLookup::Tombstone,
            None => {
                if self.baseline_covers_object(id) {
                    ObjectLookup::AuthoritativelyAbsent
                } else {
                    ObjectLookup::Unknown
                }
            },
        }
    }

    pub(crate) fn role_lookup(&self, id: &ObjectId) -> (r: ObjectLookup)
        ensures
            r == role_lookup(self@.data, id@),
    {
        proof {
            reveal(data_of);
        }
        match self.local.roles.get(id) {
            Some(Overlay::Present(_)) => ObjectLookup::Present,
            Some(Overlay::Dropped) => ObjectLookup::Tombstone,
            None => {
                if self.local.roles_known {
                    ObjectLookup::AuthoritativelyAbsent
                } else {
                    ObjectLookup::Unknown
                }
            },
        }
    }

    pub(crate) fn index_lookup(&self, id: &ObjectId) -> (r: ObjectLookup)
        ensures
            r == index_lookup(self@.data, id@),
    {
        proof {
            reveal(data_of);
        }
        if self.index_is_present(id) {
            ObjectLookup::Present
        } else if self.baseline_covers_object(id) {
            ObjectLookup::AuthoritativelyAbsent
        } else {
            ObjectLookup::Unknown
        }
    }

    pub(crate) fn relation_or_index_lookup(&self, id: &ObjectId) -> (r: ObjectLookup)
        ensures
            r == relation_or_index_lookup(self@.data, id@),
    {
        proof {
            reveal(data_of);
        }
        if self.relation_is_present(id) || self.index_is_present(id) {
            return ObjectLookup::Present;
        }
        match self.local.relations.get(id) {
            Some(Overlay::Dropped) => ObjectLookup::Tombstone,
            _ => {
                if self.baseline_covers_family_object(id, CatalogFamily::Relations) || self.baseline_covers_family_object(id, CatalogFamily::Indexes) {
                    ObjectLookup::AuthoritativelyAbsent
                } else {
                    ObjectLookup::Unknown
                }
            },
        }
    }

    pub(crate) fn present_role(&self, name: &String) -> (r: Option<&RoleState>)
        ensures
            match r {
                Some(role) => role_present(self@.data, name@) && role@ == state_of(self@.data.roles, role_object(name@)),
                None => !role_present(self@.data, name@),
            },
    {
        proof {
            reveal(data_of);
        }
        match self.local.roles.get(&ObjectId::new("", name)) {
            Some(Overlay::Present(role)) => Some(role),
            _ => None,
        }
    }

    pub(crate) fn role_fact_identity(&self, role: &RoleFact) -> (r: Option<(String, bool)>)
        ensures
            r.deep_view() == role_identity(self@.data, *role),
    {
        proof {
            reveal(data_of);
        }
        match role {
            RoleFact::Named { name, .. } => Some((name.clone(), true)),
            RoleFact::CurrentUser | RoleFact::CurrentRole => Some((self.local.current_role.clone(), self.local.current_role_known)),
            RoleFact::SessionUser => Some((self.local.session_role.clone(), self.local.session_role_known)),
            RoleFact::Unknown => None,
        }
    }

    /// Validates a relation reference before a mutation creates a dependent
    /// object. What a scoped baseline omits stays unknown.
    pub(crate) fn ensure_relation_target(&mut self, id: &ObjectId, filter: RelationFilter, missing: String, wrong_kind: String) -> (r: Result<
        (),
        MutationResult,
    >)
        ensures
            ({
                let (data, outcome) = relation_target_checked(old(self)@.data, id@, filter, missing@, wrong_kind@);
                &&& final(self)@.data == data
                &&& match r {
                    Ok(_) => outcome is None,
                    Err(result) => outcome == Some(result@) && !(result@ is Applied),
                }
            }),
            kept(old(self)@, final(self)@),
            r is Ok ==> final(self)@ == old(self)@,
    {
        proof {
            reveal(data_of);
        }
        proof {
            lemma_kept_refl(self@);
        }
        match self.relation_lookup(id, filter) {
            ObjectLookup::Present => Ok(()),
            ObjectLookup::WrongKind => Err(conflict_with(wrong_kind)),
            ObjectLookup::AuthoritativelyAbsent | ObjectLookup::Tombstone => Err(conflict_with(missing)),
            ObjectLookup::Unknown => {
                self.taint(EvidenceCode::UnknownObjectState, EvidenceScope::Chain);
                Err(MutationResult::Skipped)
            },
        }
    }

    /// Validates the namespace in which a new object will live.
    pub(crate) fn ensure_schema_target(&mut self, schema: &String) -> (r: Result<(), MutationResult>)
        ensures
            ({
                let (data, outcome) = schema_target_checked(old(self)@.data, schema@);
                &&& final(self)@.data == data
                &&& match r {
                    Ok(_) => outcome is None,
                    Err(result) => outcome == Some(result@) && !(result@ is Applied),
                }
            }),
            kept(old(self)@, final(self)@),
            r is Ok ==> final(self)@ == old(self)@,
    {
        proof {
            reveal(data_of);
        }
        proof {
            lemma_kept_refl(self@);
        }
        match self.schema_lookup(schema) {
            ObjectLookup::Present => Ok(()),
            ObjectLookup::Unknown => {
                self.taint(EvidenceCode::UnknownObjectState, EvidenceScope::Chain);
                Err(MutationResult::Skipped)
            },
            _ => Err(conflict_with(join3("schema '", schema, "' does not exist"))),
        }
    }

    /// Validates a reference to a routine of a given kind.
    pub(crate) fn ensure_routine_target(&mut self, id: &ObjectId, expected: RoutineKind, missing: String, wrong_kind: String) -> (r: Result<
        (),
        MutationResult,
    >)
        ensures
            ({
                let (data, outcome) = routine_target_checked(old(self)@.data, id@, expected, missing@, wrong_kind@);
                &&& final(self)@.data == data
                &&& match r {
                    Ok(_) => outcome is None,
                    Err(result) => outcome == Some(result@) && !(result@ is Applied),
                }
            }),
            kept(old(self)@, final(self)@),
    {
        proof {
            reveal(data_of);
        }
        proof {
            lemma_kept_refl(self@);
        }
        match self.local.functions.get(id) {
            Some(Overlay::Present(function)) => {
                if function.routine_kind == expected {
                    Ok(())
                } else {
                    Err(conflict_with(wrong_kind))
                }
            },
            Some(Overlay::Dropped) => Err(conflict_with(missing)),
            None => {
                if self.baseline_covers_family_object(id, CatalogFamily::Routines) {
                    Err(conflict_with(missing))
                } else {
                    self.taint(EvidenceCode::UnknownObjectState, EvidenceScope::Chain);
                    Err(MutationResult::Skipped)
                }
            },
        }
    }

    pub(crate) fn first_schema(&self) -> (r: String)
        ensures
            r@ == first_schema(self@.data),
    {
        proof {
            reveal(data_of);
        }
        if self.local.search_path.len() > 0 {
            self.local.search_path[0].clone()
        } else {
            "public".to_owned()
        }
    }

    /// The schema of a routine that a written name denotes.
    pub fn resolve_function_schema(&self, name: &QualifiedName, sig_str: &str) -> (r: String)
        ensures
            r@ == (match name@.schema {
                Some(schema) => schema.resolved(),
                None => routine_schema(self@.data, sig_str@, 0),
            }),
    {
        proof {
            reveal(data_of);
        }
        if let Some(schema) = &name.schema {
            return schema.resolve();
        }
        let mut i: usize = 0;
        while i < self.local.search_path.len()
            invariant
                i <= self.local.search_path.len(),
                name.schema is None,
                routine_schema(self@.data, sig_str@, 0) == routine_schema(self@.data, sig_str@, i as int),
            decreases self.local.search_path.len() - i,
        {
            let candidate = ObjectId::new(&self.local.search_path[i], sig_str);
            reveal(data_of);
            assert(self@.data.search_path[i as int] == self.local.search_path@[i as int]@);
            if self.routine_is_present(&candidate) {
                return self.local.search_path[i].clone();
            }
            i = i + 1;
        }
        self.first_schema()
    }

    /// The relation that a written name denotes.
    pub fn resolve_relation_id(&self, name: &QualifiedName) -> (r: ObjectId)
        ensures
            r@ == relation_id(self@.data, name@),
            r.inferred_schema == (name.schema is None),
    {
        proof {
            reveal(data_of);
        }
        if let Some(schema) = &name.schema {
            return ObjectId::new(&schema.resolve(), &name.name.resolve());
        }
        let resolved_name = name.name.resolve();
        let mut i: usize = 0;
        while i < self.local.search_path.len()
            invariant
                i <= self.local.search_path.len(),
                name.schema is None,
                resolved_name@ == name@.name.resolved(),
                visible_schema(self@.data, resolved_name@, 0) == visible_schema(self@.data, resolved_name@, i as int),
            decreases self.local.search_path.len() - i,
        {
            let mut candidate = ObjectId::new(&self.local.search_path[i], &resolved_name);
            reveal(data_of);
            assert(self@.data.search_path[i as int] == self.local.search_path@[i as int]@);
            if self.relation_namespace_object_is_present(&candidate) {
                candidate.inferred_schema = true;
                return candidate;
            }
            i = i + 1;
        }
        let mut id = ObjectId::new(&self.first_schema(), &resolved_name);
        id.inferred_schema = true;
        id
    }
}

/// A scoped baseline never answers for an object outside of its schemas, and
/// an unavailable baseline answers for nothing.
pub proof fn law_absence_needs_coverage(d: StateData, id: ObjectIdView, filter: RelationFilter)
    requires
        relation_lookup(d, id, filter) == ObjectLookup::AuthoritativelyAbsent,
    ensures
        d.baseline_available,
        d.baseline_coverage.families.contains(CatalogFamily::Relations),
        d.baseline_schemas is Some ==> d.baseline_schemas->0.contains(id.schema),
        !d.relations.dom().contains(id),
{
}

} // verus!
