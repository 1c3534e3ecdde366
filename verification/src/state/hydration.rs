//! The state that an analysis starts from, built from a synchronized catalog.
use crate::cache::{
    CatalogFamily, ConstraintDependencyCache, ConstraintDependencyCacheView, ConstraintKeyCache, ConstraintKeyCacheView, DbCache, DbCacheView,
    DefaultSequenceDependencyCache, DefaultSequenceDependencyCacheView, DependencyCache, DependencyCacheView, ForeignKeyCache, ForeignKeyCacheView,
    GeneratedColumnDependencyCache, GeneratedColumnDependencyCacheView, IndexCache, IndexCacheView, InheritanceCache, InheritanceCacheView, TriggerCache,
    TriggerCacheView,
};
use crate::collections::{concat, set_of, vec_any, vec_filter, vec_map, Dup, Key, VecMap, VecSet};
use crate::evidence::{EvidenceCode, EvidenceLog, EvidenceRecord, EvidenceScope};
use crate::facts::{PublicationObjectFact, PublicationObjectFactView, PublicationScope, PublicationScopeView};
use crate::graph::{
    edge, DependencyEdge, DependencyEdgeView, DependencyGraph, DependencyKind, DependencyKindView, ForeignKeyOperatorEvidence, ForeignKeyOperatorEvidenceView,
};
use crate::identifiers::{object, ObjectId, ObjectIdView, QualifiedName, QualifiedNameView};
use crate::model::column::{Column, ColumnView};
use crate::model::constraint::{ConstraintState, ConstraintStateView};
use crate::model::function::{FunctionOverlay, FunctionState, FunctionStateView};
use crate::model::relation::{RelationKind, RelationOverlay, RelationState, RelationStateView};
use crate::model::replication::{PublicationState, PublicationStateView};
use crate::model::role::RoleStateView;
use crate::model::schema::{SchemaOverlay, SchemaState, SchemaStateView};
use crate::model::trigger::{TriggerOverlay, TriggerState, TriggerStateView};
use crate::model::types::{TypeKind, TypeKindView, TypeOverlay, TypeState, TypeStateView};
use crate::model::Overlay;
use crate::settings::ScopedSetting;
use crate::state::apply_policy_trigger::trigger_key;
use crate::state::journal::{group_kept, kept, tainted_if};
use crate::state::search_path::{lemma_kept_frames, refreshed};
use crate::state::type_refs::{resolve_type_reference_from_catalog, type_in_catalog};
use crate::state::{data_of, AnalysisState, Confidence, LocalState, StateData};
use vstd::prelude::*;

verus! {

broadcast use group_kept;

/// The order in which sequences and publications are read from the catalog.
pub struct ReadingOrder {
    pub sequences: Seq<ObjectIdView>,
    pub publications: Seq<Seq<char>>,
}

/// Whether an order names every sequence and every publication, each once.
pub open spec fn reads(c: DbCacheView, order: ReadingOrder) -> bool {
    &&& order.sequences.no_duplicates()
    &&& forall|id: ObjectIdView| #[trigger] order.sequences.contains(id) <==> c.sequences.dom().contains(id)
    &&& order.publications.no_duplicates()
    &&& forall|name: Seq<char>| #[trigger] order.publications.contains(name) <==> c.publications.dom().contains(name)
}

// ---------------------------------------------------------------------------
// Schemas
// ---------------------------------------------------------------------------

/// The schemas of the objects in a list.
pub open spec fn schemas_in(ids: Seq<ObjectIdView>) -> Set<Seq<char>> {
    Set::new(|name: Seq<char>| exists|i: int| 0 <= i < ids.len() && (#[trigger] ids[i]).schema == name)
}

/// The schemas of the objects in a set.
pub open spec fn schemas_of(ids: Set<ObjectIdView>) -> Set<Seq<char>> {
    Set::new(|name: Seq<char>| exists|id: ObjectIdView| #[trigger] ids.contains(id) && id.schema == name)
}

/// The objects that relationship rows name.
pub open spec fn named_ids(c: DbCacheView) -> Seq<ObjectIdView> {
    c.foreign_keys.map_values(|x: ForeignKeyCacheView| x.from_table) + c.foreign_keys.map_values(|x: ForeignKeyCacheView| x.to_table)
        + c.indexes.map_values(|x: IndexCacheView| x.index_id) + c.indexes.map_values(|x: IndexCacheView| x.table_id)
        + c.dependencies.map_values(|x: DependencyCacheView| x.dependent) + c.dependencies.map_values(|x: DependencyCacheView| x.referenced)
        + c.inheritances.map_values(|x: InheritanceCacheView| x.child) + c.inheritances.map_values(|x: InheritanceCacheView| x.parent)
        + c.triggers.map_values(|x: TriggerCacheView| x.table_id) + c.constraints.map_values(|x: ConstraintStateView| x.table_id)
        + c.constraint_keys.map_values(|x: ConstraintKeyCacheView| x.table_id) + c.constraint_dependencies.map_values(
        |x: ConstraintDependencyCacheView| x.table_id,
    ) + c.generated_column_dependencies.map_values(|x: GeneratedColumnDependencyCacheView| x.table_id) + c.default_sequence_dependencies.map_values(
        |x: DefaultSequenceDependencyCacheView| x.table_id,
    ) + c.default_sequence_dependencies.map_values(|x: DefaultSequenceDependencyCacheView| x.sequence_id)
}

/// The schema that a published object names.
pub open spec fn published_schema(o: PublicationObjectFactView) -> Option<Seq<char>> {
    match o {
        PublicationObjectFactView::Table { name, .. } => match name.schema {
            Some(schema) => Some(schema.resolved()),
            None => None,
        },
        PublicationObjectFactView::SchemaTables { schema, .. } => Some(schema),
        _ => None,
    }
}

pub open spec fn publication_objects(p: PublicationStateView) -> Seq<PublicationObjectFactView> {
    match p.scope {
        PublicationScopeView::Explicit(objects) => objects,
        _ => Seq::empty(),
    }
}

pub open spec fn names_published_schema(p: PublicationStateView, name: Seq<char>) -> bool {
    exists|i: int| 0 <= i < publication_objects(p).len() && published_schema(#[trigger] publication_objects(p)[i]) == Some(name)
}

/// The schemas that publications name.
pub open spec fn published_schemas(c: DbCacheView) -> Set<Seq<char>> {
    Set::new(|name: Seq<char>| exists|p: Seq<char>| #[trigger] c.publications.dom().contains(p) && names_published_schema(c.publications[p], name))
}

/// The schemas that a catalog gives evidence of besides its schema rows.
pub open spec fn named_schemas(c: DbCacheView) -> Set<Seq<char>> {
    schemas_of(c.relations.dom()).union(schemas_of(c.types.dom())).union(schemas_of(c.functions.dom())).union(schemas_of(c.sequences.dom())).union(
        schemas_in(named_ids(c)),
    ).union(published_schemas(c)).union(
        if c.schemas == Map::<Seq<char>, SchemaStateView>::empty() && c.metadata.schemas is None {
            c.search_path.to_set()
        } else {
            Set::empty()
        },
    )
}

pub open spec fn source_role(c: DbCacheView) -> Seq<char> {
    match c.metadata.source_role {
        Some(role) => role,
        None => "postgres"@,
    }
}

/// A schema without a row of its own belongs to the role of the session that
/// read the catalog.
pub open spec fn inferred_schema(c: DbCacheView, name: Seq<char>) -> SchemaStateView {
    SchemaStateView { name, owner: object(""@, source_role(c)), generation: 0 }
}

pub open spec fn hydrated_schemas(c: DbCacheView) -> Map<Seq<char>, Overlay<SchemaStateView>> {
    Map::new(
        |name: Seq<char>| c.schemas.dom().contains(name) || named_schemas(c).contains(name),
        |name: Seq<char>|
            if c.schemas.dom().contains(name) {
                Overlay::Present(c.schemas[name])
            } else {
                Overlay::Present(inferred_schema(c, name))
            },
    )
}

// ---------------------------------------------------------------------------
// Types, relations and routines
// ---------------------------------------------------------------------------

pub open spec fn type_catalog(c: DbCacheView) -> Map<ObjectIdView, Overlay<TypeStateView>> {
    Map::new(|id: ObjectIdView| c.types.dom().contains(id), |id: ObjectIdView| Overlay::Present(c.types[id]))
}

pub open spec fn hydrated_type(c: DbCacheView, t: TypeStateView) -> TypeStateView {
    match t.kind {
        TypeKindView::Domain { base_type, .. } => TypeStateView {
            kind: TypeKindView::Domain { base_type, base_type_id: type_in_catalog(type_catalog(c), c.search_path, base_type) },
            ..t
        },
        _ => t,
    }
}

pub open spec fn hydrated_types(c: DbCacheView) -> Map<ObjectIdView, Overlay<TypeStateView>> {
    Map::new(|id: ObjectIdView| c.types.dom().contains(id), |id: ObjectIdView| Overlay::Present(hydrated_type(c, c.types[id])))
}

pub open spec fn hydrated_column(c: DbCacheView, column: ColumnView) -> ColumnView {
    ColumnView {
        type_id: match column.data_type {
            Some(raw) => type_in_catalog(type_catalog(c), c.search_path, raw),
            None => None,
        },
        ..column
    }
}

pub open spec fn hydrated_relation(c: DbCacheView, r: RelationStateView) -> RelationStateView {
    RelationStateView { columns: r.columns.map_values(|column: ColumnView| hydrated_column(c, column)), ..r }
}

pub open spec fn hydrated_relations(c: DbCacheView) -> Map<ObjectIdView, Overlay<RelationStateView>> {
    Map::new(|id: ObjectIdView| c.relations.dom().contains(id), |id: ObjectIdView| Overlay::Present(hydrated_relation(c, c.relations[id])))
}

pub open spec fn hydrated_function(c: DbCacheView, f: FunctionStateView) -> FunctionStateView {
    FunctionStateView {
        arg_type_ids: f.arg_types.map_values(|raw: Seq<char>| type_in_catalog(hydrated_types(c), c.search_path, raw)),
        return_type_id: type_in_catalog(hydrated_types(c), c.search_path, f.return_type),
        ..f
    }
}

pub open spec fn hydrated_functions(c: DbCacheView) -> Map<ObjectIdView, Overlay<FunctionStateView>> {
    Map::new(|id: ObjectIdView| c.functions.dom().contains(id), |id: ObjectIdView| Overlay::Present(hydrated_function(c, c.functions[id])))
}

/// Every row of a family, present.
pub open spec fn all_present<K, V>(m: Map<K, V>) -> Map<K, Overlay<V>> {
    Map::new(|k: K| m.dom().contains(k), |k: K| Overlay::Present(m[k]))
}

pub open spec fn hydrated_constraints(rows: Seq<ConstraintStateView>, n: nat) -> Map<(ObjectIdView, Seq<char>), ConstraintStateView>
    decreases n,
{
    if n == 0 {
        Map::empty()
    } else {
        let row = rows[n - 1];
        hydrated_constraints(rows, (n - 1) as nat).insert((row.table_id, row.name), row)
    }
}

pub open spec fn hydrated_trigger(row: TriggerCacheView) -> TriggerStateView {
    TriggerStateView {
        name: row.trigger_id.name,
        id: trigger_key(row.table_id, row.trigger_id.name),
        table_id: row.table_id,
        enabled_mode: row.enabled_mode,
        generation: 0,
    }
}

pub open spec fn hydrated_triggers(rows: Seq<TriggerCacheView>, n: nat) -> Map<ObjectIdView, Overlay<TriggerStateView>>
    decreases n,
{
    if n == 0 {
        Map::empty()
    } else {
        let row = rows[n - 1];
        hydrated_triggers(rows, (n - 1) as nat).insert(trigger_key(row.table_id, row.trigger_id.name), Overlay::Present(hydrated_trigger(row)))
    }
}

// ---------------------------------------------------------------------------
// Edges
// ---------------------------------------------------------------------------

/// The edges from the first `n` sequences to the columns that own them.
pub open spec fn ownership_edges(c: DbCacheView, ids: Seq<ObjectIdView>, n: nat) -> Seq<DependencyEdgeView>
    decreases n,
{
    if n == 0 {
        Seq::empty()
    } else {
        let before = ownership_edges(c, ids, (n - 1) as nat);
        let id = ids[n - 1];
        match c.sequences[id].owned_by {
            Some((table, column)) => if c.sequences.dom().contains(id) {
                before.push(edge(c.sequences[id].id, table, DependencyKindView::SequenceOwnedBy { column }))
            } else {
                before
            },
            None => before,
        }
    }
}

pub open spec fn foreign_key_edge(x: ForeignKeyCacheView) -> DependencyEdgeView {
    edge(
        x.from_table,
        x.to_table,
        DependencyKindView::ForeignKey {
            constraint_name: Some(x.constraint_name),
            from_columns: x.from_columns,
            to_columns: x.to_columns,
            operator_evidence: if x.has_complete_operator_evidence() {
                Some(
                    ForeignKeyOperatorEvidenceView {
                        pk_fk: x.pk_fk_equality_operators,
                        pk_pk: x.pk_pk_equality_operators,
                        fk_fk: x.fk_fk_equality_operators,
                    },
                )
            } else {
                None
            },
            from_generation: 0,
        },
    )
}

pub open spec fn index_edge(x: IndexCacheView) -> DependencyEdgeView {
    edge(
        x.index_id,
        x.table_id,
        DependencyKindView::IndexOnRelation {
            using_method: Some(x.using_method),
            key_columns: x.key_columns,
            included_columns: x.included_columns,
            dependency_columns: x.dependency_columns,
            dependency_columns_known: x.dependency_columns_known,
            has_expression_keys: x.has_expression_keys,
            has_predicate: x.has_predicate,
            is_concurrent: false,
            is_unique: x.is_unique,
            is_valid: x.is_valid,
            is_ready: x.is_ready,
            is_live: x.is_live,
            has_default_sort_order: x.has_default_sort_order,
            has_default_opclasses: x.has_default_opclasses,
            has_default_collations: x.has_default_collations,
            eligibility_known: true,
        },
    )
}

/// A dependency row counts where a view depends on another object, or where
/// the dependent lies outside the synchronized schemas. Older catalogs hold
/// rows of a view on itself, which say nothing.
pub open spec fn dependency_counts(c: DbCacheView, x: DependencyCacheView) -> bool {
    x.dependent != x.referenced && ((c.relations.dom().contains(x.dependent) && (c.relations[x.dependent].kind is View
        || c.relations[x.dependent].kind is MaterializedView)) || (c.metadata.schemas is Some && !c.metadata.schemas->0.to_set().contains(
        x.dependent.schema,
    )))
}

pub open spec fn dependency_edge(x: DependencyCacheView) -> DependencyEdgeView {
    edge(x.dependent, x.referenced, DependencyKindView::ViewDependency { view_generation: 0, referenced_column: x.referenced_column })
}

pub open spec fn inheritance_edge(x: InheritanceCacheView) -> DependencyEdgeView {
    edge(
        x.child,
        x.parent,
        if x.is_partition {
            DependencyKindView::PartitionOf
        } else {
            DependencyKindView::InheritanceOf
        },
    )
}

pub open spec fn constraint_key_edge(x: ConstraintKeyCacheView) -> DependencyEdgeView {
    edge(
        x.table_id,
        x.table_id,
        DependencyKindView::ConstraintOnRelation { constraint_name: x.constraint_name, columns: x.columns, is_primary: x.is_primary },
    )
}

pub open spec fn constraint_dependency_edge(x: ConstraintDependencyCacheView) -> DependencyEdgeView {
    edge(x.table_id, x.table_id, DependencyKindView::ConstraintDependency { constraint_name: x.constraint_name, columns: x.columns })
}

pub open spec fn generated_column_edge(x: GeneratedColumnDependencyCacheView) -> DependencyEdgeView {
    edge(x.table_id, x.table_id, DependencyKindView::ColumnGeneratedFrom { column: x.column_name, depends_on_column: x.depends_on_column })
}

pub open spec fn default_sequence_edge(x: DefaultSequenceDependencyCacheView) -> DependencyEdgeView {
    edge(x.table_id, x.sequence_id, DependencyKindView::ColumnDefaultOnSequence { column: x.column_name })
}

pub open spec fn trigger_edge(x: TriggerCacheView) -> DependencyEdgeView {
    let key = trigger_key(x.table_id, x.trigger_id.name);
    edge(key, x.table_id, DependencyKindView::TriggerOnTable { trigger_id: key, function_id: x.function_id, trigger_generation: 0 })
}

/// The table that a publication names, in schema `public` where it names none.
pub open spec fn published_table(name: QualifiedNameView) -> ObjectIdView {
    object(
        match name.schema {
            Some(schema) => schema.resolved(),
            None => "public"@,
        },
        name.name.resolved(),
    )
}

pub open spec fn published_edge(publication: Seq<char>, o: PublicationObjectFactView) -> DependencyEdgeView {
    edge(published_table(o->name), object("public"@, publication), DependencyKindView::PublicationIncludes { publication_name: publication })
}

/// The edges of the first `n` objects of a publication.
pub open spec fn object_edges(publication: Seq<char>, objects: Seq<PublicationObjectFactView>, n: nat) -> Seq<DependencyEdgeView>
    decreases n,
{
    if n == 0 {
        Seq::empty()
    } else {
        let before = object_edges(publication, objects, (n - 1) as nat);
        if objects[n - 1] is Table {
            before.push(published_edge(publication, objects[n - 1]))
        } else {
            before
        }
    }
}

/// The edges of the first `n` publications.
pub open spec fn publication_edges(c: DbCacheView, names: Seq<Seq<char>>, n: nat) -> Seq<DependencyEdgeView>
    decreases n,
{
    if n == 0 {
        Seq::empty()
    } else {
        let objects = publication_objects(c.publications[names[n - 1]]);
        let before = publication_edges(c, names, (n - 1) as nat);
        if c.publications.dom().contains(names[n - 1]) {
            before + object_edges(names[n - 1], objects, objects.len())
        } else {
            before
        }
    }
}

pub open spec fn hydrated_graph(c: DbCacheView, order: ReadingOrder) -> Seq<DependencyEdgeView> {
    ownership_edges(c, order.sequences, order.sequences.len()) + c.foreign_keys.map_values(|x: ForeignKeyCacheView| foreign_key_edge(x))
        + c.indexes.map_values(|x: IndexCacheView| index_edge(x)) + c.dependencies.filter(|x: DependencyCacheView| dependency_counts(c, x)).map_values(
        |x: DependencyCacheView| dependency_edge(x),
    ) + c.inheritances.map_values(|x: InheritanceCacheView| inheritance_edge(x)) + c.constraint_keys.map_values(
        |x: ConstraintKeyCacheView| constraint_key_edge(x),
    ) + c.constraint_dependencies.map_values(|x: ConstraintDependencyCacheView| constraint_dependency_edge(x))
        + c.generated_column_dependencies.map_values(|x: GeneratedColumnDependencyCacheView| generated_column_edge(x))
        + c.default_sequence_dependencies.map_values(|x: DefaultSequenceDependencyCacheView| default_sequence_edge(x)) + c.triggers.map_values(
        |x: TriggerCacheView| trigger_edge(x),
    ) + publication_edges(c, order.publications, order.publications.len())
}

// ---------------------------------------------------------------------------
// The state
// ---------------------------------------------------------------------------

/// Whether some foreign key lacks its equality operators.
pub open spec fn operators_incomplete(c: DbCacheView) -> bool {
    exists|i: int| 0 <= i < c.foreign_keys.len() && !(#[trigger] c.foreign_keys[i]).has_complete_operator_evidence()
}

pub open spec fn source_session_role(c: DbCacheView) -> Seq<char> {
    match c.metadata.source_session_role {
        Some(role) => role,
        None => source_role(c),
    }
}

/// The search path as the session that read the catalog had set it. A catalog
/// of selected schemas keeps only the schemas themselves.
pub open spec fn source_template(c: DbCacheView) -> Seq<Seq<char>> {
    if c.metadata.schemas is None && c.metadata.source_search_path is Some {
        c.metadata.source_search_path->0
    } else {
        c.search_path
    }
}

/// Whether the role catalog is complete. A catalog without roles and without a
/// session was not read from a server.
pub open spec fn role_catalog_is_known(c: DbCacheView, available: bool) -> bool {
    available && c.coverage.families.contains(CatalogFamily::Roles) && (c.roles != Map::<ObjectIdView, RoleStateView>::empty()
        || c.metadata.source_session_role is Some)
}

pub open spec fn timeout_setting(available: bool, ms: u64) -> ScopedSetting<Option<u64>> {
    let value = if available {
        Some(ms)
    } else {
        None
    };
    ScopedSetting { default: value, session: value, effective: value }
}

/// The data as read, before the search path is computed.
#[verifier::opaque]
pub open spec fn hydrated_data(c: DbCacheView, available: bool, order: ReadingOrder) -> StateData {
    StateData {
        pg_version_num: c.pg_version_num,
        baseline_available: available,
        baseline_boundary_queries_complete: available && c.metadata.boundary_queries_complete,
        baseline_coverage: c.coverage,
        baseline_schemas: match c.metadata.schemas {
            Some(names) => Some(names.to_set()),
            None => None,
        },
        baseline_relations: c.relations.dom(),
        baseline_indexes: c.indexes.map_values(|x: IndexCacheView| x.index_id).to_set(),
        baseline_foreign_keys: c.foreign_keys.map_values(|x: ForeignKeyCacheView| (x.from_table, x.constraint_name)).to_set(),
        baseline_fk_dependencies: Set::new(|id: ObjectIdView| c.relations.dom().contains(id) && c.relations[id].is_fk_dependency),
        baseline_sequences: c.sequences.dom(),
        scoped_external_relation_dependencies: c.scoped_external_relation_dependencies.to_set(),
        scoped_external_type_dependencies: c.scoped_external_type_dependencies.to_set(),
        scoped_external_routine_dependencies: c.scoped_external_routine_dependencies.to_set(),
        schemas: hydrated_schemas(c),
        relations: hydrated_relations(c),
        types: hydrated_types(c),
        functions: hydrated_functions(c),
        sequences: all_present(c.sequences),
        publications: all_present(c.publications),
        subscriptions: all_present(c.subscriptions),
        roles: all_present(c.roles),
        role_membership_grantors: c.role_membership_grantors,
        role_membership_grantors_complete: c.role_membership_grantors_complete,
        triggers: hydrated_triggers(c.triggers, c.triggers.len()),
        constraints: hydrated_constraints(c.constraints, c.constraints.len()),
        graph: hydrated_graph(c, order),
        search_path: c.search_path,
        default_search_path: c.search_path,
        search_path_template: source_template(c),
        session_search_path_template: source_template(c),
        default_search_path_template: source_template(c),
        lock_timeout: timeout_setting(available, c.metadata.source_lock_timeout_ms),
        statement_timeout: timeout_setting(available, c.metadata.source_statement_timeout_ms),
        current_role: source_role(c),
        current_role_known: c.metadata.source_role is Some,
        persistent_current_role: source_role(c),
        persistent_current_role_known: c.metadata.source_role is Some,
        session_role: source_session_role(c),
        session_role_known: c.metadata.source_session_role is Some,
        persistent_session_role: source_session_role(c),
        persistent_session_role_known: c.metadata.source_session_role is Some,
        authenticated_role: source_session_role(c),
        authenticated_role_known: c.metadata.source_session_role is Some,
        roles_known: role_catalog_is_known(c, available),
        confidence: Confidence::Exact,
        evidence: Seq::empty(),
        current_evidence_location: None,
        pending_validation: Set::empty(),
        generation_counter: 0,
    }
}

/// The data with the path in force as the default path.
#[verifier::opaque]
pub open spec fn with_default_path(d: StateData) -> StateData {
    StateData { default_search_path: d.search_path, ..d }
}

/// The data that an analysis starts from.
#[verifier::opaque]
pub open spec fn opened(c: DbCacheView, available: bool, order: ReadingOrder) -> StateData {
    tainted_if(
        with_default_path(refreshed(hydrated_data(c, available, order))),
        available && operators_incomplete(c),
        EvidenceCode::CatalogCoverageIncomplete,
        EvidenceScope::Chain,
    )
}

/// Whether `d` is what an analysis starts from. In which order sequences and
/// publications come into the dependency graph is left open.
pub open spec fn starts_from(c: DbCacheView, available: bool, d: StateData) -> bool {
    exists|order: ReadingOrder| #[trigger] reads(c, order) && d == opened(c, available, order)
}

/// Every row of the catalog is present in the state that starts from it, and
/// the baseline of a name family is exactly the rows of that family.
pub proof fn law_start_holds_every_row(c: DbCacheView, available: bool, d: StateData)
    requires
        starts_from(c, available, d),
    ensures
        d.relations.dom() == c.relations.dom(),
        d.baseline_relations == c.relations.dom(),
        d.sequences == all_present(c.sequences),
        d.baseline_sequences == c.sequences.dom(),
        d.roles == all_present(c.roles),
        forall|name: Seq<char>| #[trigger] c.schemas.dom().contains(name) ==> d.schemas.dom().contains(name) && d.schemas[name] == Overlay::Present(
            c.schemas[name],
        ),
        d.baseline_available == available,
        d.generation_counter == 0,
{
    let order = choose|order: ReadingOrder| #[trigger] reads(c, order) && d == opened(c, available, order);
    reveal(opened);
    reveal(tainted_if);
    reveal(with_default_path);
    reveal(refreshed);
    reveal(hydrated_data);
    assert(d.relations.dom() =~= c.relations.dom());
}

/// No object that the catalog names lies in a schema that the state does not
/// know.
pub proof fn law_named_schemas_are_present(c: DbCacheView, available: bool, d: StateData, name: Seq<char>)
    requires
        starts_from(c, available, d),
        c.schemas.dom().contains(name) || named_schemas(c).contains(name),
    ensures
        crate::state::lookup::present(d.schemas, name),
{
    let order = choose|order: ReadingOrder| #[trigger] reads(c, order) && d == opened(c, available, order);
    reveal(opened);
    reveal(tainted_if);
    reveal(with_default_path);
    reveal(refreshed);
    reveal(hydrated_data);
}

// ---------------------------------------------------------------------------
// Execution: schemas
// ---------------------------------------------------------------------------

fn add_schemas(names: &mut VecSet<String>, ids: &Vec<ObjectId>)
    ensures
        final(names)@ == old(names)@.union(schemas_in(ids.deep_view())),
{
    let mut i: usize = 0;
    let ghost before = names@;
    let ghost s = ids.deep_view();
    assert(names@ =~= before.union(schemas_in(s.take(0))));
    while i < ids.len()
        invariant
            i <= ids.len(),
            s == ids.deep_view(),
            before == old(names)@,
            names@ == before.union(schemas_in(s.take(i as int))),
        decreases ids.len() - i,
    {
        assert(s[i as int] == ids@[i as int]@);
        let ghost here = names@;
        names.insert(ids[i].schema.clone());
        proof {
            assert forall|n: Seq<char>| #[trigger] schemas_in(s.take(i + 1)).contains(n) <==> schemas_in(s.take(i as int)).contains(n) || n == s[i as int].schema by {
                if schemas_in(s.take(i as int)).contains(n) {
                    let j = choose|j: int| 0 <= j < i && (#[trigger] s.take(i as int)[j]).schema == n;
                    assert(s.take(i + 1)[j].schema == n);
                }
                if n == s[i as int].schema {
                    assert(s.take(i + 1)[i as int].schema == n);
                }
                if schemas_in(s.take(i + 1)).contains(n) {
                    let j = choose|j: int| 0 <= j < i + 1 && (#[trigger] s.take(i + 1)[j]).schema == n;
                    if j < i {
                        assert(s.take(i as int)[j].schema == n);
                    }
                }
            }
            assert(names@ =~= before.union(schemas_in(s.take(i + 1))));
        }
        i = i + 1;
    }
    assert(s.take(s.len() as int) =~= s);
}

/// The keys of a map, each once.
fn keys_of<K: Key, V: Dup>(m: &VecMap<K, V>) -> (r: Vec<K>)
    ensures
        r.deep_view().no_duplicates(),
        forall|k: K::V| #[trigger] r.deep_view().contains(k) <==> m@.dom().contains(k),
{
    let every = |k: &K, v: &V| -> (b: bool)
        ensures
            b,
        { true };
    m.keys_where(every, Ghost(|k: K::V, v: V::V| true))
}

fn add_key_schemas<V: Dup>(names: &mut VecSet<String>, m: &VecMap<ObjectId, V>)
    ensures
        final(names)@ == old(names)@.union(schemas_of(m@.dom())),
{
    let ids = keys_of(m);
    let ghost before = names@;
    add_schemas(names, &ids);
    proof {
        let s = ids.deep_view();
        assert forall|n: Seq<char>| #[trigger] schemas_in(s).contains(n) <==> schemas_of(m@.dom()).contains(n) by {
            if schemas_in(s).contains(n) {
                let j = choose|j: int| 0 <= j < s.len() && (#[trigger] s[j]).schema == n;
                assert(s.contains(s[j]));
                assert(m@.dom().contains(s[j]));
            }
            if schemas_of(m@.dom()).contains(n) {
                let id = choose|id: ObjectIdView| #[trigger] m@.dom().contains(id) && id.schema == n;
                assert(s.contains(id));
                let j = choose|j: int| 0 <= j < s.len() && s[j] == id;
                assert(s[j].schema == n);
            }
        }
        assert(schemas_in(s) =~= schemas_of(m@.dom()));
    }
}

fn list_named_ids(cache: &DbCache) -> (r: Vec<ObjectId>)
    ensures
        r.deep_view() == named_ids(cache@),
{
    let f = |x: &ForeignKeyCache| -> (y: ObjectId)
        ensures
            y@ == x@.from_table,
        { x.from_table.dup() };
    let a = vec_map(&cache.foreign_keys, f, Ghost(|x: ForeignKeyCacheView| x.from_table));
    let f = |x: &ForeignKeyCache| -> (y: ObjectId)
        ensures
            y@ == x@.to_table,
        { x.to_table.dup() };
    let b = vec_map(&cache.foreign_keys, f, Ghost(|x: ForeignKeyCacheView| x.to_table));
    let all = concat(a, b);
    let f = |x: &IndexCache| -> (y: ObjectId)
        ensures
            y@ == x@.index_id,
        { x.index_id.dup() };
    let a = vec_map(&cache.indexes, f, Ghost(|x: IndexCacheView| x.index_id));
    let all = concat(all, a);
    let f = |x: &IndexCache| -> (y: ObjectId)
        ensures
            y@ == x@.table_id,
        { x.table_id.dup() };
    let a = vec_map(&cache.indexes, f, Ghost(|x: IndexCacheView| x.table_id));
    let all = concat(all, a);
    let f = |x: &DependencyCache| -> (y: ObjectId)
        ensures
            y@ == x@.dependent,
        { x.dependent.dup() };
    let a = vec_map(&cache.dependencies, f, Ghost(|x: DependencyCacheView| x.dependent));
    let all = concat(all, a);
    let f = |x: &DependencyCache| -> (y: ObjectId)
        ensures
            y@ == x@.referenced,
        { x.referenced.dup() };
    let a = vec_map(&cache.dependencies, f, Ghost(|x: DependencyCacheView| x.referenced));
    let all = concat(all, a);
    let f = |x: &InheritanceCache| -> (y: ObjectId)
        ensures
            y@ == x@.child,
        { x.child.dup() };
    let a = vec_map(&cache.inheritances, f, Ghost(|x: InheritanceCacheView| x.child));
    let all = concat(all, a);
    let f = |x: &InheritanceCache| -> (y: ObjectId)
        ensures
            y@ == x@.parent,
        { x.parent.dup() };
    let a = vec_map(&cache.inheritances, f, Ghost(|x: InheritanceCacheView| x.parent));
    let all = concat(all, a);
    let f = |x: &TriggerCache| -> (y: ObjectId)
        ensures
            y@ == x@.table_id,
        { x.table_id.dup() };
    let a = vec_map(&cache.triggers, f, Ghost(|x: TriggerCacheView| x.table_id));
    let all = concat(all, a);
    let f = |x: &ConstraintState| -> (y: ObjectId)
        ensures
            y@ == x@.table_id,
        { x.table_id.dup() };
    let a = vec_map(&cache.constraints, f, Ghost(|x: ConstraintStateView| x.table_id));
    let all = concat(all, a);
    let f = |x: &ConstraintKeyCache| -> (y: ObjectId)
        ensures
            y@ == x@.table_id,
        { x.table_id.dup() };
    let a = vec_map(&cache.constraint_keys, f, Ghost(|x: ConstraintKeyCacheView| x.table_id));
    let all = concat(all, a);
    let f = |x: &ConstraintDependencyCache| -> (y: ObjectId)
        ensures
            y@ == x@.table_id,
        { x.table_id.dup() };
    let a = vec_map(&cache.constraint_dependencies, f, Ghost(|x: ConstraintDependencyCacheView| x.table_id));
    let all = concat(all, a);
    let f = |x: &GeneratedColumnDependencyCache| -> (y: ObjectId)
        ensures
            y@ == x@.table_id,
        { x.table_id.dup() };
    let a = vec_map(&cache.generated_column_dependencies, f, Ghost(|x: GeneratedColumnDependencyCacheView| x.table_id));
    let all = concat(all, a);
    let f = |x: &DefaultSequenceDependencyCache| -> (y: ObjectId)
        ensures
            y@ == x@.table_id,
        { x.table_id.dup() };
    let a = vec_map(&cache.default_sequence_dependencies, f, Ghost(|x: DefaultSequenceDependencyCacheView| x.table_id));
    let all = concat(all, a);
    let f = |x: &DefaultSequenceDependencyCache| -> (y: ObjectId)
        ensures
            y@ == x@.sequence_id,
        { x.sequence_id.dup() };
    let a = vec_map(&cache.default_sequence_dependencies, f, Ghost(|x: DefaultSequenceDependencyCacheView| x.sequence_id));
    concat(all, a)
}

fn find_published_schema(o: &PublicationObjectFact) -> (r: Option<String>)
    ensures
        r.deep_view() == published_schema(o@),
{
    match o {
        PublicationObjectFact::Table { name, .. } => match &name.schema {
            Some(schema) => Some(schema.resolve()),
            None => None,
        },
        PublicationObjectFact::SchemaTables { schema, .. } => Some(schema.clone()),
        _ => None,
    }
}

/// The schemas that one publication names.
fn add_object_schemas(names: &mut VecSet<String>, p: &PublicationState)
    ensures
        forall|n: Seq<char>| #[trigger] final(names)@.contains(n) <==> old(names)@.contains(n) || names_published_schema(p@, n),
{
    if let PublicationScope::Explicit(objects) = &p.scope {
        let ghost before = names@;
        let ghost list = publication_objects(p@);
        assert(list == objects.deep_view());
        let mut i: usize = 0;
        while i < objects.len()
            invariant
                i <= objects.len(),
                list == objects.deep_view(),
                before == old(names)@,
                forall|n: Seq<char>| #[trigger]
                    names@.contains(n) <==> before.contains(n) || exists|j: int| 0 <= j < i && published_schema(#[trigger] list[j]) == Some(n),
            decreases objects.len() - i,
        {
            assert(list[i as int] == objects@[i as int]@);
            let ghost here = names@;
            let schema = find_published_schema(&objects[i]);
            if let Some(schema) = schema {
                names.insert(schema);
            }
            proof {
                assert forall|n: Seq<char>| #[trigger] names@.contains(n) <==> before.contains(n) || exists|j: int|
                    0 <= j < i + 1 && published_schema(#[trigger] list[j]) == Some(n) by {
                    if here.contains(n) && !before.contains(n) {
                        let j = choose|j: int| 0 <= j < i && published_schema(#[trigger] list[j]) == Some(n);
                        assert(published_schema(list[j]) == Some(n));
                    }
                    if published_schema(list[i as int]) == Some(n) {
                        assert(published_schema(list[i as int]) == Some(n));
                    }
                    if exists|j: int| 0 <= j < i + 1 && published_schema(#[trigger] list[j]) == Some(n) {
                        let j = choose|j: int| 0 <= j < i + 1 && published_schema(#[trigger] list[j]) == Some(n);
                        if j < i {
                            assert(here.contains(n));
                        }
                    }
                }
            }
            i = i + 1;
        }
    }
}

fn add_published_schemas(names: &mut VecSet<String>, m: &VecMap<String, PublicationState>, Ghost(c): Ghost<DbCacheView>)
    requires
        c.publications == m@,
    ensures
        final(names)@ == old(names)@.union(published_schemas(c)),
{
    let ghost before = names@;
    let ghost items = m.items();
    let n = m.len();
    let mut i: usize = 0;
    while i < n
        invariant
            i <= n,
            n == m.items().len(),
            items == m.items(),
            before == old(names)@,
            forall|x: Seq<char>| #[trigger]
                names@.contains(x) <==> before.contains(x) || exists|j: int| 0 <= j < i && names_published_schema((#[trigger] items[j]).1, x),
        decreases n - i,
    {
        let ghost here = names@;
        add_object_schemas(names, m.value_at(i));
        proof {
            assert forall|x: Seq<char>| #[trigger] names@.contains(x) <==> before.contains(x) || exists|j: int|
                0 <= j < i + 1 && names_published_schema((#[trigger] items[j]).1, x) by {
                if here.contains(x) && !before.contains(x) {
                    let j = choose|j: int| 0 <= j < i && names_published_schema((#[trigger] items[j]).1, x);
                    assert(names_published_schema(items[j].1, x));
                }
                if names_published_schema(items[i as int].1, x) {
                    assert(names_published_schema(items[i as int].1, x));
                }
                if exists|j: int| 0 <= j < i + 1 && names_published_schema((#[trigger] items[j]).1, x) {
                    let j = choose|j: int| 0 <= j < i + 1 && names_published_schema((#[trigger] items[j]).1, x);
                    if j < i {
                        assert(here.contains(x));
                    }
                }
            }
        }
        i = i + 1;
    }
    proof {
        assert forall|x: Seq<char>| #[trigger] names@.contains(x) <==> before.union(published_schemas(c)).contains(x) by {
            if names@.contains(x) && !before.contains(x) {
                let j = choose|j: int| 0 <= j < n && names_published_schema((#[trigger] items[j]).1, x);
                assert(c.publications.dom().contains(items[j].0));
                assert(c.publications[items[j].0] == items[j].1);
            }
            if published_schemas(c).contains(x) {
                let p = choose|p: Seq<char>| #[trigger] c.publications.dom().contains(p) && names_published_schema(c.publications[p], x);
                let j = choose|j: int| 0 <= j < items.len() && items[j].0 == p;
                assert(m@[items[j].0] == items[j].1);
                assert(names_published_schema(items[j].1, x));
            }
        }
        assert(names@ =~= before.union(published_schemas(c)));
    }
}

fn list_named_schemas(cache: &DbCache) -> (r: VecSet<String>)
    ensures
        r@ == named_schemas(cache@),
{
    let mut names: VecSet<String> = VecSet::new();
    add_key_schemas(&mut names, &cache.relations);
    add_key_schemas(&mut names, &cache.types);
    add_key_schemas(&mut names, &cache.functions);
    add_key_schemas(&mut names, &cache.sequences);
    let ids = list_named_ids(cache);
    add_schemas(&mut names, &ids);
    add_published_schemas(&mut names, &cache.publications, Ghost(cache@));
    let ghost before = names@;
    if cache.schemas.is_empty() && cache.metadata.schemas.is_none() {
        let path = set_of(&cache.search_path);
        let mut i: usize = 0;
        while i < cache.search_path.len()
            invariant
                i <= cache.search_path.len(),
                forall|x: Seq<char>| #[trigger]
                    names@.contains(x) <==> before.contains(x) || exists|j: int| 0 <= j < i && #[trigger] cache.search_path.deep_view()[j] == x,
            decreases cache.search_path.len() - i,
        {
            let ghost here = names@;
            let ghost list = cache.search_path.deep_view();
            assert(list[i as int] == cache.search_path@[i as int]@);
            names.insert(cache.search_path[i].clone());
            proof {
                assert forall|x: Seq<char>| #[trigger] names@.contains(x) <==> before.contains(x) || exists|j: int|
                    0 <= j < i + 1 && #[trigger] list[j] == x by {
                    if here.contains(x) && !before.contains(x) {
                        let j = choose|j: int| 0 <= j < i && #[trigger] list[j] == x;
                        assert(list[j] == x);
                    }
                    if list[i as int] == x {
                        assert(list[i as int] == x);
                    }
                }
            }
            i = i + 1;
        }
        proof {
            assert forall|x: Seq<char>| #[trigger] names@.contains(x) <==> before.union(cache@.search_path.to_set()).contains(x) by {
                if cache@.search_path.contains(x) {
                    let j = choose|j: int| 0 <= j < cache@.search_path.len() && cache@.search_path[j] == x;
                    assert(cache.search_path.deep_view()[j] == x);
                }
            }
            assert(names@ =~= before.union(cache@.search_path.to_set()));
        }
    }
    proof {
        assert(names@ =~= named_schemas(cache@));
    }
    names
}

fn hydrate_schema_overlays(cache: &DbCache) -> (r: VecMap<String, SchemaOverlay>)
    ensures
        r@ == hydrated_schemas(cache@),
{
    let owner = match &cache.metadata.source_role {
        Some(role) => ObjectId::new("", role),
        None => ObjectId::new("", "postgres"),
    };
    let names = list_named_schemas(cache);
    let present = |name: &String, s: &SchemaState| -> (o: SchemaOverlay)
        ensures
            o.deep_view() == Overlay::Present(s.deep_view()),
        { Overlay::Present(s.dup()) };
    let mut r: VecMap<String, SchemaOverlay> = cache.schemas.map_entries(present, Ghost(|name: Seq<char>, s: SchemaStateView| Overlay::Present(s)));
    let n = names.len();
    let mut i: usize = 0;
    let ghost list = names.items();
    let ghost c = cache@;
    while i < n
        invariant
            i <= n,
            n == names.items().len(),
            list == names.items(),
            c == cache@,
            owner@ == object(""@, source_role(c)),
            forall|k: Seq<char>| #[trigger]
                r@.dom().contains(k) <==> c.schemas.dom().contains(k) || exists|j: int| 0 <= j < i && #[trigger] list[j] == k,
            forall|k: Seq<char>| #[trigger]
                r@.dom().contains(k) ==> r@[k] == (if c.schemas.dom().contains(k) {
                    Overlay::Present(c.schemas[k])
                } else {
                    Overlay::Present(inferred_schema(c, k))
                }),
        decreases n - i,
    {
        let name = names.at(i);
        let ghost here = r@;
        if !r.contains_key(name) {
            r.insert(name.clone(), Overlay::Present(SchemaState { name: name.clone(), owner: owner.dup(), generation: 0 }));
        }
        proof {
            assert forall|k: Seq<char>| #[trigger] r@.dom().contains(k) <==> c.schemas.dom().contains(k) || exists|j: int|
                0 <= j < i + 1 && #[trigger] list[j] == k by {
                if here.dom().contains(k) && !c.schemas.dom().contains(k) {
                    let j = choose|j: int| 0 <= j < i && #[trigger] list[j] == k;
                    assert(list[j] == k);
                }
                if list[i as int] == k {
                    assert(list[i as int] == k);
                }
            }
        }
        i = i + 1;
    }
    proof {
        let goal = hydrated_schemas(c);
        assert forall|k: Seq<char>| #[trigger] r@.dom().contains(k) <==> goal.dom().contains(k) by {
            if r@.dom().contains(k) && !c.schemas.dom().contains(k) {
                let j = choose|j: int| 0 <= j < n && #[trigger] list[j] == k;
                assert(names@.contains(list[j]));
            }
            if names@.contains(k) {
                let j = choose|j: int| 0 <= j < list.len() && list[j] == k;
                assert(list[j] == k);
            }
        }
        assert(r@ =~= goal);
    }
    r
}

// ---------------------------------------------------------------------------
// Execution: types, relations and routines
// ---------------------------------------------------------------------------

fn hydrate_type_catalog(cache: &DbCache) -> (r: VecMap<ObjectId, TypeOverlay>)
    ensures
        r@ == type_catalog(cache@),
{
    let present = |id: &ObjectId, t: &TypeState| -> (o: TypeOverlay)
        ensures
            o.deep_view() == Overlay::Present(t.deep_view()),
        { Overlay::Present(t.dup()) };
    let r = cache.types.map_entries(present, Ghost(|id: ObjectIdView, t: TypeStateView| Overlay::Present(t)));
    assert(r@ =~= type_catalog(cache@));
    r
}

fn hydrate_type(cache: &DbCache, catalog: &VecMap<ObjectId, TypeOverlay>, t: &TypeState) -> (r: TypeState)
    requires
        catalog@ == type_catalog(cache@),
    ensures
        r@ == hydrated_type(cache@, t@),
{
    match &t.kind {
        TypeKind::Domain { base_type, .. } => TypeState {
            id: t.id.dup(),
            generation: t.generation,
            kind: TypeKind::Domain {
                base_type: base_type.clone(),
                base_type_id: resolve_type_reference_from_catalog(base_type, catalog, &cache.search_path),
            },
        },
        _ => t.dup(),
    }
}

fn hydrate_types(cache: &DbCache, catalog: &VecMap<ObjectId, TypeOverlay>) -> (r: VecMap<ObjectId, TypeOverlay>)
    requires
        catalog@ == type_catalog(cache@),
    ensures
        r@ == hydrated_types(cache@),
{
    let ghost c = cache@;
    let make = |id: &ObjectId, t: &TypeState| -> (o: TypeOverlay)
        ensures
            o.deep_view() == Overlay::Present(hydrated_type(cache@, t.deep_view())),
        { Overlay::Present(hydrate_type(cache, catalog, t)) };
    let r = cache.types.map_entries(make, Ghost(|id: ObjectIdView, t: TypeStateView| Overlay::Present(hydrated_type(c, t))));
    assert(r@ =~= hydrated_types(c));
    r
}

fn hydrate_column(cache: &DbCache, catalog: &VecMap<ObjectId, TypeOverlay>, column: &Column) -> (r: Column)
    requires
        catalog@ == type_catalog(cache@),
    ensures
        r@ == hydrated_column(cache@, column@),
{
    let mut r = column.dup();
    r.type_id = match &column.data_type {
        Some(raw) => resolve_type_reference_from_catalog(raw, catalog, &cache.search_path),
        None => None,
    };
    r
}

fn hydrate_relation(cache: &DbCache, catalog: &VecMap<ObjectId, TypeOverlay>, relation: &RelationState) -> (r: RelationState)
    requires
        catalog@ == type_catalog(cache@),
    ensures
        r@ == hydrated_relation(cache@, relation@),
{
    let ghost c = cache@;
    let mut r = relation.dup();
    let make = |x: &Column| -> (y: Column)
        ensures
            y@ == hydrated_column(cache@, x@),
        { hydrate_column(cache, catalog, x) };
    r.columns = vec_map(&relation.columns, make, Ghost(|x: ColumnView| hydrated_column(c, x)));
    r
}

fn hydrate_relations(cache: &DbCache, catalog: &VecMap<ObjectId, TypeOverlay>) -> (r: VecMap<ObjectId, RelationOverlay>)
    requires
        catalog@ == type_catalog(cache@),
    ensures
        r@ == hydrated_relations(cache@),
{
    let ghost c = cache@;
    let make = |id: &ObjectId, x: &RelationState| -> (o: RelationOverlay)
        ensures
            o.deep_view() == Overlay::Present(hydrated_relation(cache@, x.deep_view())),
        { Overlay::Present(hydrate_relation(cache, catalog, x)) };
    let r = cache.relations.map_entries(make, Ghost(|id: ObjectIdView, x: RelationStateView| Overlay::Present(hydrated_relation(c, x))));
    assert(r@ =~= hydrated_relations(c));
    r
}

fn hydrate_function(cache: &DbCache, types: &VecMap<ObjectId, TypeOverlay>, f: &FunctionState) -> (r: FunctionState)
    requires
        types@ == hydrated_types(cache@),
    ensures
        r@ == hydrated_function(cache@, f@),
{
    let ghost c = cache@;
    let mut r = f.dup();
    let make = |raw: &String| -> (y: Option<ObjectId>)
        ensures
            y.deep_view() == type_in_catalog(hydrated_types(cache@), cache@.search_path, raw@),
        { resolve_type_reference_from_catalog(raw, types, &cache.search_path) };
    r.arg_type_ids = vec_map(&f.arg_types, make, Ghost(|raw: Seq<char>| type_in_catalog(hydrated_types(c), c.search_path, raw)));
    r.return_type_id = resolve_type_reference_from_catalog(&f.return_type, types, &cache.search_path);
    r
}

fn hydrate_functions(cache: &DbCache, types: &VecMap<ObjectId, TypeOverlay>) -> (r: VecMap<ObjectId, FunctionOverlay>)
    requires
        types@ == hydrated_types(cache@),
    ensures
        r@ == hydrated_functions(cache@),
{
    let ghost c = cache@;
    let make = |id: &ObjectId, x: &FunctionState| -> (o: FunctionOverlay)
        ensures
            o.deep_view() == Overlay::Present(hydrated_function(cache@, x.deep_view())),
        { Overlay::Present(hydrate_function(cache, types, x)) };
    let r = cache.functions.map_entries(make, Ghost(|id: ObjectIdView, x: FunctionStateView| Overlay::Present(hydrated_function(c, x))));
    assert(r@ =~= hydrated_functions(c));
    r
}

fn present_rows<K: Key, V: Dup>(m: &VecMap<K, V>) -> (r: VecMap<K, Overlay<V>>)
    ensures
        r@ == all_present(m@),
{
    let make = |k: &K, v: &V| -> (o: Overlay<V>)
        ensures
            o.deep_view() == Overlay::Present(v.deep_view()),
        { Overlay::Present(v.dup()) };
    let r = m.map_entries(make, Ghost(|k: K::V, v: V::V| Overlay::Present(v)));
    assert(r@ =~= all_present(m@));
    r
}

fn hydrate_constraints(rows: &Vec<ConstraintState>) -> (r: VecMap<(ObjectId, String), ConstraintState>)
    ensures
        r@ == hydrated_constraints(rows.deep_view(), rows.deep_view().len()),
{
    let mut r: VecMap<(ObjectId, String), ConstraintState> = VecMap::new();
    let mut i: usize = 0;
    while i < rows.len()
        invariant
            i <= rows.len(),
            r@ == hydrated_constraints(rows.deep_view(), i as nat),
        decreases rows.len() - i,
    {
        assert(rows.deep_view()[i as int] == rows@[i as int]@);
        r.insert((rows[i].table_id.dup(), rows[i].name.clone()), rows[i].dup());
        i = i + 1;
    }
    r
}

fn hydrate_triggers(rows: &Vec<TriggerCache>) -> (r: VecMap<ObjectId, TriggerOverlay>)
    ensures
        r@ == hydrated_triggers(rows.deep_view(), rows.deep_view().len()),
{
    let mut r: VecMap<ObjectId, TriggerOverlay> = VecMap::new();
    let mut i: usize = 0;
    while i < rows.len()
        invariant
            i <= rows.len(),
            r@ == hydrated_triggers(rows.deep_view(), i as nat),
        decreases rows.len() - i,
    {
        let row = &rows[i];
        assert(rows.deep_view()[i as int] == rows@[i as int]@);
        let key = AnalysisState::trigger_key(&row.table_id, &row.trigger_id.name);
        let state = TriggerState {
            name: row.trigger_id.name.clone(),
            id: key.dup(),
            table_id: row.table_id.dup(),
            enabled_mode: row.enabled_mode,
            generation: 0,
        };
        r.insert(key, Overlay::Present(state));
        i = i + 1;
    }
    r
}

fn hydrate_fk_dependencies(cache: &DbCache) -> (r: VecSet<ObjectId>)
    ensures
        r@ == Set::new(|id: ObjectIdView| cache@.relations.dom().contains(id) && cache@.relations[id].is_fk_dependency),
{
    let is = |id: &ObjectId, x: &RelationState| -> (b: bool)
        ensures
            b == x.deep_view().is_fk_dependency,
        { x.is_fk_dependency };
    let ids = cache.relations.keys_where(is, Ghost(|id: ObjectIdView, x: RelationStateView| x.is_fk_dependency));
    let r = set_of(&ids);
    assert(r@ =~= Set::new(|id: ObjectIdView| cache@.relations.dom().contains(id) && cache@.relations[id].is_fk_dependency));
    r
}

fn key_set<K: Key, V: Dup>(m: &VecMap<K, V>) -> (r: VecSet<K>)
    ensures
        r@ == m@.dom(),
{
    let r = set_of(&keys_of(m));
    assert(r@ =~= m@.dom());
    r
}

// ---------------------------------------------------------------------------
// Execution: edges
// ---------------------------------------------------------------------------

fn add_ownership_edges(graph: &mut DependencyGraph, cache: &DbCache, ids: &Vec<ObjectId>)
    ensures
        final(graph)@ == old(graph)@ + ownership_edges(cache@, ids.deep_view(), ids.deep_view().len()),
{
    let ghost before = graph@;
    let ghost c = cache@;
    let mut i: usize = 0;
    assert(graph@ =~= before + ownership_edges(c, ids.deep_view(), 0));
    while i < ids.len()
        invariant
            i <= ids.len(),
            c == cache@,
            before == old(graph)@,
            graph@ == before + ownership_edges(c, ids.deep_view(), i as nat),
        decreases ids.len() - i,
    {
        assert(ids.deep_view()[i as int] == ids@[i as int]@);
        let ghost here = graph@;
        if let Some(sequence) = cache.sequences.get(&ids[i]) {
            if let Some((table, column)) = &sequence.owned_by {
                graph.add_edge(DependencyEdge::new(sequence.id.dup(), table.dup(), DependencyKind::SequenceOwnedBy { column: column.clone() }));
            }
        }
        assert(graph@ =~= before + ownership_edges(c, ids.deep_view(), (i + 1) as nat));
        i = i + 1;
    }
}

fn make_foreign_key_edge(x: &ForeignKeyCache) -> (e: DependencyEdge)
    ensures
        e@ == foreign_key_edge(x@),
{
    let operator_evidence = if x.has_complete_operator_evidence() {
        Some(
            ForeignKeyOperatorEvidence {
                pk_fk: x.pk_fk_equality_operators.dup(),
                pk_pk: x.pk_pk_equality_operators.dup(),
                fk_fk: x.fk_fk_equality_operators.dup(),
            },
        )
    } else {
        None
    };
    DependencyEdge::new(
        x.from_table.dup(),
        x.to_table.dup(),
        DependencyKind::ForeignKey {
            constraint_name: Some(x.constraint_name.clone()),
            from_columns: x.from_columns.dup(),
            to_columns: x.to_columns.dup(),
            operator_evidence,
            from_generation: 0,
        },
    )
}

fn make_index_edge(x: &IndexCache) -> (e: DependencyEdge)
    ensures
        e@ == index_edge(x@),
{
    DependencyEdge::new(
        x.index_id.dup(),
        x.table_id.dup(),
        DependencyKind::IndexOnRelation {
            using_method: Some(x.using_method.clone()),
            key_columns: x.key_columns.dup(),
            included_columns: x.included_columns.dup(),
            dependency_columns: x.dependency_columns.dup(),
            dependency_columns_known: x.dependency_columns_known,
            has_expression_keys: x.has_expression_keys,
            has_predicate: x.has_predicate,
            is_concurrent: false,
            is_unique: x.is_unique,
            is_valid: x.is_valid,
            is_ready: x.is_ready,
            is_live: x.is_live,
            has_default_sort_order: x.has_default_sort_order,
            has_default_opclasses: x.has_default_opclasses,
            has_default_collations: x.has_default_collations,
            // Whether an index can serve a constraint is known from its row,
            // also where the columns it depends on are not.
            eligibility_known: true,
        },
    )
}

fn does_dependency_count(cache: &DbCache, scope: &Option<VecSet<String>>, x: &DependencyCache) -> (b: bool)
    requires
        match cache@.metadata.schemas {
            Some(names) => scope is Some && scope->0@ == names.to_set(),
            None => scope is None,
        },
    ensures
        b == dependency_counts(cache@, x@),
{
    if x.dependent.same(&x.referenced) {
        return false;
    }
    let is_view = match cache.relations.get(&x.dependent) {
        Some(relation) => match relation.kind {
            RelationKind::View => true,
            RelationKind::MaterializedView => true,
            RelationKind::Table => false,
        },
        None => false,
    };
    let is_omitted = match scope {
        Some(names) => !names.contains(&x.dependent.schema),
        None => false,
    };
    is_view || is_omitted
}

fn make_dependency_edge(x: &DependencyCache) -> (e: DependencyEdge)
    ensures
        e@ == dependency_edge(x@),
{
    DependencyEdge::new(
        x.dependent.dup(),
        x.referenced.dup(),
        DependencyKind::ViewDependency { view_generation: 0, referenced_column: x.referenced_column.dup() },
    )
}

fn make_inheritance_edge(x: &InheritanceCache) -> (e: DependencyEdge)
    ensures
        e@ == inheritance_edge(x@),
{
    let kind = if x.is_partition {
        DependencyKind::PartitionOf
    } else {
        DependencyKind::InheritanceOf
    };
    DependencyEdge::new(x.child.dup(), x.parent.dup(), kind)
}

fn make_constraint_key_edge(x: &ConstraintKeyCache) -> (e: DependencyEdge)
    ensures
        e@ == constraint_key_edge(x@),
{
    DependencyEdge::new(
        x.table_id.dup(),
        x.table_id.dup(),
        DependencyKind::ConstraintOnRelation { constraint_name: x.constraint_name.clone(), columns: x.columns.dup(), is_primary: x.is_primary },
    )
}

fn make_constraint_dependency_edge(x: &ConstraintDependencyCache) -> (e: DependencyEdge)
    ensures
        e@ == constraint_dependency_edge(x@),
{
    DependencyEdge::new(
        x.table_id.dup(),
        x.table_id.dup(),
        DependencyKind::ConstraintDependency { constraint_name: x.constraint_name.clone(), columns: x.columns.dup() },
    )
}

fn make_generated_column_edge(x: &GeneratedColumnDependencyCache) -> (e: DependencyEdge)
    ensures
        e@ == generated_column_edge(x@),
{
    DependencyEdge::new(
        x.table_id.dup(),
        x.table_id.dup(),
        DependencyKind::ColumnGeneratedFrom { column: x.column_name.clone(), depends_on_column: x.depends_on_column.clone() },
    )
}

fn make_default_sequence_edge(x: &DefaultSequenceDependencyCache) -> (e: DependencyEdge)
    ensures
        e@ == default_sequence_edge(x@),
{
    DependencyEdge::new(x.table_id.dup(), x.sequence_id.dup(), DependencyKind::ColumnDefaultOnSequence { column: x.column_name.clone() })
}

fn make_trigger_edge(x: &TriggerCache) -> (e: DependencyEdge)
    ensures
        e@ == trigger_edge(x@),
{
    let key = AnalysisState::trigger_key(&x.table_id, &x.trigger_id.name);
    DependencyEdge::new(
        key.dup(),
        x.table_id.dup(),
        DependencyKind::TriggerOnTable { trigger_id: key, function_id: x.function_id.dup(), trigger_generation: 0 },
    )
}

fn find_published_table(name: &QualifiedName) -> (r: ObjectId)
    ensures
        r@ == published_table(name@),
{
    let schema = match &name.schema {
        Some(schema) => schema.resolve(),
        None => "public".to_owned(),
    };
    ObjectId::new(&schema, &name.name.resolve())
}

fn add_object_edges(graph: &mut DependencyGraph, publication: &String, objects: &Vec<PublicationObjectFact>)
    ensures
        final(graph)@ == old(graph)@ + object_edges(publication@, objects.deep_view(), objects.deep_view().len()),
{
    let ghost before = graph@;
    let mut i: usize = 0;
    assert(graph@ =~= before + object_edges(publication@, objects.deep_view(), 0));
    while i < objects.len()
        invariant
            i <= objects.len(),
            before == old(graph)@,
            graph@ == before + object_edges(publication@, objects.deep_view(), i as nat),
        decreases objects.len() - i,
    {
        assert(objects.deep_view()[i as int] == objects@[i as int]@);
        if let PublicationObjectFact::Table { name, .. } = &objects[i] {
            graph.add_edge(
                DependencyEdge::new(
                    find_published_table(name),
                    ObjectId::new("public", publication),
                    DependencyKind::PublicationIncludes { publication_name: publication.clone() },
                ),
            );
        }
        assert(graph@ =~= before + object_edges(publication@, objects.deep_view(), (i + 1) as nat));
        i = i + 1;
    }
}

fn add_publication_edges(graph: &mut DependencyGraph, cache: &DbCache, names: &Vec<String>)
    ensures
        final(graph)@ == old(graph)@ + publication_edges(cache@, names.deep_view(), names.deep_view().len()),
{
    let ghost before = graph@;
    let ghost c = cache@;
    let mut i: usize = 0;
    assert(graph@ =~= before + publication_edges(c, names.deep_view(), 0));
    while i < names.len()
        invariant
            i <= names.len(),
            c == cache@,
            before == old(graph)@,
            graph@ == before + publication_edges(c, names.deep_view(), i as nat),
        decreases names.len() - i,
    {
        assert(names.deep_view()[i as int] == names@[i as int]@);
        if let Some(publication) = cache.publications.get(&names[i]) {
            if let PublicationScope::Explicit(objects) = &publication.scope {
                add_object_edges(graph, &names[i], objects);
            }
        }
        assert(graph@ =~= before + publication_edges(c, names.deep_view(), (i + 1) as nat));
        i = i + 1;
    }
}

fn list_dependency_edges(cache: &DbCache, scope: &Option<VecSet<String>>) -> (r: Vec<DependencyEdge>)
    requires
        match cache@.metadata.schemas {
            Some(names) => scope is Some && scope->0@ == names.to_set(),
            None => scope is None,
        },
    ensures
        r.deep_view() == cache@.dependencies.filter(|x: DependencyCacheView| dependency_counts(cache@, x)).map_values(
            |x: DependencyCacheView| dependency_edge(x),
        ),
{
    let ghost c = cache@;
    let counts = |x: &DependencyCache| -> (b: bool)
        ensures
            b == dependency_counts(cache@, x@),
        { does_dependency_count(cache, scope, x) };
    let rows = vec_filter(&cache.dependencies, counts, Ghost(|x: DependencyCacheView| dependency_counts(c, x)));
    vec_map(&rows, make_dependency_edge, Ghost(|x: DependencyCacheView| dependency_edge(x)))
}

fn hydrate_graph(cache: &DbCache, scope: &Option<VecSet<String>>, sequences: &Vec<ObjectId>, publications: &Vec<String>, Ghost(order): Ghost<ReadingOrder>) -> (r:
    DependencyGraph)
    requires
        order.sequences == sequences.deep_view(),
        order.publications == publications.deep_view(),
        match cache@.metadata.schemas {
            Some(names) => scope is Some && scope->0@ == names.to_set(),
            None => scope is None,
        },
    ensures
        r@ == hydrated_graph(cache@, order),
{
    let mut graph = DependencyGraph::new();
    add_ownership_edges(&mut graph, cache, sequences);
    graph.add_edges(vec_map(&cache.foreign_keys, make_foreign_key_edge, Ghost(|x: ForeignKeyCacheView| foreign_key_edge(x))));
    graph.add_edges(vec_map(&cache.indexes, make_index_edge, Ghost(|x: IndexCacheView| index_edge(x))));
    graph.add_edges(list_dependency_edges(cache, scope));
    graph.add_edges(vec_map(&cache.inheritances, make_inheritance_edge, Ghost(|x: InheritanceCacheView| inheritance_edge(x))));
    graph.add_edges(vec_map(&cache.constraint_keys, make_constraint_key_edge, Ghost(|x: ConstraintKeyCacheView| constraint_key_edge(x))));
    graph.add_edges(
        vec_map(
            &cache.constraint_dependencies,
            make_constraint_dependency_edge,
            Ghost(|x: ConstraintDependencyCacheView| constraint_dependency_edge(x)),
        ),
    );
    graph.add_edges(
        vec_map(
            &cache.generated_column_dependencies,
            make_generated_column_edge,
            Ghost(|x: GeneratedColumnDependencyCacheView| generated_column_edge(x)),
        ),
    );
    graph.add_edges(
        vec_map(
            &cache.default_sequence_dependencies,
            make_default_sequence_edge,
            Ghost(|x: DefaultSequenceDependencyCacheView| default_sequence_edge(x)),
        ),
    );
    graph.add_edges(vec_map(&cache.triggers, make_trigger_edge, Ghost(|x: TriggerCacheView| trigger_edge(x))));
    add_publication_edges(&mut graph, cache, publications);
    assert(graph@ =~= hydrated_graph(cache@, order));
    graph
}

// ---------------------------------------------------------------------------
// Execution: the state
// ---------------------------------------------------------------------------

fn are_operators_incomplete(cache: &DbCache) -> (b: bool)
    ensures
        b == operators_incomplete(cache@),
{
    let incomplete = |x: &ForeignKeyCache| -> (b: bool)
        ensures
            b == !x@.has_complete_operator_evidence(),
        { !x.has_complete_operator_evidence() };
    let b = vec_any(&cache.foreign_keys, incomplete, Ghost(|x: ForeignKeyCacheView| !x.has_complete_operator_evidence()));
    proof {
        let s = cache@.foreign_keys;
        if b {
            let i = choose|i: int| 0 <= i < s.len() && !(#[trigger] s[i]).has_complete_operator_evidence();
            assert(!s[i].has_complete_operator_evidence());
        }
    }
    b
}

fn baseline_foreign_keys_of(cache: &DbCache) -> (r: VecSet<(ObjectId, String)>)
    ensures
        r@ == cache@.foreign_keys.map_values(|x: ForeignKeyCacheView| (x.from_table, x.constraint_name)).to_set(),
{
    let make = |x: &ForeignKeyCache| -> (y: (ObjectId, String))
        ensures
            y.deep_view() == (x@.from_table, x@.constraint_name),
        { (x.from_table.dup(), x.constraint_name.clone()) };
    set_of(&vec_map(&cache.foreign_keys, make, Ghost(|x: ForeignKeyCacheView| (x.from_table, x.constraint_name))))
}

fn baseline_indexes_of(cache: &DbCache) -> (r: VecSet<ObjectId>)
    ensures
        r@ == cache@.indexes.map_values(|x: IndexCacheView| x.index_id).to_set(),
{
    let make = |x: &IndexCache| -> (y: ObjectId)
        ensures
            y@ == x@.index_id,
        { x.index_id.dup() };
    set_of(&vec_map(&cache.indexes, make, Ghost(|x: IndexCacheView| x.index_id)))
}

fn find_source_template(cache: &DbCache) -> (r: Vec<String>)
    ensures
        r.deep_view() == source_template(cache@),
{
    match (&cache.metadata.schemas, &cache.metadata.source_search_path) {
        (None, Some(path)) => path.dup(),
        _ => cache.search_path.dup(),
    }
}

fn find_source_role(cache: &DbCache) -> (r: String)
    ensures
        r@ == source_role(cache@),
{
    match &cache.metadata.source_role {
        Some(role) => role.clone(),
        None => "postgres".to_owned(),
    }
}

fn find_source_session_role(cache: &DbCache) -> (r: String)
    ensures
        r@ == source_session_role(cache@),
{
    match &cache.metadata.source_session_role {
        Some(role) => role.clone(),
        None => find_source_role(cache),
    }
}

fn make_timeout_setting(available: bool, ms: u64) -> (r: ScopedSetting<Option<u64>>)
    ensures
        r == timeout_setting(available, ms),
{
    let value: Option<u64> = if available {
        Some(ms)
    } else {
        None
    };
    ScopedSetting { default: value, session: value, effective: value }
}

fn hydrate_local(
    cache: &DbCache,
    available: bool,
    scope: &Option<VecSet<String>>,
    sequences: &Vec<ObjectId>,
    publications: &Vec<String>,
    Ghost(order): Ghost<ReadingOrder>,
) -> (r: LocalState)
    requires
        order.sequences == sequences.deep_view(),
        order.publications == publications.deep_view(),
        match cache@.metadata.schemas {
            Some(names) => scope is Some && scope->0@ == names.to_set(),
            None => scope is None,
        },
    ensures
        r.schemas@ == hydrated_schemas(cache@),
        r.relations@ == hydrated_relations(cache@),
        r.types@ == hydrated_types(cache@),
        r.functions@ == hydrated_functions(cache@),
        r.sequences@ == all_present(cache@.sequences),
        r.publications@ == all_present(cache@.publications),
        r.subscriptions@ == all_present(cache@.subscriptions),
        r.roles@ == all_present(cache@.roles),
        r.role_membership_grantors.deep_view() == cache@.role_membership_grantors,
        r.role_membership_grantors_complete == cache@.role_membership_grantors_complete,
        r.triggers@ == hydrated_triggers(cache@.triggers, cache@.triggers.len()),
        r.constraints@ == hydrated_constraints(cache@.constraints, cache@.constraints.len()),
        r.graph@ == hydrated_graph(cache@, order),
        r.search_path.deep_view() == cache@.search_path,
        r.default_search_path.deep_view() == cache@.search_path,
        r.search_path_template.deep_view() == source_template(cache@),
        r.session_search_path_template.deep_view() == source_template(cache@),
        r.default_search_path_template.deep_view() == source_template(cache@),
        r.lock_timeout == timeout_setting(available, cache@.metadata.source_lock_timeout_ms),
        r.statement_timeout == timeout_setting(available, cache@.metadata.source_statement_timeout_ms),
        r.current_role@ == source_role(cache@),
        r.current_role_known == (cache@.metadata.source_role is Some),
        r.persistent_current_role@ == source_role(cache@),
        r.persistent_current_role_known == (cache@.metadata.source_role is Some),
        r.session_role@ == source_session_role(cache@),
        r.session_role_known == (cache@.metadata.source_session_role is Some),
        r.persistent_session_role@ == source_session_role(cache@),
        r.persistent_session_role_known == (cache@.metadata.source_session_role is Some),
        r.authenticated_role@ == source_session_role(cache@),
        r.authenticated_role_known == (cache@.metadata.source_session_role is Some),
        r.roles_known == role_catalog_is_known(cache@, available),
        r.confidence == Confidence::Exact,
        r.evidence@ == Seq::<EvidenceRecord>::empty(),
        r.current_evidence_location is None,
        r.pending_validation@ == Set::<(ObjectIdView, Seq<char>)>::empty(),
        r.generation_counter == 0,
        r.transactions@.len() == 0,
        !r.transaction_aborted,
{
    let catalog = hydrate_type_catalog(cache);
    let types = hydrate_types(cache, &catalog);
    let relations = hydrate_relations(cache, &catalog);
    let functions = hydrate_functions(cache, &types);
    let current_role_known = cache.metadata.source_role.is_some();
    let session_role_known = cache.metadata.source_session_role.is_some();
    let roles_known = available && cache.coverage.has(CatalogFamily::Roles) && (!cache.roles.is_empty() || session_role_known);
    let template = find_source_template(cache);
    LocalState {
        schemas: hydrate_schema_overlays(cache),
        relations,
        types,
        functions,
        sequences: present_rows(&cache.sequences),
        publications: present_rows(&cache.publications),
        subscriptions: present_rows(&cache.subscriptions),
        roles: present_rows(&cache.roles),
        role_membership_grantors: cache.role_membership_grantors.dup(),
        role_membership_grantors_complete: cache.role_membership_grantors_complete,
        triggers: hydrate_triggers(&cache.triggers),
        constraints: hydrate_constraints(&cache.constraints),
        graph: hydrate_graph(cache, scope, sequences, publications, Ghost(order)),
        search_path: cache.search_path.dup(),
        default_search_path: cache.search_path.dup(),
        search_path_template: template.dup(),
        session_search_path_template: template.dup(),
        default_search_path_template: template,
        lock_timeout: make_timeout_setting(available, cache.metadata.source_lock_timeout_ms),
        statement_timeout: make_timeout_setting(available, cache.metadata.source_statement_timeout_ms),
        current_role: find_source_role(cache),
        current_role_known,
        persistent_current_role: find_source_role(cache),
        persistent_current_role_known: current_role_known,
        session_role: find_source_session_role(cache),
        session_role_known,
        persistent_session_role: find_source_session_role(cache),
        persistent_session_role_known: session_role_known,
        authenticated_role: find_source_session_role(cache),
        authenticated_role_known: session_role_known,
        roles_known,
        confidence: Confidence::Exact,
        evidence: EvidenceLog::default(),
        current_evidence_location: None,
        pending_validation: VecSet::new(),
        generation_counter: 0,
        transactions: Vec::new(),
        transaction_aborted: false,
    }
}

impl AnalysisState {
    /// A state that starts from a catalog that was loaded.
    pub fn new(cache: DbCache) -> (r: Self)
        ensures
            starts_from(cache@, true, r@.data),
            r@.frames.len() == 0,
            !r@.aborted,
    {
        AnalysisState::with_baseline(cache, true)
    }

    /// Construct an authoritative state only from a semantically valid cache.
    pub fn try_new(cache: DbCache) -> (r: Result<Self, String>)
        ensures
            match r {
                Ok(state) => cache@.schema_keys_agree() && starts_from(cache@, true, state@.data) && state@.frames.len() == 0 && !state@.aborted,
                Err(reason) => !cache@.schema_keys_agree() && cache@.is_fault(reason@),
            },
    {
        AnalysisState::try_with_baseline(cache, true)
    }

    fn hydrate(
        cache: &DbCache,
        available: bool,
        sequences: &Vec<ObjectId>,
        publications: &Vec<String>,
        Ghost(order): Ghost<ReadingOrder>,
    ) -> (r: Self)
        requires
            order.sequences == sequences.deep_view(),
            order.publications == publications.deep_view(),
        ensures
            r@.data == hydrated_data(cache@, available, order),
            r@.frames.len() == 0,
            !r@.aborted,
    {
        let scope = match &cache.metadata.schemas {
            Some(names) => Some(set_of(names)),
            None => None,
        };
        let local = hydrate_local(cache, available, &scope, sequences, publications, Ghost(order));
        let r = AnalysisState {
            pg_version_num: cache.pg_version_num,
            baseline_available: available,
            baseline_boundary_queries_complete: available && cache.metadata.boundary_queries_complete,
            baseline_coverage: cache.coverage.dup(),
            baseline_schemas: scope,
            baseline_relations: key_set(&cache.relations),
            baseline_indexes: baseline_indexes_of(cache),
            baseline_foreign_keys: baseline_foreign_keys_of(cache),
            baseline_fk_dependencies: hydrate_fk_dependencies(cache),
            baseline_sequences: key_set(&cache.sequences),
            scoped_external_relation_dependencies: set_of(&cache.scoped_external_relation_dependencies),
            scoped_external_type_dependencies: set_of(&cache.scoped_external_type_dependencies),
            scoped_external_routine_dependencies: set_of(&cache.scoped_external_routine_dependencies),
            local,
        };
        proof {
            reveal(data_of);
            reveal(hydrated_data);
            assert(r@.data == hydrated_data(cache@, available, order));
        }
        r
    }

    /// Makes the path in force the default one.
    fn adopt_default_path(&mut self)
        requires
            old(self)@.frames.len() == 0,
        ensures
            final(self)@.data == with_default_path(old(self)@.data),
            final(self)@.frames == old(self)@.frames,
            final(self)@.aborted == old(self)@.aborted,
    {
        self.local.default_search_path = self.local.search_path.dup();
        proof {
            reveal(data_of);
            reveal(with_default_path);
        }
    }

    /// A state that starts from a catalog. Where the catalog is not available
    /// its rows are kept, but their absence proves nothing.
    pub fn with_baseline(cache: DbCache, baseline_available: bool) -> (r: Self)
        ensures
            starts_from(cache@, baseline_available, r@.data),
            r@.frames.len() == 0,
            !r@.aborted,
    {
        let sequences = keys_of(&cache.sequences);
        let publications = keys_of(&cache.publications);
        let ghost order = ReadingOrder { sequences: sequences.deep_view(), publications: publications.deep_view() };
        let mut state = AnalysisState::hydrate(&cache, baseline_available, &sequences, &publications, Ghost(order));
        state.refresh_role_sensitive_search_path();
        state.adopt_default_path();
        let ghost before = state@;
        state.taint_if(
            baseline_available && are_operators_incomplete(&cache),
            EvidenceCode::CatalogCoverageIncomplete,
            EvidenceScope::Chain,
        );
        proof {
            reveal(opened);
            assert(reads(cache@, order));
            lemma_kept_frames(before, state@);
        }
        state
    }

    /// Construct state from a cache after validating its cross-record
    /// invariants, preserving the requested baseline-availability flag.
    pub fn try_with_baseline(cache: DbCache, baseline_available: bool) -> (r: Result<Self, String>)
        ensures
            match r {
                Ok(state) => cache@.schema_keys_agree() && starts_from(cache@, baseline_available, state@.data) && state@.frames.len() == 0
                    && !state@.aborted,
                Err(reason) => !cache@.schema_keys_agree() && cache@.is_fault(reason@),
            },
    {
        match cache.validated() {
            Ok(cache) => Ok(AnalysisState::with_baseline(cache, baseline_available)),
            Err(reason) => Err(reason),
        }
    }
}

} // verus!
