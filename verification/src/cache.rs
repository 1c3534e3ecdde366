//! The synchronized catalog that an analysis starts from.
use crate::collections::{set_of, Dup, Key, VecMap, VecSet};
use crate::identifiers::{ObjectId, ObjectIdView};
use crate::model::constraint::{ConstraintState, ConstraintStateView};
use crate::model::function::{FunctionState, FunctionStateView};
use crate::model::relation::{RelationState, RelationStateView};
use crate::model::replication::{PublicationState, PublicationStateView, SubscriptionState, SubscriptionStateView};
use crate::model::role::{RoleMembershipGrantor, RoleMembershipGrantorView, RoleState, RoleStateView};
use crate::model::schema::{SchemaState, SchemaStateView};
use crate::model::sequence::{SequenceState, SequenceStateView};
use crate::model::trigger::TriggerEnableMode;
use crate::model::types::{TypeState, TypeStateView};
use crate::text::join5;
use vstd::prelude::*;

verus! {

/// A family of catalog rows that a cache may hold completely.
#[derive(Clone, Copy, Debug, PartialEq, Eq, Structural)]
pub enum CatalogFamily {
    Schemas,
    Relations,
    Indexes,
    Types,
    Routines,
    Sequences,
    Roles,
    Triggers,
    Constraints,
    Publications,
    Subscriptions,
    Dependencies,
}

impl DeepView for CatalogFamily {
    type V = CatalogFamily;

    open spec fn deep_view(&self) -> CatalogFamily {
        *self
    }
}

impl Dup for CatalogFamily {
    fn dup(&self) -> (r: Self) {
        *self
    }
}

impl Key for CatalogFamily {
    fn same(&self, other: &Self) -> (r: bool) {
        *self == *other
    }
}

/// Which schemas a cache was synchronized for.
#[derive(Debug)]
pub enum SchemaScope {
    All,
    Only(VecSet<String>),
}

#[verifier::ext_equal]
pub enum SchemaScopeView {
    All,
    Only(Set<Seq<char>>),
}

impl View for SchemaScope {
    type V = SchemaScopeView;

    open spec fn view(&self) -> SchemaScopeView {
        match self {
            SchemaScope::All => SchemaScopeView::All,
            SchemaScope::Only(a) => SchemaScopeView::Only(a.deep_view()),
        }
    }
}

impl DeepView for SchemaScope {
    type V = SchemaScopeView;

    open spec fn deep_view(&self) -> SchemaScopeView {
        self@
    }
}

impl Dup for SchemaScope {
    fn dup(&self) -> (r: Self) {
        match self {
            SchemaScope::All => SchemaScope::All,
            SchemaScope::Only(a) => SchemaScope::Only(a.dup()),
        }
    }
}

/// What a cache is complete for.
#[derive(Debug)]
pub struct CatalogCoverage {
    pub families: VecSet<CatalogFamily>,
    pub schema_scope: SchemaScope,
}

#[verifier::ext_equal]
pub struct CatalogCoverageView {
    pub families: Set<CatalogFamily>,
    pub schema_scope: SchemaScopeView,
}

impl View for CatalogCoverage {
    type V = CatalogCoverageView;

    open spec fn view(&self) -> CatalogCoverageView {
        CatalogCoverageView {
            families: self.families.deep_view(),
            schema_scope: self.schema_scope.deep_view(),
        }
    }
}

impl DeepView for CatalogCoverage {
    type V = CatalogCoverageView;

    open spec fn deep_view(&self) -> CatalogCoverageView {
        self@
    }
}

impl Dup for CatalogCoverage {
    fn dup(&self) -> (r: Self) {
        CatalogCoverage {
            families: self.families.dup(),
            schema_scope: self.schema_scope.dup(),
        }
    }
}


impl CatalogCoverageView {
    /// Whether a schema is within the synchronized scope.
    pub open spec fn covers(self, schema: Seq<char>) -> bool {
        match self.schema_scope {
            SchemaScopeView::All => true,
            SchemaScopeView::Only(names) => names.contains(schema),
        }
    }
}

/// Every catalog family.
pub open spec fn all_families() -> Set<CatalogFamily> {
    Set::new(|f: CatalogFamily| true)
}

impl CatalogCoverage {
    pub fn has(&self, family: CatalogFamily) -> (r: bool)
        ensures
            r == self@.families.contains(family),
    {
        self.families.contains(&family)
    }

    pub fn covers(&self, schema: &String) -> (r: bool)
        ensures
            r == self@.covers(schema@),
    {
        match &self.schema_scope {
            SchemaScope::All => true,
            SchemaScope::Only(names) => names.contains(schema),
        }
    }

    /// The coverage of a synchronization: every family, of all schemas or of
    /// the selected ones.
    pub fn from_sync_scope(schemas: Option<&Vec<String>>) -> (r: Self)
        ensures
            r@.families == all_families(),
            match schemas {
                None => r@.schema_scope == SchemaScopeView::All,
                Some(names) => r@.schema_scope == SchemaScopeView::Only(names.deep_view().to_set()),
            },
    {
        let mut families: VecSet<CatalogFamily> = VecSet::new();
        families.insert(CatalogFamily::Schemas);
        families.insert(CatalogFamily::Relations);
        families.insert(CatalogFamily::Indexes);
        families.insert(CatalogFamily::Types);
        families.insert(CatalogFamily::Routines);
        families.insert(CatalogFamily::Sequences);
        families.insert(CatalogFamily::Roles);
        families.insert(CatalogFamily::Triggers);
        families.insert(CatalogFamily::Constraints);
        families.insert(CatalogFamily::Publications);
        families.insert(CatalogFamily::Subscriptions);
        families.insert(CatalogFamily::Dependencies);
        assert(families@ =~= all_families());
        let schema_scope = match schemas {
            None => SchemaScope::All,
            Some(names) => SchemaScope::Only(set_of(names)),
        };
        CatalogCoverage { families, schema_scope }
    }
}

/// How and for whom a cache was synchronized.
#[derive(Clone, Debug)]
pub struct CacheMetadata {
    pub schemas: Option<Vec<String>>,
    pub source_role: Option<String>,
    pub source_session_role: Option<String>,
    pub source_search_path: Option<Vec<String>>,
    pub boundary_queries_complete: bool,
    pub source_lock_timeout_ms: u64,
    pub source_statement_timeout_ms: u64,
    pub created_at_unix_secs: Option<u64>,
}

#[verifier::ext_equal]
pub struct CacheMetadataView {
    pub schemas: Option<Seq<Seq<char>>>,
    pub source_role: Option<Seq<char>>,
    pub source_session_role: Option<Seq<char>>,
    pub source_search_path: Option<Seq<Seq<char>>>,
    pub boundary_queries_complete: bool,
    pub source_lock_timeout_ms: u64,
    pub source_statement_timeout_ms: u64,
    pub created_at_unix_secs: Option<u64>,
}

impl View for CacheMetadata {
    type V = CacheMetadataView;

    open spec fn view(&self) -> CacheMetadataView {
        CacheMetadataView {
            schemas: self.schemas.deep_view(),
            source_role: self.source_role.deep_view(),
            source_session_role: self.source_session_role.deep_view(),
            source_search_path: self.source_search_path.deep_view(),
            boundary_queries_complete: self.boundary_queries_complete.deep_view(),
            source_lock_timeout_ms: self.source_lock_timeout_ms.deep_view(),
            source_statement_timeout_ms: self.source_statement_timeout_ms.deep_view(),
            created_at_unix_secs: self.created_at_unix_secs.deep_view(),
        }
    }
}

impl DeepView for CacheMetadata {
    type V = CacheMetadataView;

    open spec fn deep_view(&self) -> CacheMetadataView {
        self@
    }
}

impl Dup for CacheMetadata {
    fn dup(&self) -> (r: Self) {
        CacheMetadata {
            schemas: self.schemas.dup(),
            source_role: self.source_role.dup(),
            source_session_role: self.source_session_role.dup(),
            source_search_path: self.source_search_path.dup(),
            boundary_queries_complete: self.boundary_queries_complete.dup(),
            source_lock_timeout_ms: self.source_lock_timeout_ms.dup(),
            source_statement_timeout_ms: self.source_statement_timeout_ms.dup(),
            created_at_unix_secs: self.created_at_unix_secs.dup(),
        }
    }
}

/// A synchronized foreign key.
#[derive(Clone, Debug)]
pub struct ForeignKeyCache {
    pub constraint_name: String,
    pub from_table: ObjectId,
    pub to_table: ObjectId,
    pub from_columns: Vec<String>,
    pub to_columns: Vec<String>,
    pub pk_fk_equality_operators: Vec<String>,
    pub pk_pk_equality_operators: Vec<String>,
    pub fk_fk_equality_operators: Vec<String>,
}

#[verifier::ext_equal]
pub struct ForeignKeyCacheView {
    pub constraint_name: Seq<char>,
    pub from_table: ObjectIdView,
    pub to_table: ObjectIdView,
    pub from_columns: Seq<Seq<char>>,
    pub to_columns: Seq<Seq<char>>,
    pub pk_fk_equality_operators: Seq<Seq<char>>,
    pub pk_pk_equality_operators: Seq<Seq<char>>,
    pub fk_fk_equality_operators: Seq<Seq<char>>,
}

impl View for ForeignKeyCache {
    type V = ForeignKeyCacheView;

    open spec fn view(&self) -> ForeignKeyCacheView {
        ForeignKeyCacheView {
            constraint_name: self.constraint_name.deep_view(),
            from_table: self.from_table.deep_view(),
            to_table: self.to_table.deep_view(),
            from_columns: self.from_columns.deep_view(),
            to_columns: self.to_columns.deep_view(),
            pk_fk_equality_operators: self.pk_fk_equality_operators.deep_view(),
            pk_pk_equality_operators: self.pk_pk_equality_operators.deep_view(),
            fk_fk_equality_operators: self.fk_fk_equality_operators.deep_view(),
        }
    }
}

impl DeepView for ForeignKeyCache {
    type V = ForeignKeyCacheView;

    open spec fn deep_view(&self) -> ForeignKeyCacheView {
        self@
    }
}

impl Dup for ForeignKeyCache {
    fn dup(&self) -> (r: Self) {
        ForeignKeyCache {
            constraint_name: self.constraint_name.dup(),
            from_table: self.from_table.dup(),
            to_table: self.to_table.dup(),
            from_columns: self.from_columns.dup(),
            to_columns: self.to_columns.dup(),
            pk_fk_equality_operators: self.pk_fk_equality_operators.dup(),
            pk_pk_equality_operators: self.pk_pk_equality_operators.dup(),
            fk_fk_equality_operators: self.fk_fk_equality_operators.dup(),
        }
    }
}

/// A synchronized index.
#[derive(Clone, Debug)]
pub struct IndexCache {
    pub index_id: ObjectId,
    pub table_id: ObjectId,
    pub using_method: String,
    pub key_columns: Vec<String>,
    pub included_columns: Vec<String>,
    pub dependency_columns: Vec<String>,
    pub dependency_columns_known: bool,
    pub has_expression_keys: bool,
    pub has_predicate: bool,
    pub is_unique: bool,
    pub is_valid: bool,
    pub is_ready: bool,
    pub is_live: bool,
    pub has_default_sort_order: bool,
    pub has_default_opclasses: bool,
    pub has_default_collations: bool,
}

#[verifier::ext_equal]
pub struct IndexCacheView {
    pub index_id: ObjectIdView,
    pub table_id: ObjectIdView,
    pub using_method: Seq<char>,
    pub key_columns: Seq<Seq<char>>,
    pub included_columns: Seq<Seq<char>>,
    pub dependency_columns: Seq<Seq<char>>,
    pub dependency_columns_known: bool,
    pub has_expression_keys: bool,
    pub has_predicate: bool,
    pub is_unique: bool,
    pub is_valid: bool,
    pub is_ready: bool,
    pub is_live: bool,
    pub has_default_sort_order: bool,
    pub has_default_opclasses: bool,
    pub has_default_collations: bool,
}

impl View for IndexCache {
    type V = IndexCacheView;

    open spec fn view(&self) -> IndexCacheView {
        IndexCacheView {
            index_id: self.index_id.deep_view(),
            table_id: self.table_id.deep_view(),
            using_method: self.using_method.deep_view(),
            key_columns: self.key_columns.deep_view(),
            included_columns: self.included_columns.deep_view(),
            dependency_columns: self.dependency_columns.deep_view(),
            dependency_columns_known: self.dependency_columns_known.deep_view(),
            has_expression_keys: self.has_expression_keys.deep_view(),
            has_predicate: self.has_predicate.deep_view(),
            is_unique: self.is_unique.deep_view(),
            is_valid: self.is_valid.deep_view(),
            is_ready: self.is_ready.deep_view(),
            is_live: self.is_live.deep_view(),
            has_default_sort_order: self.has_default_sort_order.deep_view(),
            has_default_opclasses: self.has_default_opclasses.deep_view(),
            has_default_collations: self.has_default_collations.deep_view(),
        }
    }
}

impl DeepView for IndexCache {
    type V = IndexCacheView;

    open spec fn deep_view(&self) -> IndexCacheView {
        self@
    }
}

impl Dup for IndexCache {
    fn dup(&self) -> (r: Self) {
        IndexCache {
            index_id: self.index_id.dup(),
            table_id: self.table_id.dup(),
            using_method: self.using_method.dup(),
            key_columns: self.key_columns.dup(),
            included_columns: self.included_columns.dup(),
            dependency_columns: self.dependency_columns.dup(),
            dependency_columns_known: self.dependency_columns_known.dup(),
            has_expression_keys: self.has_expression_keys.dup(),
            has_predicate: self.has_predicate.dup(),
            is_unique: self.is_unique.dup(),
            is_valid: self.is_valid.dup(),
            is_ready: self.is_ready.dup(),
            is_live: self.is_live.dup(),
            has_default_sort_order: self.has_default_sort_order.dup(),
            has_default_opclasses: self.has_default_opclasses.dup(),
            has_default_collations: self.has_default_collations.dup(),
        }
    }
}

/// A synchronized view dependency.
#[derive(Clone, Debug)]
pub struct DependencyCache {
    pub dependent: ObjectId,
    pub referenced: ObjectId,
    pub referenced_column: Option<String>,
}

#[verifier::ext_equal]
pub struct DependencyCacheView {
    pub dependent: ObjectIdView,
    pub referenced: ObjectIdView,
    pub referenced_column: Option<Seq<char>>,
}

impl View for DependencyCache {
    type V = DependencyCacheView;

    open spec fn view(&self) -> DependencyCacheView {
        DependencyCacheView {
            dependent: self.dependent.deep_view(),
            referenced: self.referenced.deep_view(),
            referenced_column: self.referenced_column.deep_view(),
        }
    }
}

impl DeepView for DependencyCache {
    type V = DependencyCacheView;

    open spec fn deep_view(&self) -> DependencyCacheView {
        self@
    }
}

impl Dup for DependencyCache {
    fn dup(&self) -> (r: Self) {
        DependencyCache {
            dependent: self.dependent.dup(),
            referenced: self.referenced.dup(),
            referenced_column: self.referenced_column.dup(),
        }
    }
}

/// A synchronized inheritance or partition relationship.
#[derive(Clone, Debug)]
pub struct InheritanceCache {
    pub child: ObjectId,
    pub parent: ObjectId,
    pub is_partition: bool,
}

#[verifier::ext_equal]
pub struct InheritanceCacheView {
    pub child: ObjectIdView,
    pub parent: ObjectIdView,
    pub is_partition: bool,
}

impl View for InheritanceCache {
    type V = InheritanceCacheView;

    open spec fn view(&self) -> InheritanceCacheView {
        InheritanceCacheView {
            child: self.child.deep_view(),
            parent: self.parent.deep_view(),
            is_partition: self.is_partition.deep_view(),
        }
    }
}

impl DeepView for InheritanceCache {
    type V = InheritanceCacheView;

    open spec fn deep_view(&self) -> InheritanceCacheView {
        self@
    }
}

impl Dup for InheritanceCache {
    fn dup(&self) -> (r: Self) {
        InheritanceCache {
            child: self.child.dup(),
            parent: self.parent.dup(),
            is_partition: self.is_partition.dup(),
        }
    }
}

/// A synchronized trigger.
#[derive(Clone, Debug)]
pub struct TriggerCache {
    pub trigger_id: ObjectId,
    pub table_id: ObjectId,
    pub function_id: ObjectId,
    pub enabled_mode: TriggerEnableMode,
}

#[verifier::ext_equal]
pub struct TriggerCacheView {
    pub trigger_id: ObjectIdView,
    pub table_id: ObjectIdView,
    pub function_id: ObjectIdView,
    pub enabled_mode: TriggerEnableMode,
}

impl View for TriggerCache {
    type V = TriggerCacheView;

    open spec fn view(&self) -> TriggerCacheView {
        TriggerCacheView {
            trigger_id: self.trigger_id.deep_view(),
            table_id: self.table_id.deep_view(),
            function_id: self.function_id.deep_view(),
            enabled_mode: self.enabled_mode.deep_view(),
        }
    }
}

impl DeepView for TriggerCache {
    type V = TriggerCacheView;

    open spec fn deep_view(&self) -> TriggerCacheView {
        self@
    }
}

impl Dup for TriggerCache {
    fn dup(&self) -> (r: Self) {
        TriggerCache {
            trigger_id: self.trigger_id.dup(),
            table_id: self.table_id.dup(),
            function_id: self.function_id.dup(),
            enabled_mode: self.enabled_mode.dup(),
        }
    }
}

/// The key columns of a synchronized primary key or unique constraint.
#[derive(Clone, Debug)]
pub struct ConstraintKeyCache {
    pub table_id: ObjectId,
    pub constraint_name: String,
    pub columns: Vec<String>,
    pub is_primary: bool,
}

#[verifier::ext_equal]
pub struct ConstraintKeyCacheView {
    pub table_id: ObjectIdView,
    pub constraint_name: Seq<char>,
    pub columns: Seq<Seq<char>>,
    pub is_primary: bool,
}

impl View for ConstraintKeyCache {
    type V = ConstraintKeyCacheView;

    open spec fn view(&self) -> ConstraintKeyCacheView {
        ConstraintKeyCacheView {
            table_id: self.table_id.deep_view(),
            constraint_name: self.constraint_name.deep_view(),
            columns: self.columns.deep_view(),
            is_primary: self.is_primary.deep_view(),
        }
    }
}

impl DeepView for ConstraintKeyCache {
    type V = ConstraintKeyCacheView;

    open spec fn deep_view(&self) -> ConstraintKeyCacheView {
        self@
    }
}

impl Dup for ConstraintKeyCache {
    fn dup(&self) -> (r: Self) {
        ConstraintKeyCache {
            table_id: self.table_id.dup(),
            constraint_name: self.constraint_name.dup(),
            columns: self.columns.dup(),
            is_primary: self.is_primary.dup(),
        }
    }
}

/// The columns that a synchronized check or exclusion constraint uses.
#[derive(Clone, Debug)]
pub struct ConstraintDependencyCache {
    pub table_id: ObjectId,
    pub constraint_name: String,
    pub columns: Vec<String>,
}

#[verifier::ext_equal]
pub struct ConstraintDependencyCacheView {
    pub table_id: ObjectIdView,
    pub constraint_name: Seq<char>,
    pub columns: Seq<Seq<char>>,
}

impl View for ConstraintDependencyCache {
    type V = ConstraintDependencyCacheView;

    open spec fn view(&self) -> ConstraintDependencyCacheView {
        ConstraintDependencyCacheView {
            table_id: self.table_id.deep_view(),
            constraint_name: self.constraint_name.deep_view(),
            columns: self.columns.deep_view(),
        }
    }
}

impl DeepView for ConstraintDependencyCache {
    type V = ConstraintDependencyCacheView;

    open spec fn deep_view(&self) -> ConstraintDependencyCacheView {
        self@
    }
}

impl Dup for ConstraintDependencyCache {
    fn dup(&self) -> (r: Self) {
        ConstraintDependencyCache {
            table_id: self.table_id.dup(),
            constraint_name: self.constraint_name.dup(),
            columns: self.columns.dup(),
        }
    }
}

/// A synchronized generated column.
#[derive(Clone, Debug)]
pub struct GeneratedColumnDependencyCache {
    pub table_id: ObjectId,
    pub column_name: String,
    pub depends_on_column: String,
}

#[verifier::ext_equal]
pub struct GeneratedColumnDependencyCacheView {
    pub table_id: ObjectIdView,
    pub column_name: Seq<char>,
    pub depends_on_column: Seq<char>,
}

impl View for GeneratedColumnDependencyCache {
    type V = GeneratedColumnDependencyCacheView;

    open spec fn view(&self) -> GeneratedColumnDependencyCacheView {
        GeneratedColumnDependencyCacheView {
            table_id: self.table_id.deep_view(),
            column_name: self.column_name.deep_view(),
            depends_on_column: self.depends_on_column.deep_view(),
        }
    }
}

impl DeepView for GeneratedColumnDependencyCache {
    type V = GeneratedColumnDependencyCacheView;

    open spec fn deep_view(&self) -> GeneratedColumnDependencyCacheView {
        self@
    }
}

impl Dup for GeneratedColumnDependencyCache {
    fn dup(&self) -> (r: Self) {
        GeneratedColumnDependencyCache {
            table_id: self.table_id.dup(),
            column_name: self.column_name.dup(),
            depends_on_column: self.depends_on_column.dup(),
        }
    }
}

/// A column default that uses a sequence.
#[derive(Clone, Debug)]
pub struct DefaultSequenceDependencyCache {
    pub table_id: ObjectId,
    pub sequence_id: ObjectId,
    pub column_name: String,
}

#[verifier::ext_equal]
pub struct DefaultSequenceDependencyCacheView {
    pub table_id: ObjectIdView,
    pub sequence_id: ObjectIdView,
    pub column_name: Seq<char>,
}

impl View for DefaultSequenceDependencyCache {
    type V = DefaultSequenceDependencyCacheView;

    open spec fn view(&self) -> DefaultSequenceDependencyCacheView {
        DefaultSequenceDependencyCacheView {
            table_id: self.table_id.deep_view(),
            sequence_id: self.sequence_id.deep_view(),
            column_name: self.column_name.deep_view(),
        }
    }
}

impl DeepView for DefaultSequenceDependencyCache {
    type V = DefaultSequenceDependencyCacheView;

    open spec fn deep_view(&self) -> DefaultSequenceDependencyCacheView {
        self@
    }
}

impl Dup for DefaultSequenceDependencyCache {
    fn dup(&self) -> (r: Self) {
        DefaultSequenceDependencyCache {
            table_id: self.table_id.dup(),
            sequence_id: self.sequence_id.dup(),
            column_name: self.column_name.dup(),
        }
    }
}

/// The catalog rows that a synchronization brought.
#[derive(Debug)]
pub struct DbCache {
    pub pg_version_num: Option<u32>,
    pub coverage: CatalogCoverage,
    pub metadata: CacheMetadata,
    pub search_path: Vec<String>,
    pub schemas: VecMap<String, SchemaState>,
    pub relations: VecMap<ObjectId, RelationState>,
    pub types: VecMap<ObjectId, TypeState>,
    pub functions: VecMap<ObjectId, FunctionState>,
    pub sequences: VecMap<ObjectId, SequenceState>,
    pub roles: VecMap<ObjectId, RoleState>,
    pub publications: VecMap<String, PublicationState>,
    pub subscriptions: VecMap<String, SubscriptionState>,
    pub foreign_keys: Vec<ForeignKeyCache>,
    pub indexes: Vec<IndexCache>,
    pub dependencies: Vec<DependencyCache>,
    pub inheritances: Vec<InheritanceCache>,
    pub triggers: Vec<TriggerCache>,
    pub constraints: Vec<ConstraintState>,
    pub constraint_keys: Vec<ConstraintKeyCache>,
    pub constraint_dependencies: Vec<ConstraintDependencyCache>,
    pub generated_column_dependencies: Vec<GeneratedColumnDependencyCache>,
    pub default_sequence_dependencies: Vec<DefaultSequenceDependencyCache>,
    pub scoped_external_relation_dependencies: Vec<ObjectId>,
    pub scoped_external_type_dependencies: Vec<ObjectId>,
    pub scoped_external_routine_dependencies: Vec<ObjectId>,
    pub role_membership_grantors: Vec<RoleMembershipGrantor>,
    pub role_membership_grantors_complete: bool,
}

#[verifier::ext_equal]
pub struct DbCacheView {
    pub pg_version_num: Option<u32>,
    pub coverage: CatalogCoverageView,
    pub metadata: CacheMetadataView,
    pub search_path: Seq<Seq<char>>,
    pub schemas: Map<Seq<char>, SchemaStateView>,
    pub relations: Map<ObjectIdView, RelationStateView>,
    pub types: Map<ObjectIdView, TypeStateView>,
    pub functions: Map<ObjectIdView, FunctionStateView>,
    pub sequences: Map<ObjectIdView, SequenceStateView>,
    pub roles: Map<ObjectIdView, RoleStateView>,
    pub publications: Map<Seq<char>, PublicationStateView>,
    pub subscriptions: Map<Seq<char>, SubscriptionStateView>,
    pub foreign_keys: Seq<ForeignKeyCacheView>,
    pub indexes: Seq<IndexCacheView>,
    pub dependencies: Seq<DependencyCacheView>,
    pub inheritances: Seq<InheritanceCacheView>,
    pub triggers: Seq<TriggerCacheView>,
    pub constraints: Seq<ConstraintStateView>,
    pub constraint_keys: Seq<ConstraintKeyCacheView>,
    pub constraint_dependencies: Seq<ConstraintDependencyCacheView>,
    pub generated_column_dependencies: Seq<GeneratedColumnDependencyCacheView>,
    pub default_sequence_dependencies: Seq<DefaultSequenceDependencyCacheView>,
    pub scoped_external_relation_dependencies: Seq<ObjectIdView>,
    pub scoped_external_type_dependencies: Seq<ObjectIdView>,
    pub scoped_external_routine_dependencies: Seq<ObjectIdView>,
    pub role_membership_grantors: Seq<RoleMembershipGrantorView>,
    pub role_membership_grantors_complete: bool,
}

impl View for DbCache {
    type V = DbCacheView;

    open spec fn view(&self) -> DbCacheView {
        DbCacheView {
            pg_version_num: self.pg_version_num.deep_view(),
            coverage: self.coverage.deep_view(),
            metadata: self.metadata.deep_view(),
            search_path: self.search_path.deep_view(),
            schemas: self.schemas.deep_view(),
            relations: self.relations.deep_view(),
            types: self.types.deep_view(),
            functions: self.functions.deep_view(),
            sequences: self.sequences.deep_view(),
            roles: self.roles.deep_view(),
            publications: self.publications.deep_view(),
            subscriptions: self.subscriptions.deep_view(),
            foreign_keys: self.foreign_keys.deep_view(),
            indexes: self.indexes.deep_view(),
            dependencies: self.dependencies.deep_view(),
            inheritances: self.inheritances.deep_view(),
            triggers: self.triggers.deep_view(),
            constraints: self.constraints.deep_view(),
            constraint_keys: self.constraint_keys.deep_view(),
            constraint_dependencies: self.constraint_dependencies.deep_view(),
            generated_column_dependencies: self.generated_column_dependencies.deep_view(),
            default_sequence_dependencies: self.default_sequence_dependencies.deep_view(),
            scoped_external_relation_dependencies: self.scoped_external_relation_dependencies.deep_view(),
            scoped_external_type_dependencies: self.scoped_external_type_dependencies.deep_view(),
            scoped_external_routine_dependencies: self.scoped_external_routine_dependencies.deep_view(),
            role_membership_grantors: self.role_membership_grantors.deep_view(),
            role_membership_grantors_complete: self.role_membership_grantors_complete.deep_view(),
        }
    }
}

impl DeepView for DbCache {
    type V = DbCacheView;

    open spec fn deep_view(&self) -> DbCacheView {
        self@
    }
}

impl Dup for DbCache {
    fn dup(&self) -> (r: Self) {
        DbCache {
            pg_version_num: self.pg_version_num.dup(),
            coverage: self.coverage.dup(),
            metadata: self.metadata.dup(),
            search_path: self.search_path.dup(),
            schemas: self.schemas.dup(),
            relations: self.relations.dup(),
            types: self.types.dup(),
            functions: self.functions.dup(),
            sequences: self.sequences.dup(),
            roles: self.roles.dup(),
            publications: self.publications.dup(),
            subscriptions: self.subscriptions.dup(),
            foreign_keys: self.foreign_keys.dup(),
            indexes: self.indexes.dup(),
            dependencies: self.dependencies.dup(),
            inheritances: self.inheritances.dup(),
            triggers: self.triggers.dup(),
            constraints: self.constraints.dup(),
            constraint_keys: self.constraint_keys.dup(),
            constraint_dependencies: self.constraint_dependencies.dup(),
            generated_column_dependencies: self.generated_column_dependencies.dup(),
            default_sequence_dependencies: self.default_sequence_dependencies.dup(),
            scoped_external_relation_dependencies: self.scoped_external_relation_dependencies.dup(),
            scoped_external_type_dependencies: self.scoped_external_type_dependencies.dup(),
            scoped_external_routine_dependencies: self.scoped_external_routine_dependencies.dup(),
            role_membership_grantors: self.role_membership_grantors.dup(),
            role_membership_grantors_complete: self.role_membership_grantors_complete.dup(),
        }
    }
}


impl ForeignKeyCacheView {
    /// Whether every column pair has its three equality operators.
    pub open spec fn has_complete_operator_evidence(self) -> bool {
        let n = self.from_columns.len();
        n > 0 && self.to_columns.len() == n && self.pk_fk_equality_operators.len() == n && self.pk_pk_equality_operators.len() == n
            && self.fk_fk_equality_operators.len() == n
    }
}

impl ForeignKeyCache {
    pub fn has_complete_operator_evidence(&self) -> (r: bool)
        ensures
            r == self@.has_complete_operator_evidence(),
    {
        let n = self.from_columns.len();
        n > 0 && self.to_columns.len() == n && self.pk_fk_equality_operators.len() == n && self.pk_pk_equality_operators.len() == n
            && self.fk_fk_equality_operators.len() == n
    }
}

/// A catalog without rows, of which everything was loaded.
pub open spec fn empty_cache() -> DbCacheView {
    DbCacheView {
        pg_version_num: None,
        coverage: CatalogCoverageView { families: all_families(), schema_scope: SchemaScopeView::All },
        metadata: CacheMetadataView {
            schemas: None,
            source_role: None,
            source_session_role: None,
            source_search_path: None,
            boundary_queries_complete: false,
            source_lock_timeout_ms: 0,
            source_statement_timeout_ms: 0,
            created_at_unix_secs: None,
        },
        search_path: seq!["public"@],
        schemas: Map::empty(),
        relations: Map::empty(),
        types: Map::empty(),
        functions: Map::empty(),
        sequences: Map::empty(),
        roles: Map::empty(),
        publications: Map::empty(),
        subscriptions: Map::empty(),
        foreign_keys: Seq::empty(),
        indexes: Seq::empty(),
        dependencies: Seq::empty(),
        inheritances: Seq::empty(),
        triggers: Seq::empty(),
        constraints: Seq::empty(),
        constraint_keys: Seq::empty(),
        constraint_dependencies: Seq::empty(),
        generated_column_dependencies: Seq::empty(),
        default_sequence_dependencies: Seq::empty(),
        scoped_external_relation_dependencies: Seq::empty(),
        scoped_external_type_dependencies: Seq::empty(),
        scoped_external_routine_dependencies: Seq::empty(),
        role_membership_grantors: Seq::empty(),
        role_membership_grantors_complete: false,
    }
}

/// What is said of a schema that is stored under a name that is not its own.
pub open spec fn key_mismatch(key: Seq<char>, name: Seq<char>) -> Seq<char> {
    "schema cache key '"@ + key + "' holds schema '"@ + name + "'"@
}

impl DbCacheView {
    /// Whether each schema is stored under its own name.
    pub open spec fn schema_keys_agree(self) -> bool {
        forall|k: Seq<char>| #[trigger] self.schemas.dom().contains(k) ==> self.schemas[k].name == k
    }

    /// Whether a schema is stored under the name of another.
    pub open spec fn is_misfiled(self, key: Seq<char>) -> bool {
        self.schemas.dom().contains(key) && self.schemas[key].name != key
    }

    /// Whether a text says that one of the schemas is misfiled. Which of
    /// several is named is left open.
    pub open spec fn is_fault(self, reason: Seq<char>) -> bool {
        exists|key: Seq<char>| #[trigger] self.is_misfiled(key) && reason == key_mismatch(key, self.schemas[key].name)
    }
}

impl DbCache {
    /// A cache without rows that claims complete coverage and knows nothing
    /// of the session it came from.
    pub fn new() -> (r: Self)
        ensures
            r@ == empty_cache(),
    {
        let mut search_path: Vec<String> = Vec::new();
        search_path.push("public".to_owned());
        assert(search_path.deep_view() =~= seq!["public"@]);
        let r = DbCache {
            pg_version_num: None,
            coverage: CatalogCoverage::from_sync_scope(None),
            metadata: CacheMetadata {
                schemas: None,
                source_role: None,
                source_session_role: None,
                source_search_path: None,
                boundary_queries_complete: false,
                source_lock_timeout_ms: 0,
                source_statement_timeout_ms: 0,
                created_at_unix_secs: None,
            },
            search_path,
            schemas: VecMap::new(),
            relations: VecMap::new(),
            types: VecMap::new(),
            functions: VecMap::new(),
            sequences: VecMap::new(),
            roles: VecMap::new(),
            publications: VecMap::new(),
            subscriptions: VecMap::new(),
            foreign_keys: Vec::new(),
            indexes: Vec::new(),
            dependencies: Vec::new(),
            inheritances: Vec::new(),
            triggers: Vec::new(),
            constraints: Vec::new(),
            constraint_keys: Vec::new(),
            constraint_dependencies: Vec::new(),
            generated_column_dependencies: Vec::new(),
            default_sequence_dependencies: Vec::new(),
            scoped_external_relation_dependencies: Vec::new(),
            scoped_external_type_dependencies: Vec::new(),
            scoped_external_routine_dependencies: Vec::new(),
            role_membership_grantors: Vec::new(),
            role_membership_grantors_complete: false,
        };
        assert(r@ =~= empty_cache());
        r
    }

    pub fn insert_baseline(&mut self, id: ObjectId, relation: RelationState)
        ensures
            final(self)@ == (DbCacheView { relations: old(self)@.relations.insert(id@, relation@), ..old(self)@ }),
    {
        self.relations.insert(id, relation);
    }

    /// The cache itself, where its rows agree with the keys they are stored
    /// under.
    pub fn validated(self) -> (r: Result<Self, String>)
        ensures
            match r {
                Ok(cache) => self@.schema_keys_agree() && cache@ == self@,
                Err(reason) => !self@.schema_keys_agree() && self@.is_fault(reason@),
            },
    {
        let n = self.schemas.len();
        let mut i: usize = 0;
        while i < n
            invariant
                i <= n,
                n == self.schemas.items().len(),
                forall|j: int| 0 <= j < i ==> (#[trigger] self.schemas.items()[j]).1.name == self.schemas.items()[j].0,
                forall|i: int| 0 <= i < self.schemas.items().len() ==> self.schemas@.dom().contains(
                    #[trigger] self.schemas.items()[i].0,
                ) && self.schemas@[self.schemas.items()[i].0] == self.schemas.items()[i].1,
                forall|k: Seq<char>| #[trigger] self.schemas@.dom().contains(k) ==> exists|i: int|
                    0 <= i < self.schemas.items().len() && self.schemas.items()[i].0 == k,
            decreases n - i,
        {
            let key = self.schemas.key_at(i);
            let schema = self.schemas.value_at(i);
            if !(*key == schema.name) {
                proof {
                    let k = self.schemas.items()[i as int].0;
                    assert(self@.schemas.dom().contains(k));
                    assert(self@.is_misfiled(k));
                }
                return Err(join5("schema cache key '", key, "' holds schema '", &schema.name, "'"));
            }
            i = i + 1;
        }
        proof {
            assert forall|k: Seq<char>| #[trigger] self.schemas@.dom().contains(k) implies self.schemas@[k].name == k by {
                let j = choose|j: int| 0 <= j < self.schemas.items().len() && self.schemas.items()[j].0 == k;
                assert(self.schemas.items()[j].1.name == self.schemas.items()[j].0);
            }
        }
        Ok(self)
    }
}

} // verus!
