//! Statements as read, before names are resolved.
use crate::collections::Dup;
use crate::expr_ir::{ExprIr, ExprIrView};
use crate::identifiers::{Ident, QualifiedName, QualifiedNameView};
use vstd::prelude::*;

verus! {

#[derive(Clone, Debug, PartialEq)]
pub enum PersistenceFact {
    Permanent,
    Temporary,
    Unlogged,
}

#[derive(Clone, Debug, PartialEq)]
pub enum PolicyCommand {
    All,
    Select,
    Insert,
    Update,
    Delete,
}

#[derive(Clone, Debug, PartialEq)]
pub enum SearchPathTarget {
    Default,
    Schemas(Vec<String>),
}

#[derive(Clone, Debug, PartialEq)]
pub enum TypeCreationKind {
    Enum { variants: Vec<String> },
    Range,
    Composite,
    Base,
}

#[derive(Clone, Debug, PartialEq)]
pub enum AlterViewAction {
    RenameTo {
        new_name: Ident,
    },
    OwnerTo {
        new_owner: RoleFact,
    },
    SetSchema {
        new_schema: String,
    },
    SetDefault {
        column: String,
        default: Option<ExprIr>,
    },
    DropDefault {
        column: String,
    },
    RenameColumn {
        from: Ident,
        to: Ident,
    },
    SetOptions {
        options: Vec<String>,
    },
    ResetOptions {
        options: Vec<String>,
    },
}

#[derive(Clone, Debug, PartialEq)]
pub enum StatementFact {
    CreateSchema {
        name: QualifiedName,
        if_not_exists: bool,
        authorization: Option<RoleFact>,
    },
    AlterSchema {
        name: QualifiedName,
        new_name: Option<Ident>,
    },
    DropSchema {
        names: Vec<QualifiedName>,
        if_exists: bool,
        cascade: bool,
    },
    CreateTable {
        name: QualifiedName,
        if_not_exists: bool,
        as_select: bool,
        persistence: PersistenceFact,
        columns: Vec<ColumnFact>,
        foreign_keys: Vec<FkFact>,
        table_constraints: Vec<TableConstraintFact>,
        partition_by: Option<String>,
        partition_of: Option<QualifiedName>,
        partition_type: Option<String>,
    },
    CreateView {
        name: QualifiedName,
        or_replace: bool,
        depends_on: Vec<QualifiedName>,
    },
    AlterView {
        name: QualifiedName,
        action: AlterViewAction,
    },
    CreateMaterializedView {
        name: QualifiedName,
        depends_on: Vec<QualifiedName>,
    },
    AlterMaterializedView {
        name: QualifiedName,
        new_name: Option<Ident>,
    },
    RefreshMaterializedView {
        name: QualifiedName,
        concurrently: bool,
    },
    CreateIndex {
        name: QualifiedName,
        relation: QualifiedName,
        if_not_exists: bool,
        concurrently: bool,
        using_method: Option<String>,
        has_predicate: bool,
        unique: bool,
        key_columns: Vec<String>,
        included_columns: Vec<String>,
        has_expression_keys: bool,
        has_default_sort_order: bool,
        has_default_opclasses: bool,
        has_default_collations: bool,
    },
    CreatePolicy {
        name: String,
        table: QualifiedName,
        permissive: bool,
        command: PolicyCommand,
    },
    DropPolicy {
        name: String,
        table: QualifiedName,
        if_exists: bool,
    },
    CreateTrigger {
        name: String,
        table: QualifiedName,
        function: Option<QualifiedName>,
    },
    DropTrigger {
        name: String,
        table: QualifiedName,
        if_exists: bool,
    },
    AlterTable {
        name: QualifiedName,
        actions: Vec<AlterTableActionFact>,
    },
    AlterIndex {
        name: QualifiedName,
        actions: Vec<AlterIndexActionFact>,
    },
    CreateType(CreateTypeFact),
    AlterType(AlterTypeFact),
    CreateDomain {
        name: QualifiedName,
        base_type: String,
    },
    AlterDomain {
        name: QualifiedName,
        action: Option<AlterDomainActionFact>,
    },
    DropDomain {
        names: Vec<QualifiedName>,
        if_exists: bool,
        cascade: bool,
    },
    DropType {
        names: Vec<QualifiedName>,
        if_exists: bool,
        cascade: bool,
    },
    CreateSequence {
        name: QualifiedName,
        if_not_exists: bool,
        owned_by: Option<(QualifiedName, String)>,
    },
    AlterSequence {
        name: QualifiedName,
        owned_by: Option<(QualifiedName, String)>,
    },
    DropSequence {
        names: Vec<QualifiedName>,
        if_exists: bool,
        cascade: bool,
    },
    DropTable {
        name: QualifiedName,
        if_exists: bool,
        cascade: bool,
    },
    DropView {
        name: QualifiedName,
        if_exists: bool,
        cascade: bool,
    },
    DropMaterializedView {
        names: Vec<QualifiedName>,
        if_exists: bool,
        cascade: bool,
    },
    DropIndex {
        names: Vec<QualifiedName>,
        if_exists: bool,
        concurrently: bool,
        cascade: bool,
    },
    SetSearchPath {
        target: SearchPathTarget,
        local: bool,
    },
    BeginTransaction,
    CommitTransaction,
    CommitAndChain,
    RollbackTransaction,
    RollbackAndChain,
    RollbackToSavepoint {
        name: String,
    },
    Savepoint {
        name: String,
    },
    ReleaseSavepoint {
        name: String,
    },
    PrepareTransaction {
        name: String,
    },
    SetTransaction,
    SetConstraints,
    OpaqueBlock,
    Execute,
    Vacuum {
        relation: Option<QualifiedName>,
        is_full: bool,
    },
    CreateFunction(CreateFunctionFact),
    AlterFunction(AlterFunctionFact),
    DropFunction(DropFunctionFact),
    CreateProcedure(CreateProcedureFact),
    AlterProcedure(AlterProcedureFact),
    DropProcedure(DropProcedureFact),
    CreatePublication(CreatePublicationFact),
    AlterPublication(AlterPublicationFact),
    DropPublication(DropPublicationFact),
    CreateSubscription(CreateSubscriptionFact),
    AlterSubscription(AlterSubscriptionFact),
    DropSubscription(DropSubscriptionFact),
    CreateRole(CreateRoleFact),
    AlterRole(AlterRoleFact),
    DropRole(DropRoleFact),
    Grant(GrantFact),
    Revoke(RevokeFact),
    CreateDatabase(CreateDatabaseFact),
    AlterDatabase(AlterDatabaseFact),
    DropDatabase(DropDatabaseFact),
    /// `SET [LOCAL] ROLE { rolename | NONE }` or
    /// `SET [LOCAL] SESSION AUTHORIZATION { rolename | DEFAULT }`.
    /// `role = None` means NONE / DEFAULT (restore the session default).
    /// `local = true` means the change is scoped to the current transaction.
    /// `is_session_auth = true` means SET SESSION AUTHORIZATION (which also
    /// updates the session-level default, unlike plain SET ROLE).
    SetRole {
        role: Option<RoleFact>,
        local: bool,
        is_session_auth: bool,
    },
}

#[derive(Clone, Debug, PartialEq)]
pub enum AlterIndexActionFact {
    RenameTo { new_name: Ident },
}

#[derive(Clone, Debug, PartialEq)]
pub struct CreateTypeFact {
    pub name: QualifiedName,
    pub kind: TypeCreationKind,
}

#[derive(Clone, Debug, PartialEq)]
pub struct AlterTypeFact {
    pub name: QualifiedName,
    pub actions: Vec<AlterTypeActionFact>,
}

#[derive(Clone, Debug, PartialEq)]
pub enum AlterTypeActionFact {
    RenameTo {
        new_name: Ident,
    },
    SetSchema {
        new_schema: String,
    },
    AddValue {
        new_value: String,
        neighbor: Option<String>,
        before: bool,
    },
    RenameValue {
        old_value: String,
        new_value: String,
    },
}

#[derive(Clone, Debug, PartialEq, Default)]
pub enum RoleFact {
    #[default]
    Unknown,
    Named {
        name: String,
        via_legacy_group_syntax: bool,
    },
    CurrentUser,
    CurrentRole,
    SessionUser,
}

#[derive(Clone, Debug, PartialEq)]
pub struct CreateRoleFact {
    pub name: String,
    pub inherits: bool,
    pub can_login: bool,
}

#[derive(Clone, Debug, PartialEq)]
pub struct AlterRoleFact {
    pub name: RoleFact,
    pub inherits: Option<bool>,
}

#[derive(Clone, Debug, PartialEq)]
pub struct DropRoleFact {
    pub names: Vec<String>,
    pub if_exists: bool,
}

#[derive(Clone, Debug, PartialEq)]
pub struct CreateFunctionFact {
    pub name: QualifiedName,
    pub or_replace: bool,
    pub params: Vec<ParamFact>,
    pub return_type: Option<RetTypeFact>,
    pub options: Vec<FuncOptionFact>,
}

#[derive(Clone, Debug, PartialEq)]
pub struct ParamFact {
    pub mode: ParamModeFact,
    pub name: Option<String>,
    pub ty: String,
    pub default: Option<ExprIr>,
}

#[derive(Clone, Debug, PartialEq)]
pub enum ParamModeFact {
    In,
    Out,
    InOut,
    Variadic,
}

#[derive(Clone, Debug, PartialEq)]
pub enum RetTypeFact {
    Table(Vec<ColumnFact>),
    Scalar(String),
}

#[derive(Clone, Debug, PartialEq)]
pub enum FuncOptionFact {
    Language(String),
    Volatility(VolatilityKind),
    Security(SecurityKind),
    Strict(StrictKind),
    Leakproof(bool),
    Parallel(String),
    Cost,
    Rows,
    Reset(String),
    As {
        definition: Option<String>,
        obj_file: Option<String>,
        link_symbol: Option<String>,
    },
    Transform,
    Window,
    Support,
    Unknown,
}

#[derive(Clone, Debug, PartialEq)]
pub enum VolatilityKind {
    Immutable,
    Stable,
    Volatile,
}
#[derive(Clone, Debug, PartialEq)]
pub enum SecurityKind {
    Invoker,
    Definer,
}
#[derive(Clone, Debug, PartialEq)]
pub enum StrictKind {
    Strict,
    CalledOnNull,
    ReturnsNullOnNull,
}

#[derive(Clone, Debug, PartialEq)]
pub struct AlterFunctionFact {
    pub name: QualifiedName,
    pub params: Vec<String>,
    pub action: AlterFunctionAction,
}

#[derive(Clone, Debug, PartialEq)]
pub enum AlterFunctionAction {
    Rename { from: String, to: String },
    OwnerChange(RoleFact),
    SchemaChange { new_schema: String },
    DependsOnExtension { extension: String },
    NoDependsOnExtension { extension: String },
    OptionsChange(Vec<FuncOptionFact>),
}

#[derive(Clone, Debug, PartialEq)]
pub struct DropFunctionFact {
    pub signatures: Vec<FunctionSigFact>,
    pub if_exists: bool,
    pub cascade: bool,
}

#[derive(Clone, Debug, PartialEq)]
pub struct FunctionSigFact {
    pub name: QualifiedName,
    pub params: Vec<String>,
}

#[derive(Clone, Debug, PartialEq)]
pub struct CreateProcedureFact {
    pub name: QualifiedName,
    pub or_replace: bool,
    pub params: Vec<ParamFact>,
    pub options: Vec<FuncOptionFact>,
}

#[derive(Clone, Debug, PartialEq)]
pub struct AlterProcedureFact {
    pub name: QualifiedName,
    pub params: Vec<String>,
    pub action: AlterFunctionAction,
}

#[derive(Clone, Debug, PartialEq)]
pub struct DropProcedureFact {
    pub signatures: Vec<FunctionSigFact>,
    pub if_exists: bool,
    pub cascade: bool,
}

#[derive(Clone, Debug, PartialEq)]
pub struct CreatePublicationFact {
    pub name: String,
    pub scope: PublicationScope,
    pub params: Vec<AttributeFact>,
}

#[derive(Clone, Debug, PartialEq)]
pub struct AlterPublicationFact {
    pub name: String,
}

#[derive(Clone, Debug, PartialEq)]
pub struct DropPublicationFact {
    pub names: Vec<String>,
    pub if_exists: bool,
    pub cascade: bool,
}

#[derive(Clone, Debug, PartialEq)]
pub struct CreateSubscriptionFact {
    pub name: Option<String>,
    pub connection: ConnectionTarget,
    pub publications: Vec<String>,
    pub params: Option<Vec<AttributeFact>>,
}

#[derive(Clone, Debug, PartialEq)]
pub struct AlterSubscriptionFact {
    pub name: String,
}

#[derive(Clone, Debug, PartialEq)]
pub struct DropSubscriptionFact {
    pub name: String,
    pub if_exists: bool,
}

#[derive(Clone, Debug, PartialEq)]
pub struct GrantFact {
    pub privileges: PrivilegeSpec,
    pub target: GrantTarget,
    pub grantees: Vec<RoleFact>,
    pub with_grant_option: bool,
    pub role_options: Vec<RoleMembershipOptionFact>,
    pub granted_by: Option<RoleFact>,
}

#[derive(Clone, Debug, PartialEq)]
pub struct RevokeFact {
    pub grant_option_only: bool,
    pub role_option: Option<RoleMembershipOptionFact>,
    pub privileges: PrivilegeSpec,
    pub target: GrantTarget,
    pub revokees: Vec<RoleFact>,
    pub granted_by: Option<RoleFact>,
    pub cascade: bool,
}

#[derive(Clone, Debug, PartialEq)]
pub enum PrivilegeSpec {
    All,
    List(Vec<PrivilegeFact>),
}

#[derive(Clone, Debug, PartialEq)]
pub enum PrivilegeFact {
    Select,
    Insert,
    Update,
    Delete,
    Truncate,
    References,
    Trigger,
    Maintain,
    Execute,
    Create,
    Temporary,
    AlterSystem,
    All,
    Named(String),
    RoleMembership(String),
    Unknown,
}

#[derive(Clone, Debug, PartialEq)]
pub enum GrantTarget {
    Tables(Vec<QualifiedName>),
    AllTablesInSchema(Vec<String>),
    Roles(Vec<String>),
}

/// An option of a role membership and the value it is given.
#[derive(Clone, Copy, Debug, PartialEq, Eq, Structural)]
pub enum RoleMembershipOptionFact {
    Admin(bool),
    Inherit(bool),
    SetRole(bool),
}

#[derive(Clone, Debug, PartialEq)]
pub struct CreateDatabaseFact {
    pub name: String,
    pub options: Vec<DatabaseOptionFact>,
}

#[derive(Clone, Debug, PartialEq)]
pub enum DatabaseOptionFact {
    Owner(DatabaseOptionValue),
    Template(DatabaseOptionValue),
    Encoding(DatabaseOptionValue),
    Tablespace(DatabaseOptionValue),
    ConnectionLimit(DatabaseOptionValue),
    Named(String, DatabaseOptionValue),
    Unknown(DatabaseOptionValue),
}

#[derive(Clone, Debug, PartialEq)]
pub enum DatabaseOptionValue {
    Default,
    Literal(Option<String>),
}

#[derive(Clone, Debug, PartialEq)]
pub struct AlterDatabaseFact {
    pub name: QualifiedName,
    pub action: AlterDatabaseAction,
}

#[derive(Clone, Debug, PartialEq)]
pub enum AlterDatabaseAction {
    Rename { to: String },
    OwnerChange(RoleFact),
    TablespaceChange { new_tablespace: String },
    SetConfigParam { param: String },
    ResetConfigParam { param: Option<String> },
    RefreshCollationVersion,
    OptionChanges(Vec<DatabaseOptionFact>),
}

#[derive(Clone, Debug, PartialEq)]
pub struct DropDatabaseFact {
    pub name: QualifiedName,
    pub if_exists: bool,
}

#[derive(Clone, Debug, PartialEq)]
pub struct ColumnFact {
    pub name: String,
    pub ty: Option<String>,
    pub not_null: bool,
    pub is_primary_key: bool,
    pub primary_key_constraint_name: Option<String>,
    pub is_unique: bool,
    pub unique_constraint_name: Option<String>,
    pub default: Option<ExprIr>,
    pub generation: ColumnGeneration,
}

/// How a column gets its values.
#[derive(Clone, Copy, Debug, PartialEq, Eq, Structural)]
pub enum ColumnGeneration {
    Ordinary,
    Serial,
    Identity,
}

/// Which timeout a statement sets.
#[derive(Clone, Copy, Debug, PartialEq, Eq, Structural)]
pub enum TimeoutSetting {
    Lock,
    Statement,
}

/// The value that a statement gives to a timeout.
#[derive(Clone, Debug, PartialEq)]
pub enum TimeoutSettingValue {
    Default,
    Milliseconds(u64),
    Current,
    Invalid(String),
}

/// Which settings a `RESET` restores.
#[derive(Clone, Copy, Debug, PartialEq, Eq, Structural)]
pub enum ResetSettingTarget {
    All,
    SearchPath,
    LockTimeout,
    StatementTimeout,
    Other,
}

#[derive(Clone, Debug, PartialEq)]
pub struct FkFact {
    pub constraint_name: Option<String>,
    pub references: QualifiedName,
    pub from_columns: Vec<String>,
    pub to_columns: Vec<String>,
}

#[derive(Clone, Debug, PartialEq)]
pub enum AlterDomainActionFact {
    AddConstraint,
    DropConstraint,
    DropDefault,
    DropNotNull,
    OwnerChange,
    RenameConstraint,
    RenameTo,
    SetDefault,
    SetNotNull,
    SetSchema,
    ValidateConstraint,
}

#[derive(Clone, Debug, PartialEq)]
pub enum AlterTableActionFact {
    AddColumn {
        name: String,
        ty: Option<String>,
        if_not_exists: bool,
        not_null: bool,
        default: Option<ExprIr>,
        generation: ColumnGeneration,
    },
    DropColumn {
        name: String,
        if_exists: bool,
        cascade: bool,
    },
    RenameColumn {
        from: Ident,
        to: Ident,
    },
    RenameTo {
        new_name: Ident,
    },
    AddForeignKey {
        constraint_name: Option<String>,
        references: QualifiedName,
        from_columns: Vec<String>,
        to_columns: Vec<String>,
        not_valid: bool,
    },
    AlterConstraint {
        name: Option<String>,
        deferrable: bool,
    },
    RenameConstraint {
        old_name: String,
        new_name: String,
    },
    DropConstraint {
        name: String,
        if_exists: bool,
        cascade: bool,
    },
    AddCheckConstraint {
        constraint_name: Option<String>,
        columns: Vec<String>,
        columns_complete: bool,
        not_valid: bool,
    },
    AddUniqueConstraint {
        constraint_name: Option<String>,
        columns: Vec<String>,
        using_index: Option<QualifiedName>,
    },
    AddPrimaryKeyConstraint {
        constraint_name: Option<String>,
        columns: Vec<String>,
        using_index: Option<QualifiedName>,
    },
    AddExcludeConstraint {
        constraint_name: Option<String>,
        columns: Vec<String>,
        columns_complete: bool,
    },
    SetNotNull {
        column: String,
    },
    DropNotNull {
        column: String,
    },
    SetType {
        column: String,
        ty: String,
        has_using: bool,
    },
    SetDefault {
        column: String,
        default: Option<ExprIr>,
    },
    SetExpression {
        column: String,
        expr: ExprIr,
    },
    SetOptions {
        column: String,
        attributes: Vec<AttributeFact>,
    },
    Inherit {
        column: String,
        parent: QualifiedName,
    },
    NoInherit {
        column: String,
        parent: QualifiedName,
    },
    ValidateConstraint {
        constraint_name: String,
    },
    DisableTrigger {
        trigger_name: Option<String>,
    },
    EnableTrigger {
        trigger_name: Option<String>,
    },
    AttachPartition {
        child: QualifiedName,
        strategy: Option<String>,
    },
    DetachPartition {
        child: QualifiedName,
    },
    SetStorage {
        column: String,
    },
    SetAccessMethod,
    ClusterOn {
        index: String,
    },
    InheritTable {
        parent: QualifiedName,
    },
    NoInheritTable {
        parent: QualifiedName,
    },
    MergePartitions {
        parent: QualifiedName,
    },
    SplitPartition,
    SetSchema {
        new_schema: String,
    },
    SetTablespace {
        tablespace: String,
    },
    SetLogged,
    SetUnlogged,
    OwnerTo {
        new_owner: RoleFact,
    },
    ReplicaIdentity {
        option: String,
    },
    ForceRls,
    EnableRls,
    DisableRls,
    EnableAlwaysTrigger {
        trigger_name: Option<String>,
    },
    EnableReplicaTrigger {
        trigger_name: Option<String>,
    },
}

/// A named option and its value.
#[derive(Clone, Debug, PartialEq)]
pub struct AttributeFact {
    pub name: String,
    pub value: String,
}

#[verifier::ext_equal]
pub struct AttributeFactView {
    pub name: Seq<char>,
    pub value: Seq<char>,
}

impl View for AttributeFact {
    type V = AttributeFactView;

    open spec fn view(&self) -> AttributeFactView {
        AttributeFactView {
            name: self.name.deep_view(),
            value: self.value.deep_view(),
        }
    }
}

impl DeepView for AttributeFact {
    type V = AttributeFactView;

    open spec fn deep_view(&self) -> AttributeFactView {
        self@
    }
}

impl Dup for AttributeFact {
    fn dup(&self) -> (r: Self) {
        AttributeFact {
            name: self.name.dup(),
            value: self.value.dup(),
        }
    }
}

/// Where a subscription connects to.
#[derive(Clone, Debug, PartialEq)]
pub enum ConnectionTarget {
    Literal(Option<String>),
    Server(Option<String>),
}

#[verifier::ext_equal]
pub enum ConnectionTargetView {
    Literal(Option<Seq<char>>),
    Server(Option<Seq<char>>),
}

impl View for ConnectionTarget {
    type V = ConnectionTargetView;

    open spec fn view(&self) -> ConnectionTargetView {
        match self {
            ConnectionTarget::Literal(a) => ConnectionTargetView::Literal(a.deep_view()),
            ConnectionTarget::Server(a) => ConnectionTargetView::Server(a.deep_view()),
        }
    }
}

impl DeepView for ConnectionTarget {
    type V = ConnectionTargetView;

    open spec fn deep_view(&self) -> ConnectionTargetView {
        self@
    }
}

impl Dup for ConnectionTarget {
    fn dup(&self) -> (r: Self) {
        match self {
            ConnectionTarget::Literal(a) => ConnectionTarget::Literal(a.dup()),
            ConnectionTarget::Server(a) => ConnectionTarget::Server(a.dup()),
        }
    }
}

/// One object of an explicit publication.
#[derive(Clone, Debug, PartialEq)]
pub enum PublicationObjectFact {
    Table {
        name: QualifiedName,
        only: bool,
        include_partitions: bool,
        columns: Option<Vec<String>>,
        row_filter: Option<ExprIr>,
    },
    SchemaTables {
        schema: String,
        row_filter: Option<ExprIr>,
    },
    CurrentSchemaShorthand,
    Unknown,
}

#[verifier::ext_equal]
pub enum PublicationObjectFactView {
    Table {
        name: QualifiedNameView,
        only: bool,
        include_partitions: bool,
        columns: Option<Seq<Seq<char>>>,
        row_filter: Option<ExprIrView>,
    },
    SchemaTables {
        schema: Seq<char>,
        row_filter: Option<ExprIrView>,
    },
    CurrentSchemaShorthand,
    Unknown,
}

impl View for PublicationObjectFact {
    type V = PublicationObjectFactView;

    open spec fn view(&self) -> PublicationObjectFactView {
        match self {
            PublicationObjectFact::Table { name, only, include_partitions, columns, row_filter } => PublicationObjectFactView::Table {
                name: name.deep_view(),
                only: only.deep_view(),
                include_partitions: include_partitions.deep_view(),
                columns: columns.deep_view(),
                row_filter: row_filter.deep_view(),
            },
            PublicationObjectFact::SchemaTables { schema, row_filter } => PublicationObjectFactView::SchemaTables {
                schema: schema.deep_view(),
                row_filter: row_filter.deep_view(),
            },
            PublicationObjectFact::CurrentSchemaShorthand => PublicationObjectFactView::CurrentSchemaShorthand,
            PublicationObjectFact::Unknown => PublicationObjectFactView::Unknown,
        }
    }
}

impl DeepView for PublicationObjectFact {
    type V = PublicationObjectFactView;

    open spec fn deep_view(&self) -> PublicationObjectFactView {
        self@
    }
}

impl Dup for PublicationObjectFact {
    fn dup(&self) -> (r: Self) {
        match self {
            PublicationObjectFact::Table { name, only, include_partitions, columns, row_filter } => PublicationObjectFact::Table {
                name: name.dup(),
                only: only.dup(),
                include_partitions: include_partitions.dup(),
                columns: columns.dup(),
                row_filter: row_filter.dup(),
            },
            PublicationObjectFact::SchemaTables { schema, row_filter } => PublicationObjectFact::SchemaTables {
                schema: schema.dup(),
                row_filter: row_filter.dup(),
            },
            PublicationObjectFact::CurrentSchemaShorthand => PublicationObjectFact::CurrentSchemaShorthand,
            PublicationObjectFact::Unknown => PublicationObjectFact::Unknown,
        }
    }
}

/// What a publication covers.
#[derive(Clone, Debug, PartialEq)]
pub enum PublicationScope {
    AllTables {
        except: Vec<String>,
    },
    Explicit(Vec<PublicationObjectFact>),
}

#[verifier::ext_equal]
pub enum PublicationScopeView {
    AllTables {
        except: Seq<Seq<char>>,
    },
    Explicit(Seq<PublicationObjectFactView>),
}

impl View for PublicationScope {
    type V = PublicationScopeView;

    open spec fn view(&self) -> PublicationScopeView {
        match self {
            PublicationScope::AllTables { except } => PublicationScopeView::AllTables {
                except: except.deep_view(),
            },
            PublicationScope::Explicit(a) => PublicationScopeView::Explicit(a.deep_view()),
        }
    }
}

impl DeepView for PublicationScope {
    type V = PublicationScopeView;

    open spec fn deep_view(&self) -> PublicationScopeView {
        self@
    }
}

impl Dup for PublicationScope {
    fn dup(&self) -> (r: Self) {
        match self {
            PublicationScope::AllTables { except } => PublicationScope::AllTables {
                except: except.dup(),
            },
            PublicationScope::Explicit(a) => PublicationScope::Explicit(a.dup()),
        }
    }
}

/// A constraint written in a table definition.
#[derive(Clone, Debug, PartialEq)]
pub enum TableConstraintFact {
    PrimaryKey {
        constraint_name: Option<String>,
        columns: Vec<String>,
    },
    Unique {
        constraint_name: Option<String>,
        columns: Vec<String>,
    },
    Check {
        constraint_name: Option<String>,
        columns: Vec<String>,
        columns_complete: bool,
    },
    Exclude {
        constraint_name: Option<String>,
        columns: Vec<String>,
        columns_complete: bool,
    },
}

#[verifier::ext_equal]
pub enum TableConstraintFactView {
    PrimaryKey {
        constraint_name: Option<Seq<char>>,
        columns: Seq<Seq<char>>,
    },
    Unique {
        constraint_name: Option<Seq<char>>,
        columns: Seq<Seq<char>>,
    },
    Check {
        constraint_name: Option<Seq<char>>,
        columns: Seq<Seq<char>>,
        columns_complete: bool,
    },
    Exclude {
        constraint_name: Option<Seq<char>>,
        columns: Seq<Seq<char>>,
        columns_complete: bool,
    },
}

impl View for TableConstraintFact {
    type V = TableConstraintFactView;

    open spec fn view(&self) -> TableConstraintFactView {
        match self {
            TableConstraintFact::PrimaryKey { constraint_name, columns } => TableConstraintFactView::PrimaryKey {
                constraint_name: constraint_name.deep_view(),
                columns: columns.deep_view(),
            },
            TableConstraintFact::Unique { constraint_name, columns } => TableConstraintFactView::Unique {
                constraint_name: constraint_name.deep_view(),
                columns: columns.deep_view(),
            },
            TableConstraintFact::Check { constraint_name, columns, columns_complete } => TableConstraintFactView::Check {
                constraint_name: constraint_name.deep_view(),
                columns: columns.deep_view(),
                columns_complete: columns_complete.deep_view(),
            },
            TableConstraintFact::Exclude { constraint_name, columns, columns_complete } => TableConstraintFactView::Exclude {
                constraint_name: constraint_name.deep_view(),
                columns: columns.deep_view(),
                columns_complete: columns_complete.deep_view(),
            },
        }
    }
}

impl DeepView for TableConstraintFact {
    type V = TableConstraintFactView;

    open spec fn deep_view(&self) -> TableConstraintFactView {
        self@
    }
}

impl Dup for TableConstraintFact {
    fn dup(&self) -> (r: Self) {
        match self {
            TableConstraintFact::PrimaryKey { constraint_name, columns } => TableConstraintFact::PrimaryKey {
                constraint_name: constraint_name.dup(),
                columns: columns.dup(),
            },
            TableConstraintFact::Unique { constraint_name, columns } => TableConstraintFact::Unique {
                constraint_name: constraint_name.dup(),
                columns: columns.dup(),
            },
            TableConstraintFact::Check { constraint_name, columns, columns_complete } => TableConstraintFact::Check {
                constraint_name: constraint_name.dup(),
                columns: columns.dup(),
                columns_complete: columns_complete.dup(),
            },
            TableConstraintFact::Exclude { constraint_name, columns, columns_complete } => TableConstraintFact::Exclude {
                constraint_name: constraint_name.dup(),
                columns: columns.dup(),
                columns_complete: columns_complete.dup(),
            },
        }
    }
}

#[verifier::ext_equal]
pub enum RoleFactView {
    Unknown,
    Named {
        name: Seq<char>,
        via_legacy_group_syntax: bool,
    },
    CurrentUser,
    CurrentRole,
    SessionUser,
}

impl View for RoleFact {
    type V = RoleFactView;

    open spec fn view(&self) -> RoleFactView {
        match self {
            RoleFact::Unknown => RoleFactView::Unknown,
            RoleFact::Named { name, via_legacy_group_syntax } => RoleFactView::Named {
                name: name.deep_view(),
                via_legacy_group_syntax: via_legacy_group_syntax.deep_view(),
            },
            RoleFact::CurrentUser => RoleFactView::CurrentUser,
            RoleFact::CurrentRole => RoleFactView::CurrentRole,
            RoleFact::SessionUser => RoleFactView::SessionUser,
        }
    }
}

impl DeepView for RoleFact {
    type V = RoleFactView;

    open spec fn deep_view(&self) -> RoleFactView {
        self@
    }
}

impl Dup for RoleFact {
    fn dup(&self) -> (r: Self) {
        match self {
            RoleFact::Unknown => RoleFact::Unknown,
            RoleFact::Named { name, via_legacy_group_syntax } => RoleFact::Named {
                name: name.dup(),
                via_legacy_group_syntax: via_legacy_group_syntax.dup(),
            },
            RoleFact::CurrentUser => RoleFact::CurrentUser,
            RoleFact::CurrentRole => RoleFact::CurrentRole,
            RoleFact::SessionUser => RoleFact::SessionUser,
        }
    }
}

impl DeepView for PolicyCommand {
    type V = PolicyCommand;

    open spec fn deep_view(&self) -> PolicyCommand {
        *self
    }
}

impl Dup for PolicyCommand {
    fn dup(&self) -> (r: Self) {
        match self {
            PolicyCommand::All => PolicyCommand::All,
            PolicyCommand::Select => PolicyCommand::Select,
            PolicyCommand::Insert => PolicyCommand::Insert,
            PolicyCommand::Update => PolicyCommand::Update,
            PolicyCommand::Delete => PolicyCommand::Delete,
        }
    }
}

#[verifier::ext_equal]
pub enum SearchPathTargetView {
    Default,
    Schemas(Seq<Seq<char>>),
}

impl View for SearchPathTarget {
    type V = SearchPathTargetView;

    open spec fn view(&self) -> SearchPathTargetView {
        match self {
            SearchPathTarget::Default => SearchPathTargetView::Default,
            SearchPathTarget::Schemas(a) => SearchPathTargetView::Schemas(a.deep_view()),
        }
    }
}

impl DeepView for SearchPathTarget {
    type V = SearchPathTargetView;

    open spec fn deep_view(&self) -> SearchPathTargetView {
        self@
    }
}

impl Dup for SearchPathTarget {
    fn dup(&self) -> (r: Self) {
        match self {
            SearchPathTarget::Default => SearchPathTarget::Default,
            SearchPathTarget::Schemas(a) => SearchPathTarget::Schemas(a.dup()),
        }
    }
}

impl DeepView for AlterDomainActionFact {
    type V = AlterDomainActionFact;

    open spec fn deep_view(&self) -> AlterDomainActionFact {
        *self
    }
}

impl Dup for AlterDomainActionFact {
    fn dup(&self) -> (r: Self) {
        match self {
            AlterDomainActionFact::AddConstraint => AlterDomainActionFact::AddConstraint,
            AlterDomainActionFact::DropConstraint => AlterDomainActionFact::DropConstraint,
            AlterDomainActionFact::DropDefault => AlterDomainActionFact::DropDefault,
            AlterDomainActionFact::DropNotNull => AlterDomainActionFact::DropNotNull,
            AlterDomainActionFact::OwnerChange => AlterDomainActionFact::OwnerChange,
            AlterDomainActionFact::RenameConstraint => AlterDomainActionFact::RenameConstraint,
            AlterDomainActionFact::RenameTo => AlterDomainActionFact::RenameTo,
            AlterDomainActionFact::SetDefault => AlterDomainActionFact::SetDefault,
            AlterDomainActionFact::SetNotNull => AlterDomainActionFact::SetNotNull,
            AlterDomainActionFact::SetSchema => AlterDomainActionFact::SetSchema,
            AlterDomainActionFact::ValidateConstraint => AlterDomainActionFact::ValidateConstraint,
        }
    }
}

impl DeepView for ParamModeFact {
    type V = ParamModeFact;

    open spec fn deep_view(&self) -> ParamModeFact {
        *self
    }
}

impl Dup for ParamModeFact {
    fn dup(&self) -> (r: Self) {
        match self {
            ParamModeFact::In => ParamModeFact::In,
            ParamModeFact::Out => ParamModeFact::Out,
            ParamModeFact::InOut => ParamModeFact::InOut,
            ParamModeFact::Variadic => ParamModeFact::Variadic,
        }
    }
}

#[verifier::ext_equal]
pub struct ParamFactView {
    pub mode: ParamModeFact,
    pub name: Option<Seq<char>>,
    pub ty: Seq<char>,
    pub default: Option<ExprIrView>,
}

impl View for ParamFact {
    type V = ParamFactView;

    open spec fn view(&self) -> ParamFactView {
        ParamFactView {
            mode: self.mode.deep_view(),
            name: self.name.deep_view(),
            ty: self.ty.deep_view(),
            default: self.default.deep_view(),
        }
    }
}

impl DeepView for ParamFact {
    type V = ParamFactView;

    open spec fn deep_view(&self) -> ParamFactView {
        self@
    }
}

impl Dup for ParamFact {
    fn dup(&self) -> (r: Self) {
        ParamFact {
            mode: self.mode.dup(),
            name: self.name.dup(),
            ty: self.ty.dup(),
            default: self.default.dup(),
        }
    }
}

impl DeepView for ColumnGeneration {
    type V = ColumnGeneration;

    open spec fn deep_view(&self) -> ColumnGeneration {
        *self
    }
}

impl Dup for ColumnGeneration {
    fn dup(&self) -> (r: Self) {
        *self
    }
}

#[verifier::ext_equal]
pub struct ColumnFactView {
    pub name: Seq<char>,
    pub ty: Option<Seq<char>>,
    pub not_null: bool,
    pub is_primary_key: bool,
    pub primary_key_constraint_name: Option<Seq<char>>,
    pub is_unique: bool,
    pub unique_constraint_name: Option<Seq<char>>,
    pub default: Option<ExprIrView>,
    pub generation: ColumnGeneration,
}

impl View for ColumnFact {
    type V = ColumnFactView;

    open spec fn view(&self) -> ColumnFactView {
        ColumnFactView {
            name: self.name.deep_view(),
            ty: self.ty.deep_view(),
            not_null: self.not_null.deep_view(),
            is_primary_key: self.is_primary_key.deep_view(),
            primary_key_constraint_name: self.primary_key_constraint_name.deep_view(),
            is_unique: self.is_unique.deep_view(),
            unique_constraint_name: self.unique_constraint_name.deep_view(),
            default: self.default.deep_view(),
            generation: self.generation.deep_view(),
        }
    }
}

impl DeepView for ColumnFact {
    type V = ColumnFactView;

    open spec fn deep_view(&self) -> ColumnFactView {
        self@
    }
}

impl Dup for ColumnFact {
    fn dup(&self) -> (r: Self) {
        ColumnFact {
            name: self.name.dup(),
            ty: self.ty.dup(),
            not_null: self.not_null.dup(),
            is_primary_key: self.is_primary_key.dup(),
            primary_key_constraint_name: self.primary_key_constraint_name.dup(),
            is_unique: self.is_unique.dup(),
            unique_constraint_name: self.unique_constraint_name.dup(),
            default: self.default.dup(),
            generation: self.generation.dup(),
        }
    }
}

#[verifier::ext_equal]
pub enum RetTypeFactView {
    Table(Seq<ColumnFactView>),
    Scalar(Seq<char>),
}

impl View for RetTypeFact {
    type V = RetTypeFactView;

    open spec fn view(&self) -> RetTypeFactView {
        match self {
            RetTypeFact::Table(a) => RetTypeFactView::Table(a.deep_view()),
            RetTypeFact::Scalar(a) => RetTypeFactView::Scalar(a.deep_view()),
        }
    }
}

impl DeepView for RetTypeFact {
    type V = RetTypeFactView;

    open spec fn deep_view(&self) -> RetTypeFactView {
        self@
    }
}

impl Dup for RetTypeFact {
    fn dup(&self) -> (r: Self) {
        match self {
            RetTypeFact::Table(a) => RetTypeFact::Table(a.dup()),
            RetTypeFact::Scalar(a) => RetTypeFact::Scalar(a.dup()),
        }
    }
}

impl DeepView for VolatilityKind {
    type V = VolatilityKind;

    open spec fn deep_view(&self) -> VolatilityKind {
        *self
    }
}

impl Dup for VolatilityKind {
    fn dup(&self) -> (r: Self) {
        match self {
            VolatilityKind::Immutable => VolatilityKind::Immutable,
            VolatilityKind::Stable => VolatilityKind::Stable,
            VolatilityKind::Volatile => VolatilityKind::Volatile,
        }
    }
}

impl DeepView for SecurityKind {
    type V = SecurityKind;

    open spec fn deep_view(&self) -> SecurityKind {
        *self
    }
}

impl Dup for SecurityKind {
    fn dup(&self) -> (r: Self) {
        match self {
            SecurityKind::Invoker => SecurityKind::Invoker,
            SecurityKind::Definer => SecurityKind::Definer,
        }
    }
}

impl DeepView for StrictKind {
    type V = StrictKind;

    open spec fn deep_view(&self) -> StrictKind {
        *self
    }
}

impl Dup for StrictKind {
    fn dup(&self) -> (r: Self) {
        match self {
            StrictKind::Strict => StrictKind::Strict,
            StrictKind::CalledOnNull => StrictKind::CalledOnNull,
            StrictKind::ReturnsNullOnNull => StrictKind::ReturnsNullOnNull,
        }
    }
}

#[verifier::ext_equal]
pub enum FuncOptionFactView {
    Language(Seq<char>),
    Volatility(VolatilityKind),
    Security(SecurityKind),
    Strict(StrictKind),
    Leakproof(bool),
    Parallel(Seq<char>),
    Cost,
    Rows,
    Reset(Seq<char>),
    As {
        definition: Option<Seq<char>>,
        obj_file: Option<Seq<char>>,
        link_symbol: Option<Seq<char>>,
    },
    Transform,
    Window,
    Support,
    Unknown,
}

impl View for FuncOptionFact {
    type V = FuncOptionFactView;

    open spec fn view(&self) -> FuncOptionFactView {
        match self {
            FuncOptionFact::Language(a) => FuncOptionFactView::Language(a.deep_view()),
            FuncOptionFact::Volatility(a) => FuncOptionFactView::Volatility(a.deep_view()),
            FuncOptionFact::Security(a) => FuncOptionFactView::Security(a.deep_view()),
            FuncOptionFact::Strict(a) => FuncOptionFactView::Strict(a.deep_view()),
            FuncOptionFact::Leakproof(a) => FuncOptionFactView::Leakproof(a.deep_view()),
            FuncOptionFact::Parallel(a) => FuncOptionFactView::Parallel(a.deep_view()),
            FuncOptionFact::Cost => FuncOptionFactView::Cost,
            FuncOptionFact::Rows => FuncOptionFactView::Rows,
            FuncOptionFact::Reset(a) => FuncOptionFactView::Reset(a.deep_view()),
            FuncOptionFact::As { definition, obj_file, link_symbol } => FuncOptionFactView::As {
                definition: definition.deep_view(),
                obj_file: obj_file.deep_view(),
                link_symbol: link_symbol.deep_view(),
            },
            FuncOptionFact::Transform => FuncOptionFactView::Transform,
            FuncOptionFact::Window => FuncOptionFactView::Window,
            FuncOptionFact::Support => FuncOptionFactView::Support,
            FuncOptionFact::Unknown => FuncOptionFactView::Unknown,
        }
    }
}

impl DeepView for FuncOptionFact {
    type V = FuncOptionFactView;

    open spec fn deep_view(&self) -> FuncOptionFactView {
        self@
    }
}

impl Dup for FuncOptionFact {
    fn dup(&self) -> (r: Self) {
        match self {
            FuncOptionFact::Language(a) => FuncOptionFact::Language(a.dup()),
            FuncOptionFact::Volatility(a) => FuncOptionFact::Volatility(a.dup()),
            FuncOptionFact::Security(a) => FuncOptionFact::Security(a.dup()),
            FuncOptionFact::Strict(a) => FuncOptionFact::Strict(a.dup()),
            FuncOptionFact::Leakproof(a) => FuncOptionFact::Leakproof(a.dup()),
            FuncOptionFact::Parallel(a) => FuncOptionFact::Parallel(a.dup()),
            FuncOptionFact::Cost => FuncOptionFact::Cost,
            FuncOptionFact::Rows => FuncOptionFact::Rows,
            FuncOptionFact::Reset(a) => FuncOptionFact::Reset(a.dup()),
            FuncOptionFact::As { definition, obj_file, link_symbol } => FuncOptionFact::As {
                definition: definition.dup(),
                obj_file: obj_file.dup(),
                link_symbol: link_symbol.dup(),
            },
            FuncOptionFact::Transform => FuncOptionFact::Transform,
            FuncOptionFact::Window => FuncOptionFact::Window,
            FuncOptionFact::Support => FuncOptionFact::Support,
            FuncOptionFact::Unknown => FuncOptionFact::Unknown,
        }
    }
}

#[verifier::ext_equal]
pub enum AlterFunctionActionView {
    Rename {
        from: Seq<char>,
        to: Seq<char>,
    },
    OwnerChange(RoleFactView),
    SchemaChange {
        new_schema: Seq<char>,
    },
    DependsOnExtension {
        extension: Seq<char>,
    },
    NoDependsOnExtension {
        extension: Seq<char>,
    },
    OptionsChange(Seq<FuncOptionFactView>),
}

impl View for AlterFunctionAction {
    type V = AlterFunctionActionView;

    open spec fn view(&self) -> AlterFunctionActionView {
        match self {
            AlterFunctionAction::Rename { from, to } => AlterFunctionActionView::Rename {
                from: from.deep_view(),
                to: to.deep_view(),
            },
            AlterFunctionAction::OwnerChange(a) => AlterFunctionActionView::OwnerChange(a.deep_view()),
            AlterFunctionAction::SchemaChange { new_schema } => AlterFunctionActionView::SchemaChange {
                new_schema: new_schema.deep_view(),
            },
            AlterFunctionAction::DependsOnExtension { extension } => AlterFunctionActionView::DependsOnExtension {
                extension: extension.deep_view(),
            },
            AlterFunctionAction::NoDependsOnExtension { extension } => AlterFunctionActionView::NoDependsOnExtension {
                extension: extension.deep_view(),
            },
            AlterFunctionAction::OptionsChange(a) => AlterFunctionActionView::OptionsChange(a.deep_view()),
        }
    }
}

impl DeepView for AlterFunctionAction {
    type V = AlterFunctionActionView;

    open spec fn deep_view(&self) -> AlterFunctionActionView {
        self@
    }
}

impl Dup for AlterFunctionAction {
    fn dup(&self) -> (r: Self) {
        match self {
            AlterFunctionAction::Rename { from, to } => AlterFunctionAction::Rename {
                from: from.dup(),
                to: to.dup(),
            },
            AlterFunctionAction::OwnerChange(a) => AlterFunctionAction::OwnerChange(a.dup()),
            AlterFunctionAction::SchemaChange { new_schema } => AlterFunctionAction::SchemaChange {
                new_schema: new_schema.dup(),
            },
            AlterFunctionAction::DependsOnExtension { extension } => AlterFunctionAction::DependsOnExtension {
                extension: extension.dup(),
            },
            AlterFunctionAction::NoDependsOnExtension { extension } => AlterFunctionAction::NoDependsOnExtension {
                extension: extension.dup(),
            },
            AlterFunctionAction::OptionsChange(a) => AlterFunctionAction::OptionsChange(a.dup()),
        }
    }
}

#[verifier::ext_equal]
pub struct FunctionSigFactView {
    pub name: QualifiedNameView,
    pub params: Seq<Seq<char>>,
}

impl View for FunctionSigFact {
    type V = FunctionSigFactView;

    open spec fn view(&self) -> FunctionSigFactView {
        FunctionSigFactView {
            name: self.name.deep_view(),
            params: self.params.deep_view(),
        }
    }
}

impl DeepView for FunctionSigFact {
    type V = FunctionSigFactView;

    open spec fn deep_view(&self) -> FunctionSigFactView {
        self@
    }
}

impl Dup for FunctionSigFact {
    fn dup(&self) -> (r: Self) {
        FunctionSigFact {
            name: self.name.dup(),
            params: self.params.dup(),
        }
    }
}

#[verifier::ext_equal]
pub enum PrivilegeFactView {
    Select,
    Insert,
    Update,
    Delete,
    Truncate,
    References,
    Trigger,
    Maintain,
    Execute,
    Create,
    Temporary,
    AlterSystem,
    All,
    Named(Seq<char>),
    RoleMembership(Seq<char>),
    Unknown,
}

impl View for PrivilegeFact {
    type V = PrivilegeFactView;

    open spec fn view(&self) -> PrivilegeFactView {
        match self {
            PrivilegeFact::Select => PrivilegeFactView::Select,
            PrivilegeFact::Insert => PrivilegeFactView::Insert,
            PrivilegeFact::Update => PrivilegeFactView::Update,
            PrivilegeFact::Delete => PrivilegeFactView::Delete,
            PrivilegeFact::Truncate => PrivilegeFactView::Truncate,
            PrivilegeFact::References => PrivilegeFactView::References,
            PrivilegeFact::Trigger => PrivilegeFactView::Trigger,
            PrivilegeFact::Maintain => PrivilegeFactView::Maintain,
            PrivilegeFact::Execute => PrivilegeFactView::Execute,
            PrivilegeFact::Create => PrivilegeFactView::Create,
            PrivilegeFact::Temporary => PrivilegeFactView::Temporary,
            PrivilegeFact::AlterSystem => PrivilegeFactView::AlterSystem,
            PrivilegeFact::All => PrivilegeFactView::All,
            PrivilegeFact::Named(a) => PrivilegeFactView::Named(a.deep_view()),
            PrivilegeFact::RoleMembership(a) => PrivilegeFactView::RoleMembership(a.deep_view()),
            PrivilegeFact::Unknown => PrivilegeFactView::Unknown,
        }
    }
}

impl DeepView for PrivilegeFact {
    type V = PrivilegeFactView;

    open spec fn deep_view(&self) -> PrivilegeFactView {
        self@
    }
}

impl Dup for PrivilegeFact {
    fn dup(&self) -> (r: Self) {
        match self {
            PrivilegeFact::Select => PrivilegeFact::Select,
            PrivilegeFact::Insert => PrivilegeFact::Insert,
            PrivilegeFact::Update => PrivilegeFact::Update,
            PrivilegeFact::Delete => PrivilegeFact::Delete,
            PrivilegeFact::Truncate => PrivilegeFact::Truncate,
            PrivilegeFact::References => PrivilegeFact::References,
            PrivilegeFact::Trigger => PrivilegeFact::Trigger,
            PrivilegeFact::Maintain => PrivilegeFact::Maintain,
            PrivilegeFact::Execute => PrivilegeFact::Execute,
            PrivilegeFact::Create => PrivilegeFact::Create,
            PrivilegeFact::Temporary => PrivilegeFact::Temporary,
            PrivilegeFact::AlterSystem => PrivilegeFact::AlterSystem,
            PrivilegeFact::All => PrivilegeFact::All,
            PrivilegeFact::Named(a) => PrivilegeFact::Named(a.dup()),
            PrivilegeFact::RoleMembership(a) => PrivilegeFact::RoleMembership(a.dup()),
            PrivilegeFact::Unknown => PrivilegeFact::Unknown,
        }
    }
}

#[verifier::ext_equal]
pub enum PrivilegeSpecView {
    All,
    List(Seq<PrivilegeFactView>),
}

impl View for PrivilegeSpec {
    type V = PrivilegeSpecView;

    open spec fn view(&self) -> PrivilegeSpecView {
        match self {
            PrivilegeSpec::All => PrivilegeSpecView::All,
            PrivilegeSpec::List(a) => PrivilegeSpecView::List(a.deep_view()),
        }
    }
}

impl DeepView for PrivilegeSpec {
    type V = PrivilegeSpecView;

    open spec fn deep_view(&self) -> PrivilegeSpecView {
        self@
    }
}

impl Dup for PrivilegeSpec {
    fn dup(&self) -> (r: Self) {
        match self {
            PrivilegeSpec::All => PrivilegeSpec::All,
            PrivilegeSpec::List(a) => PrivilegeSpec::List(a.dup()),
        }
    }
}

#[verifier::ext_equal]
pub enum DatabaseOptionValueView {
    Default,
    Literal(Option<Seq<char>>),
}

impl View for DatabaseOptionValue {
    type V = DatabaseOptionValueView;

    open spec fn view(&self) -> DatabaseOptionValueView {
        match self {
            DatabaseOptionValue::Default => DatabaseOptionValueView::Default,
            DatabaseOptionValue::Literal(a) => DatabaseOptionValueView::Literal(a.deep_view()),
        }
    }
}

impl DeepView for DatabaseOptionValue {
    type V = DatabaseOptionValueView;

    open spec fn deep_view(&self) -> DatabaseOptionValueView {
        self@
    }
}

impl Dup for DatabaseOptionValue {
    fn dup(&self) -> (r: Self) {
        match self {
            DatabaseOptionValue::Default => DatabaseOptionValue::Default,
            DatabaseOptionValue::Literal(a) => DatabaseOptionValue::Literal(a.dup()),
        }
    }
}

#[verifier::ext_equal]
pub enum DatabaseOptionFactView {
    Owner(DatabaseOptionValueView),
    Template(DatabaseOptionValueView),
    Encoding(DatabaseOptionValueView),
    Tablespace(DatabaseOptionValueView),
    ConnectionLimit(DatabaseOptionValueView),
    Named(Seq<char>, DatabaseOptionValueView),
    Unknown(DatabaseOptionValueView),
}

impl View for DatabaseOptionFact {
    type V = DatabaseOptionFactView;

    open spec fn view(&self) -> DatabaseOptionFactView {
        match self {
            DatabaseOptionFact::Owner(a) => DatabaseOptionFactView::Owner(a.deep_view()),
            DatabaseOptionFact::Template(a) => DatabaseOptionFactView::Template(a.deep_view()),
            DatabaseOptionFact::Encoding(a) => DatabaseOptionFactView::Encoding(a.deep_view()),
            DatabaseOptionFact::Tablespace(a) => DatabaseOptionFactView::Tablespace(a.deep_view()),
            DatabaseOptionFact::ConnectionLimit(a) => DatabaseOptionFactView::ConnectionLimit(a.deep_view()),
            DatabaseOptionFact::Named(a, b) => DatabaseOptionFactView::Named(a.deep_view(), b.deep_view()),
            DatabaseOptionFact::Unknown(a) => DatabaseOptionFactView::Unknown(a.deep_view()),
        }
    }
}

impl DeepView for DatabaseOptionFact {
    type V = DatabaseOptionFactView;

    open spec fn deep_view(&self) -> DatabaseOptionFactView {
        self@
    }
}

impl Dup for DatabaseOptionFact {
    fn dup(&self) -> (r: Self) {
        match self {
            DatabaseOptionFact::Owner(a) => DatabaseOptionFact::Owner(a.dup()),
            DatabaseOptionFact::Template(a) => DatabaseOptionFact::Template(a.dup()),
            DatabaseOptionFact::Encoding(a) => DatabaseOptionFact::Encoding(a.dup()),
            DatabaseOptionFact::Tablespace(a) => DatabaseOptionFact::Tablespace(a.dup()),
            DatabaseOptionFact::ConnectionLimit(a) => DatabaseOptionFact::ConnectionLimit(a.dup()),
            DatabaseOptionFact::Named(a, b) => DatabaseOptionFact::Named(a.dup(), b.dup()),
            DatabaseOptionFact::Unknown(a) => DatabaseOptionFact::Unknown(a.dup()),
        }
    }
}

#[verifier::ext_equal]
pub enum AlterDatabaseActionView {
    Rename {
        to: Seq<char>,
    },
    OwnerChange(RoleFactView),
    TablespaceChange {
        new_tablespace: Seq<char>,
    },
    SetConfigParam {
        param: Seq<char>,
    },
    ResetConfigParam {
        param: Option<Seq<char>>,
    },
    RefreshCollationVersion,
    OptionChanges(Seq<DatabaseOptionFactView>),
}

impl View for AlterDatabaseAction {
    type V = AlterDatabaseActionView;

    open spec fn view(&self) -> AlterDatabaseActionView {
        match self {
            AlterDatabaseAction::Rename { to } => AlterDatabaseActionView::Rename {
                to: to.deep_view(),
            },
            AlterDatabaseAction::OwnerChange(a) => AlterDatabaseActionView::OwnerChange(a.deep_view()),
            AlterDatabaseAction::TablespaceChange { new_tablespace } => AlterDatabaseActionView::TablespaceChange {
                new_tablespace: new_tablespace.deep_view(),
            },
            AlterDatabaseAction::SetConfigParam { param } => AlterDatabaseActionView::SetConfigParam {
                param: param.deep_view(),
            },
            AlterDatabaseAction::ResetConfigParam { param } => AlterDatabaseActionView::ResetConfigParam {
                param: param.deep_view(),
            },
            AlterDatabaseAction::RefreshCollationVersion => AlterDatabaseActionView::RefreshCollationVersion,
            AlterDatabaseAction::OptionChanges(a) => AlterDatabaseActionView::OptionChanges(a.deep_view()),
        }
    }
}

impl DeepView for AlterDatabaseAction {
    type V = AlterDatabaseActionView;

    open spec fn deep_view(&self) -> AlterDatabaseActionView {
        self@
    }
}

impl Dup for AlterDatabaseAction {
    fn dup(&self) -> (r: Self) {
        match self {
            AlterDatabaseAction::Rename { to } => AlterDatabaseAction::Rename {
                to: to.dup(),
            },
            AlterDatabaseAction::OwnerChange(a) => AlterDatabaseAction::OwnerChange(a.dup()),
            AlterDatabaseAction::TablespaceChange { new_tablespace } => AlterDatabaseAction::TablespaceChange {
                new_tablespace: new_tablespace.dup(),
            },
            AlterDatabaseAction::SetConfigParam { param } => AlterDatabaseAction::SetConfigParam {
                param: param.dup(),
            },
            AlterDatabaseAction::ResetConfigParam { param } => AlterDatabaseAction::ResetConfigParam {
                param: param.dup(),
            },
            AlterDatabaseAction::RefreshCollationVersion => AlterDatabaseAction::RefreshCollationVersion,
            AlterDatabaseAction::OptionChanges(a) => AlterDatabaseAction::OptionChanges(a.dup()),
        }
    }
}

impl DeepView for ResetSettingTarget {
    type V = ResetSettingTarget;

    open spec fn deep_view(&self) -> ResetSettingTarget {
        *self
    }
}

impl Dup for ResetSettingTarget {
    fn dup(&self) -> (r: Self) {
        *self
    }
}

impl DeepView for TimeoutSetting {
    type V = TimeoutSetting;

    open spec fn deep_view(&self) -> TimeoutSetting {
        *self
    }
}

impl Dup for TimeoutSetting {
    fn dup(&self) -> (r: Self) {
        *self
    }
}

#[verifier::ext_equal]
pub enum TimeoutSettingValueView {
    Default,
    Milliseconds(u64),
    Current,
    Invalid(Seq<char>),
}

impl View for TimeoutSettingValue {
    type V = TimeoutSettingValueView;

    open spec fn view(&self) -> TimeoutSettingValueView {
        match self {
            TimeoutSettingValue::Default => TimeoutSettingValueView::Default,
            TimeoutSettingValue::Milliseconds(a) => TimeoutSettingValueView::Milliseconds(a.deep_view()),
            TimeoutSettingValue::Current => TimeoutSettingValueView::Current,
            TimeoutSettingValue::Invalid(a) => TimeoutSettingValueView::Invalid(a.deep_view()),
        }
    }
}

impl DeepView for TimeoutSettingValue {
    type V = TimeoutSettingValueView;

    open spec fn deep_view(&self) -> TimeoutSettingValueView {
        self@
    }
}

impl Dup for TimeoutSettingValue {
    fn dup(&self) -> (r: Self) {
        match self {
            TimeoutSettingValue::Default => TimeoutSettingValue::Default,
            TimeoutSettingValue::Milliseconds(a) => TimeoutSettingValue::Milliseconds(a.dup()),
            TimeoutSettingValue::Current => TimeoutSettingValue::Current,
            TimeoutSettingValue::Invalid(a) => TimeoutSettingValue::Invalid(a.dup()),
        }
    }
}

#[verifier::ext_equal]
pub enum RoleMembershipOptionFactView {
    Admin(bool),
    Inherit(bool),
    SetRole(bool),
}

impl View for RoleMembershipOptionFact {
    type V = RoleMembershipOptionFactView;

    open spec fn view(&self) -> RoleMembershipOptionFactView {
        match self {
            RoleMembershipOptionFact::Admin(a) => RoleMembershipOptionFactView::Admin(a.deep_view()),
            RoleMembershipOptionFact::Inherit(a) => RoleMembershipOptionFactView::Inherit(a.deep_view()),
            RoleMembershipOptionFact::SetRole(a) => RoleMembershipOptionFactView::SetRole(a.deep_view()),
        }
    }
}

impl DeepView for RoleMembershipOptionFact {
    type V = RoleMembershipOptionFactView;

    open spec fn deep_view(&self) -> RoleMembershipOptionFactView {
        self@
    }
}

impl Dup for RoleMembershipOptionFact {
    fn dup(&self) -> (r: Self) {
        match self {
            RoleMembershipOptionFact::Admin(a) => RoleMembershipOptionFact::Admin(a.dup()),
            RoleMembershipOptionFact::Inherit(a) => RoleMembershipOptionFact::Inherit(a.dup()),
            RoleMembershipOptionFact::SetRole(a) => RoleMembershipOptionFact::SetRole(a.dup()),
        }
    }
}

} // verus!
