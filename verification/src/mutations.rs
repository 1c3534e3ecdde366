//! State transitions that resolved statements ask for.
use crate::expr_ir::{ExprIr, ExprIrView};
use crate::facts::{
    AlterDatabaseAction, AlterDatabaseActionView, AlterDomainActionFact, AlterFunctionAction, AlterFunctionActionView, AttributeFact, AttributeFactView,
    ColumnGeneration, ConnectionTarget, ConnectionTargetView, DatabaseOptionFact, DatabaseOptionFactView, FuncOptionFact, FuncOptionFactView, FunctionSigFact,
    FunctionSigFactView, ParamFact, ParamFactView, PolicyCommand, PrivilegeSpec, PrivilegeSpecView, PublicationScope, PublicationScopeView,
    ResetSettingTarget, RetTypeFact, RetTypeFactView, RoleFact, RoleFactView, RoleMembershipOptionFact, RoleMembershipOptionFactView, SearchPathTarget,
    SearchPathTargetView, TableConstraintFact, TableConstraintFactView, TimeoutSetting, TimeoutSettingValue, TimeoutSettingValueView,
};
use crate::identifiers::{ObjectId, ObjectIdView};
use crate::model::types::{TypeKind, TypeKindView};
use vstd::prelude::*;

verus! {

#[derive(Clone, Debug, PartialEq)]
pub enum PersistenceMutation {
    Permanent,
    Temporary,
    Unlogged,
}

#[derive(Clone, Debug, PartialEq)]
pub enum Mutation {
    CreateSchema(CreateSchemaMutation),
    AlterSchema(AlterSchemaMutation),
    DropSchema(DropSchemaMutation),
    CreateTable(CreateTable),
    CreateView(CreateView),
    CreateMaterializedView(CreateMaterializedView),
    RefreshMaterializedView(RefreshMaterializedViewMutation),
    CreateIndex(CreateIndex),
    CreatePolicy(CreatePolicyMutation),
    DropPolicy(DropPolicyMutation),
    CreateTrigger(CreateTriggerMutation),
    DropTrigger(DropTriggerMutation),
    RenameTrigger(RenameTriggerMutation),
    AlterTable(AlterTable),
    CreateType(CreateTypeMutation),
    AlterType(AlterTypeMutation),
    RenameType(Rename),
    CreateDomain(CreateDomainMutation),
    AlterDomain(AlterDomainMutation),
    DropDomain(DropDomainMutation),
    DropType(DropTypeMutation),
    CreateSequence(CreateSequenceMutation),
    AlterSequence(AlterSequenceMutation),
    DropSequence(DropSequenceMutation),
    Rename(Rename),
    DropTable(DropTable),
    DropView(DropViewMutation),
    DropMaterializedView(DropMaterializedViewMutation),
    DropIndex(DropIndex),
    ChangeRelationOwner {
        id: ObjectId,
        new_owner: RoleFact,
    },
    SearchPath(SearchPathChange),
    TimeoutSetting(TimeoutSettingChange),
    ResetSettings(ResetSettingTarget),
    /// Statement-scoped no-op evaluated after real mutations so timeout
    /// rules do not report on statements PostgreSQL would not execute.
    CheckTimeouts,
    BeginTransaction,
    CommitTransaction,
    CommitAndChain,
    RollbackTransaction,
    RollbackAndChain,
    RollbackToSavepoint(RollbackToSavepointMutation),
    Savepoint(SavepointMutation),
    ReleaseSavepoint(ReleaseSavepointMutation),
    CreateFunction(CreateFunctionMutation),
    AlterFunction(AlterFunctionMutation),
    DropFunction(DropFunctionMutation),
    CreateProcedure(CreateProcedureMutation),
    AlterProcedure(AlterProcedureMutation),
    DropProcedure(DropProcedureMutation),
    CreateAggregate(CreateAggregateMutation),
    AlterAggregate(AlterAggregateMutation),
    DropAggregate(DropAggregateMutation),
    CreatePublication(CreatePublicationMutation),
    AlterPublication(AlterPublicationMutation),
    DropPublication(DropPublicationMutation),
    CreateSubscription(CreateSubscriptionMutation),
    AlterSubscription(AlterSubscriptionMutation),
    DropSubscription(DropSubscriptionMutation),
    CreateRole(CreateRoleMutation),
    AlterRole(AlterRoleMutation),
    DropRole(DropRoleMutation),
    Grant(GrantMutation),
    Revoke(RevokeMutation),
    CreateDatabase(CreateDatabaseMutation),
    AlterDatabase(AlterDatabaseMutation),
    DropDatabase(DropDatabaseMutation),
    /// Produced by `SET [LOCAL] ROLE` and `SET [LOCAL] SESSION AUTHORIZATION`.
    /// `role = None` means ROLE NONE / SESSION AUTHORIZATION DEFAULT.
    /// `local = true` means the active value expires at transaction end.
    SwitchRole {
        role: Option<RoleFact>,
        local: bool,
        is_session_auth: bool,
    },
    Opaque(OpaqueMutation),
    Vacuum {
        table_id: Option<ObjectId>,
        is_full: bool,
    },
}

#[derive(Clone, Debug, PartialEq)]
pub struct CreateSchemaMutation {
    pub name: String,
    pub if_not_exists: bool,
    pub authorization: Option<RoleFact>,
}

#[derive(Clone, Debug, PartialEq)]
pub enum AlterSchemaMutation {
    Rename {
        old_name: String,
        new_name: String,
    },
    OwnerTo {
        name: String,
        new_owner: RoleFact,
    },
}

#[derive(Clone, Debug, PartialEq)]
pub struct DropSchemaMutation {
    pub names: Vec<String>,
    pub if_exists: bool,
    pub cascade: bool,
}

#[derive(Clone, Debug, PartialEq)]
pub struct CreatePolicyMutation {
    pub name: String,
    pub table: ObjectId,
    pub permissive: bool,
    pub command: PolicyCommand,
}

#[derive(Clone, Debug, PartialEq)]
pub struct DropPolicyMutation {
    pub name: String,
    pub table: ObjectId,
    pub if_exists: bool,
}

#[derive(Clone, Debug, PartialEq)]
pub struct CreateTriggerMutation {
    pub name: String,
    pub table: ObjectId,
    pub function_id: ObjectId,
}

#[derive(Clone, Debug, PartialEq)]
pub struct DropTriggerMutation {
    pub name: String,
    pub table: ObjectId,
    pub if_exists: bool,
}

#[derive(Clone, Debug, PartialEq)]
pub struct RenameTriggerMutation {
    pub name: String,
    pub table: ObjectId,
    pub new_name: String,
}

#[derive(Clone, Debug, PartialEq)]
pub struct DropViewMutation {
    pub ids: Vec<ObjectId>,
    pub if_exists: bool,
    pub cascade: bool,
}

#[derive(Clone, Debug, PartialEq)]
pub struct DropMaterializedViewMutation {
    pub ids: Vec<ObjectId>,
    pub if_exists: bool,
    pub cascade: bool,
}

#[derive(Clone, Debug, PartialEq)]
pub struct CreateMaterializedView {
    pub id: ObjectId,
    pub depends_on: Vec<ObjectId>,
}

#[derive(Clone, Debug, PartialEq)]
pub struct RefreshMaterializedViewMutation {
    pub id: ObjectId,
    pub concurrently: bool,
}

#[derive(Clone, Debug, PartialEq)]
pub struct CreateSequenceMutation {
    pub id: ObjectId,
    pub if_not_exists: bool,
    pub owned_by: Option<(ObjectId, String)>,
}

#[derive(Clone, Debug, PartialEq)]
pub struct AlterSequenceMutation {
    pub id: ObjectId,
    pub if_exists: bool,
    pub action: AlterSequenceActionMutation,
}

#[derive(Clone, Debug, PartialEq)]
pub enum AlterSequenceActionMutation {
    OwnedBy(Option<(ObjectId, String)>),
    OwnerTo(RoleFact),
    RenameTo(ObjectId),
    SetSchema(ObjectId),
    Other,
}

#[derive(Clone, Debug, PartialEq)]
pub struct DropSequenceMutation {
    pub ids: Vec<ObjectId>,
    pub if_exists: bool,
    pub cascade: bool,
}

#[derive(Clone, Debug, PartialEq)]
pub struct CreateDomainMutation {
    pub id: ObjectId,
    pub base_type: String,
}

#[derive(Clone, Debug, PartialEq)]
pub struct AlterDomainMutation {
    pub id: ObjectId,
    pub action: Option<AlterDomainActionFact>,
}

#[derive(Clone, Debug, PartialEq)]
pub struct DropDomainMutation {
    pub ids: Vec<ObjectId>,
    pub if_exists: bool,
    pub cascade: bool,
}

#[derive(Clone, Debug, PartialEq)]
pub struct DropTypeMutation {
    pub ids: Vec<ObjectId>,
    pub if_exists: bool,
    pub cascade: bool,
}

#[derive(Clone, Debug, PartialEq)]
pub struct CreateTypeMutation {
    pub id: ObjectId,
    pub kind: TypeKind,
}

#[derive(Clone, Debug, PartialEq)]
pub struct AlterTypeMutation {
    pub id: ObjectId,
    pub action: AlterTypeActionMutation,
}

#[derive(Clone, Debug, PartialEq)]
pub enum AlterTypeActionMutation {
    AddValue {
        new_value: String,
        neighbor: Option<String>,
        before: bool,
    },
    RenameValue {
        old_value: String,
        new_value: String,
    },
}

#[derive(Clone, Debug, PartialEq)]
pub struct CreateTable {
    pub id: ObjectId,
    pub if_not_exists: bool,
    pub as_select: bool,
    pub persistence: PersistenceMutation,
    pub columns: Vec<ColumnMutation>,
    pub foreign_keys: Vec<FkMutation>,
    pub table_constraints: Vec<TableConstraintFact>,
    pub partition_by: Option<String>,
    pub partition_of: Option<ObjectId>,
    pub partition_type: Option<String>,
}

#[derive(Clone, Debug, PartialEq)]
pub struct ColumnMutation {
    pub name: String,
    pub ty: Option<String>,
    pub not_null: bool,
    pub is_primary_key: bool,
    pub primary_key_constraint_name: Option<String>,
    pub is_unique: bool,
    pub unique_constraint_name: Option<String>,
    pub default: Option<ExprIr>,
    pub generation: ColumnGeneration,
}

#[derive(Clone, Debug, PartialEq)]
pub struct FkMutation {
    pub constraint_name: Option<String>,
    pub to_table: ObjectId,
    pub from_columns: Vec<String>,
    pub to_columns: Vec<String>,
}

#[derive(Clone, Debug, PartialEq)]
pub struct CreateView {
    pub id: ObjectId,
    pub or_replace: bool,
    pub depends_on: Vec<ObjectId>,
}

#[derive(Clone, Debug, PartialEq)]
pub struct CreateIndex {
    pub id: ObjectId,
    pub table: ObjectId,
    pub if_not_exists: bool,
    pub concurrently: bool,
    pub using_method: Option<String>,
    pub has_predicate: bool,
    pub unique: bool,
    pub key_columns: Vec<String>,
    pub included_columns: Vec<String>,
    pub has_expression_keys: bool,
    pub has_default_sort_order: bool,
    pub has_default_opclasses: bool,
    pub has_default_collations: bool,
}

#[derive(Clone, Debug, PartialEq)]
pub struct AlterTable {
    pub id: ObjectId,
    pub action: AlterTableActionMutation,
}

#[derive(Clone, Debug, PartialEq)]
pub struct Rename {
    pub old_id: ObjectId,
    pub new_id: ObjectId,
}

#[derive(Clone, Debug, PartialEq)]
pub struct DropTable {
    pub ids: Vec<ObjectId>,
    pub if_exists: bool,
    pub cascade: bool,
}

#[derive(Clone, Debug, PartialEq)]
pub struct DropIndex {
    pub ids: Vec<ObjectId>,
    pub if_exists: bool,
    pub concurrently: bool,
    pub cascade: bool,
}

#[derive(Clone, Debug, PartialEq)]
pub struct SearchPathChange {
    pub target: SearchPathTarget,
    pub local: bool,
}

#[derive(Clone, Debug, PartialEq)]
pub struct TimeoutSettingChange {
    pub setting: TimeoutSetting,
    pub value: TimeoutSettingValue,
    pub local: bool,
}

#[derive(Clone, Debug, PartialEq)]
pub struct SavepointMutation {
    pub name: String,
}

#[derive(Clone, Debug, PartialEq)]
pub struct ReleaseSavepointMutation {
    pub name: String,
}

#[derive(Clone, Debug, PartialEq)]
pub struct RollbackToSavepointMutation {
    pub name: String,
}

#[derive(Clone, Debug, PartialEq)]
pub struct CreateFunctionMutation {
    pub id: ObjectId,
    pub or_replace: bool,
    pub params: Vec<ParamFact>,
    pub return_type: Option<RetTypeFact>,
    pub options: Vec<FuncOptionFact>,
}

#[derive(Clone, Debug, PartialEq)]
pub struct AlterFunctionMutation {
    pub id: ObjectId,
    pub action: AlterFunctionAction,
}

#[derive(Clone, Debug, PartialEq)]
pub struct DropFunctionMutation {
    pub signatures: Vec<FunctionSigFact>,
    pub if_exists: bool,
    pub cascade: bool,
}

#[derive(Clone, Debug, PartialEq)]
pub struct CreateProcedureMutation {
    pub id: ObjectId,
    pub or_replace: bool,
    pub params: Vec<ParamFact>,
    pub options: Vec<FuncOptionFact>,
}

#[derive(Clone, Debug, PartialEq)]
pub struct AlterProcedureMutation {
    pub id: ObjectId,
    pub action: AlterFunctionAction,
}

#[derive(Clone, Debug, PartialEq)]
pub struct DropProcedureMutation {
    pub signatures: Vec<FunctionSigFact>,
    pub if_exists: bool,
    pub cascade: bool,
}

#[derive(Clone, Debug, PartialEq)]
pub struct CreateAggregateMutation {
    pub id: ObjectId,
    pub or_replace: bool,
}

#[derive(Clone, Debug, PartialEq)]
pub struct AlterAggregateMutation {
    pub id: ObjectId,
    pub action: AlterFunctionAction,
}

#[derive(Clone, Debug, PartialEq)]
pub struct DropAggregateMutation {
    pub signatures: Vec<FunctionSigFact>,
    pub if_exists: bool,
    pub cascade: bool,
}

#[derive(Clone, Debug, PartialEq)]
pub struct CreatePublicationMutation {
    pub name: String,
    pub scope: PublicationScope,
    pub params: Vec<AttributeFact>,
}

#[derive(Clone, Debug, PartialEq)]
pub struct AlterPublicationMutation {
    pub name: String,
}

#[derive(Clone, Debug, PartialEq)]
pub struct DropPublicationMutation {
    pub names: Vec<String>,
    pub if_exists: bool,
    pub cascade: bool,
}

#[derive(Clone, Debug, PartialEq)]
pub struct CreateSubscriptionMutation {
    pub name: Option<String>,
    pub connection: ConnectionTarget,
    pub publications: Vec<String>,
    pub params: Option<Vec<AttributeFact>>,
}

#[derive(Clone, Debug, PartialEq)]
pub struct AlterSubscriptionMutation {
    pub name: String,
}

#[derive(Clone, Debug, PartialEq)]
pub struct DropSubscriptionMutation {
    pub name: String,
    pub if_exists: bool,
}

#[derive(Clone, Debug, PartialEq)]
pub struct CreateRoleMutation {
    pub name: String,
    pub inherits: bool,
    pub can_login: bool,
}

#[derive(Clone, Debug, PartialEq)]
pub struct AlterRoleMutation {
    pub name: RoleFact,
    pub inherits: Option<bool>,
}

#[derive(Clone, Debug, PartialEq)]
pub struct DropRoleMutation {
    pub names: Vec<String>,
    pub if_exists: bool,
}

#[derive(Clone, Debug, PartialEq)]
pub enum ResolvedGrantTarget {
    Tables(Vec<ObjectId>),
    AllTablesInSchema(Vec<String>),
    Roles(Vec<ObjectId>),
}

#[derive(Clone, Debug, PartialEq)]
pub struct GrantMutation {
    pub privileges: PrivilegeSpec,
    pub target: ResolvedGrantTarget,
    pub grantees: Vec<RoleFact>,
    pub with_grant_option: bool,
    pub role_options: Vec<RoleMembershipOptionFact>,
    pub granted_by: Option<RoleFact>,
}

#[derive(Clone, Debug, PartialEq)]
pub struct RevokeMutation {
    pub grant_option_only: bool,
    pub role_option: Option<RoleMembershipOptionFact>,
    pub privileges: PrivilegeSpec,
    pub target: ResolvedGrantTarget,
    pub revokees: Vec<RoleFact>,
    pub granted_by: Option<RoleFact>,
    pub cascade: bool,
}

#[derive(Clone, Debug, PartialEq)]
pub struct CreateDatabaseMutation {
    pub name: String,
    pub options: Vec<DatabaseOptionFact>,
}

#[derive(Clone, Debug, PartialEq)]
pub struct AlterDatabaseMutation {
    pub id: ObjectId,
    pub action: AlterDatabaseAction,
}

#[derive(Clone, Debug, PartialEq)]
pub struct DropDatabaseMutation {
    pub id: ObjectId,
    pub if_exists: bool,
}

#[derive(Clone, Debug, PartialEq)]
pub enum OpaqueMutation {
    /// The statement parses but has no typed form. Treating it as a no-op
    /// would leave later analysis falsely exact.
    UnsupportedStatement,
    DoBlock,
    Execute,
    DynamicSql,
    PrepareTransaction,
    SetTransaction,
    SetConstraints,
    StateCollision(String),
    UnresolvedReference {
        object_kind: ObjectKind,
        object_name: String,
    },
}

#[derive(Clone, Debug, PartialEq)]
pub enum AlterTableActionMutation {
    AddColumn {
        name: String,
        ty: Option<String>,
        if_not_exists: bool,
        not_null: bool,
        default: Option<ExprIr>,
        depends_on: Option<(ObjectId, String)>,
        generation: ColumnGeneration,
    },
    DropColumn {
        name: String,
        if_exists: bool,
        cascade: bool,
    },
    RenameColumn {
        from: String,
        to: String,
    },
    AddForeignKey {
        constraint_name: Option<String>,
        to_table: ObjectId,
        from_columns: Vec<String>,
        to_columns: Vec<String>,
        not_valid: bool,
    },
    AlterConstraint {
        name: Option<String>,
        deferrable: bool,
    },
    RenameConstraint {
        old_name: String,
        new_name: String,
    },
    DropConstraint {
        name: String,
        if_exists: bool,
        cascade: bool,
    },
    AddCheckConstraint {
        constraint_name: Option<String>,
        columns: Vec<String>,
        columns_complete: bool,
        not_valid: bool,
    },
    AddUniqueConstraint {
        constraint_name: Option<String>,
        columns: Vec<String>,
        using_index: Option<ObjectId>,
    },
    AddPrimaryKeyConstraint {
        constraint_name: Option<String>,
        columns: Vec<String>,
        using_index: Option<ObjectId>,
    },
    AddExcludeConstraint {
        constraint_name: Option<String>,
        columns: Vec<String>,
        columns_complete: bool,
    },
    SetNotNull {
        column: String,
    },
    DropNotNull {
        column: String,
    },
    SetType {
        column: String,
        ty: String,
        has_using: bool,
    },
    SetDefault {
        column: String,
        default: Option<ExprIr>,
    },
    ValidateConstraint {
        constraint_name: String,
    },
    DisableTrigger {
        trigger_name: Option<String>,
    },
    EnableTrigger {
        trigger_name: Option<String>,
    },
    AttachPartition {
        child: ObjectId,
        strategy: Option<String>,
    },
    DetachPartition {
        child: ObjectId,
    },
    SetStorage {
        column: String,
    },
    SetAccessMethod,
    OwnerTo {
        new_owner: RoleFact,
    },
    Opaque,
}

/// What kind of object an unresolved name was meant to denote.
#[derive(Clone, Copy, Debug, PartialEq, Eq, Structural)]
pub enum ObjectKind {
    Table,
    View,
    Index,
    Sequence,
    Routine,
    Type,
}

impl DeepView for PersistenceMutation {
    type V = PersistenceMutation;

    open spec fn deep_view(&self) -> PersistenceMutation {
        *self
    }
}

#[verifier::ext_equal]
pub enum MutationView {
    CreateSchema(CreateSchemaMutationView),
    AlterSchema(AlterSchemaMutationView),
    DropSchema(DropSchemaMutationView),
    CreateTable(CreateTableView),
    CreateView(CreateViewView),
    CreateMaterializedView(CreateMaterializedViewView),
    RefreshMaterializedView(RefreshMaterializedViewMutationView),
    CreateIndex(CreateIndexView),
    CreatePolicy(CreatePolicyMutationView),
    DropPolicy(DropPolicyMutationView),
    CreateTrigger(CreateTriggerMutationView),
    DropTrigger(DropTriggerMutationView),
    RenameTrigger(RenameTriggerMutationView),
    AlterTable(AlterTableView),
    CreateType(CreateTypeMutationView),
    AlterType(AlterTypeMutationView),
    RenameType(RenameView),
    CreateDomain(CreateDomainMutationView),
    AlterDomain(AlterDomainMutationView),
    DropDomain(DropDomainMutationView),
    DropType(DropTypeMutationView),
    CreateSequence(CreateSequenceMutationView),
    AlterSequence(AlterSequenceMutationView),
    DropSequence(DropSequenceMutationView),
    Rename(RenameView),
    DropTable(DropTableView),
    DropView(DropViewMutationView),
    DropMaterializedView(DropMaterializedViewMutationView),
    DropIndex(DropIndexView),
    ChangeRelationOwner {
        id: ObjectIdView,
        new_owner: RoleFactView,
    },
    SearchPath(SearchPathChangeView),
    TimeoutSetting(TimeoutSettingChangeView),
    ResetSettings(ResetSettingTarget),
    CheckTimeouts,
    BeginTransaction,
    CommitTransaction,
    CommitAndChain,
    RollbackTransaction,
    RollbackAndChain,
    RollbackToSavepoint(RollbackToSavepointMutationView),
    Savepoint(SavepointMutationView),
    ReleaseSavepoint(ReleaseSavepointMutationView),
    CreateFunction(CreateFunctionMutationView),
    AlterFunction(AlterFunctionMutationView),
    DropFunction(DropFunctionMutationView),
    CreateProcedure(CreateProcedureMutationView),
    AlterProcedure(AlterProcedureMutationView),
    DropProcedure(DropProcedureMutationView),
    CreateAggregate(CreateAggregateMutationView),
    AlterAggregate(AlterAggregateMutationView),
    DropAggregate(DropAggregateMutationView),
    CreatePublication(CreatePublicationMutationView),
    AlterPublication(AlterPublicationMutationView),
    DropPublication(DropPublicationMutationView),
    CreateSubscription(CreateSubscriptionMutationView),
    AlterSubscription(AlterSubscriptionMutationView),
    DropSubscription(DropSubscriptionMutationView),
    CreateRole(CreateRoleMutationView),
    AlterRole(AlterRoleMutationView),
    DropRole(DropRoleMutationView),
    Grant(GrantMutationView),
    Revoke(RevokeMutationView),
    CreateDatabase(CreateDatabaseMutationView),
    AlterDatabase(AlterDatabaseMutationView),
    DropDatabase(DropDatabaseMutationView),
    SwitchRole {
        role: Option<RoleFactView>,
        local: bool,
        is_session_auth: bool,
    },
    Opaque(OpaqueMutationView),
    Vacuum {
        table_id: Option<ObjectIdView>,
        is_full: bool,
    },
}

impl View for Mutation {
    type V = MutationView;

    open spec fn view(&self) -> MutationView {
        match self {
            Mutation::CreateSchema(a) => MutationView::CreateSchema(a.deep_view()),
            Mutation::AlterSchema(a) => MutationView::AlterSchema(a.deep_view()),
            Mutation::DropSchema(a) => MutationView::DropSchema(a.deep_view()),
            Mutation::CreateTable(a) => MutationView::CreateTable(a.deep_view()),
            Mutation::CreateView(a) => MutationView::CreateView(a.deep_view()),
            Mutation::CreateMaterializedView(a) => MutationView::CreateMaterializedView(a.deep_view()),
            Mutation::RefreshMaterializedView(a) => MutationView::RefreshMaterializedView(a.deep_view()),
            Mutation::CreateIndex(a) => MutationView::CreateIndex(a.deep_view()),
            Mutation::CreatePolicy(a) => MutationView::CreatePolicy(a.deep_view()),
            Mutation::DropPolicy(a) => MutationView::DropPolicy(a.deep_view()),
            Mutation::CreateTrigger(a) => MutationView::CreateTrigger(a.deep_view()),
            Mutation::DropTrigger(a) => MutationView::DropTrigger(a.deep_view()),
            Mutation::RenameTrigger(a) => MutationView::RenameTrigger(a.deep_view()),
            Mutation::AlterTable(a) => MutationView::AlterTable(a.deep_view()),
            Mutation::CreateType(a) => MutationView::CreateType(a.deep_view()),
            Mutation::AlterType(a) => MutationView::AlterType(a.deep_view()),
            Mutation::RenameType(a) => MutationView::RenameType(a.deep_view()),
            Mutation::CreateDomain(a) => MutationView::CreateDomain(a.deep_view()),
            Mutation::AlterDomain(a) => MutationView::AlterDomain(a.deep_view()),
            Mutation::DropDomain(a) => MutationView::DropDomain(a.deep_view()),
            Mutation::DropType(a) => MutationView::DropType(a.deep_view()),
            Mutation::CreateSequence(a) => MutationView::CreateSequence(a.deep_view()),
            Mutation::AlterSequence(a) => MutationView::AlterSequence(a.deep_view()),
            Mutation::DropSequence(a) => MutationView::DropSequence(a.deep_view()),
            Mutation::Rename(a) => MutationView::Rename(a.deep_view()),
            Mutation::DropTable(a) => MutationView::DropTable(a.deep_view()),
            Mutation::DropView(a) => MutationView::DropView(a.deep_view()),
            Mutation::DropMaterializedView(a) => MutationView::DropMaterializedView(a.deep_view()),
            Mutation::DropIndex(a) => MutationView::DropIndex(a.deep_view()),
            Mutation::ChangeRelationOwner { id, new_owner } => MutationView::ChangeRelationOwner {
                id: id.deep_view(),
                new_owner: new_owner.deep_view(),
            },
            Mutation::SearchPath(a) => MutationView::SearchPath(a.deep_view()),
            Mutation::TimeoutSetting(a) => MutationView::TimeoutSetting(a.deep_view()),
            Mutation::ResetSettings(a) => MutationView::ResetSettings(a.deep_view()),
            Mutation::CheckTimeouts => MutationView::CheckTimeouts,
            Mutation::BeginTransaction => MutationView::BeginTransaction,
            Mutation::CommitTransaction => MutationView::CommitTransaction,
            Mutation::CommitAndChain => MutationView::CommitAndChain,
            Mutation::RollbackTransaction => MutationView::RollbackTransaction,
            Mutation::RollbackAndChain => MutationView::RollbackAndChain,
            Mutation::RollbackToSavepoint(a) => MutationView::RollbackToSavepoint(a.deep_view()),
            Mutation::Savepoint(a) => MutationView::Savepoint(a.deep_view()),
            Mutation::ReleaseSavepoint(a) => MutationView::ReleaseSavepoint(a.deep_view()),
            Mutation::CreateFunction(a) => MutationView::CreateFunction(a.deep_view()),
            Mutation::AlterFunction(a) => MutationView::AlterFunction(a.deep_view()),
            Mutation::DropFunction(a) => MutationView::DropFunction(a.deep_view()),
            Mutation::CreateProcedure(a) => MutationView::CreateProcedure(a.deep_view()),
            Mutation::AlterProcedure(a) => MutationView::AlterProcedure(a.deep_view()),
            Mutation::DropProcedure(a) => MutationView::DropProcedure(a.deep_view()),
            Mutation::CreateAggregate(a) => MutationView::CreateAggregate(a.deep_view()),
            Mutation::AlterAggregate(a) => MutationView::AlterAggregate(a.deep_view()),
            Mutation::DropAggregate(a) => MutationView::DropAggregate(a.deep_view()),
            Mutation::CreatePublication(a) => MutationView::CreatePublication(a.deep_view()),
            Mutation::AlterPublication(a) => MutationView::AlterPublication(a.deep_view()),
            Mutation::DropPublication(a) => MutationView::DropPublication(a.deep_view()),
            Mutation::CreateSubscription(a) => MutationView::CreateSubscription(a.deep_view()),
            Mutation::AlterSubscription(a) => MutationView::AlterSubscription(a.deep_view()),
            Mutation::DropSubscription(a) => MutationView::DropSubscription(a.deep_view()),
            Mutation::CreateRole(a) => MutationView::CreateRole(a.deep_view()),
            Mutation::AlterRole(a) => MutationView::AlterRole(a.deep_view()),
            Mutation::DropRole(a) => MutationView::DropRole(a.deep_view()),
            Mutation::Grant(a) => MutationView::Grant(a.deep_view()),
            Mutation::Revoke(a) => MutationView::Revoke(a.deep_view()),
            Mutation::CreateDatabase(a) => MutationView::CreateDatabase(a.deep_view()),
            Mutation::AlterDatabase(a) => MutationView::AlterDatabase(a.deep_view()),
            Mutation::DropDatabase(a) => MutationView::DropDatabase(a.deep_view()),
            Mutation::SwitchRole { role, local, is_session_auth } => MutationView::SwitchRole {
                role: role.deep_view(),
                local: local.deep_view(),
                is_session_auth: is_session_auth.deep_view(),
            },
            Mutation::Opaque(a) => MutationView::Opaque(a.deep_view()),
            Mutation::Vacuum { table_id, is_full } => MutationView::Vacuum {
                table_id: table_id.deep_view(),
                is_full: is_full.deep_view(),
            },
        }
    }
}

impl DeepView for Mutation {
    type V = MutationView;

    open spec fn deep_view(&self) -> MutationView {
        self@
    }
}

#[verifier::ext_equal]
pub struct CreateSchemaMutationView {
    pub name: Seq<char>,
    pub if_not_exists: bool,
    pub authorization: Option<RoleFactView>,
}

impl View for CreateSchemaMutation {
    type V = CreateSchemaMutationView;

    open spec fn view(&self) -> CreateSchemaMutationView {
        CreateSchemaMutationView {
            name: self.name.deep_view(),
            if_not_exists: self.if_not_exists.deep_view(),
            authorization: self.authorization.deep_view(),
        }
    }
}

impl DeepView for CreateSchemaMutation {
    type V = CreateSchemaMutationView;

    open spec fn deep_view(&self) -> CreateSchemaMutationView {
        self@
    }
}

#[verifier::ext_equal]
pub enum AlterSchemaMutationView {
    Rename {
        old_name: Seq<char>,
        new_name: Seq<char>,
    },
    OwnerTo {
        name: Seq<char>,
        new_owner: RoleFactView,
    },
}

impl View for AlterSchemaMutation {
    type V = AlterSchemaMutationView;

    open spec fn view(&self) -> AlterSchemaMutationView {
        match self {
            AlterSchemaMutation::Rename { old_name, new_name } => AlterSchemaMutationView::Rename {
                old_name: old_name.deep_view(),
                new_name: new_name.deep_view(),
            },
            AlterSchemaMutation::OwnerTo { name, new_owner } => AlterSchemaMutationView::OwnerTo {
                name: name.deep_view(),
                new_owner: new_owner.deep_view(),
            },
        }
    }
}

impl DeepView for AlterSchemaMutation {
    type V = AlterSchemaMutationView;

    open spec fn deep_view(&self) -> AlterSchemaMutationView {
        self@
    }
}

#[verifier::ext_equal]
pub struct DropSchemaMutationView {
    pub names: Seq<Seq<char>>,
    pub if_exists: bool,
    pub cascade: bool,
}

impl View for DropSchemaMutation {
    type V = DropSchemaMutationView;

    open spec fn view(&self) -> DropSchemaMutationView {
        DropSchemaMutationView {
            names: self.names.deep_view(),
            if_exists: self.if_exists.deep_view(),
            cascade: self.cascade.deep_view(),
        }
    }
}

impl DeepView for DropSchemaMutation {
    type V = DropSchemaMutationView;

    open spec fn deep_view(&self) -> DropSchemaMutationView {
        self@
    }
}

#[verifier::ext_equal]
pub struct CreatePolicyMutationView {
    pub name: Seq<char>,
    pub table: ObjectIdView,
    pub permissive: bool,
    pub command: PolicyCommand,
}

impl View for CreatePolicyMutation {
    type V = CreatePolicyMutationView;

    open spec fn view(&self) -> CreatePolicyMutationView {
        CreatePolicyMutationView {
            name: self.name.deep_view(),
            table: self.table.deep_view(),
            permissive: self.permissive.deep_view(),
            command: self.command.deep_view(),
        }
    }
}

impl DeepView for CreatePolicyMutation {
    type V = CreatePolicyMutationView;

    open spec fn deep_view(&self) -> CreatePolicyMutationView {
        self@
    }
}

#[verifier::ext_equal]
pub struct DropPolicyMutationView {
    pub name: Seq<char>,
    pub table: ObjectIdView,
    pub if_exists: bool,
}

impl View for DropPolicyMutation {
    type V = DropPolicyMutationView;

    open spec fn view(&self) -> DropPolicyMutationView {
        DropPolicyMutationView {
            name: self.name.deep_view(),
            table: self.table.deep_view(),
            if_exists: self.if_exists.deep_view(),
        }
    }
}

impl DeepView for DropPolicyMutation {
    type V = DropPolicyMutationView;

    open spec fn deep_view(&self) -> DropPolicyMutationView {
        self@
    }
}

#[verifier::ext_equal]
pub struct CreateTriggerMutationView {
    pub name: Seq<char>,
    pub table: ObjectIdView,
    pub function_id: ObjectIdView,
}

impl View for CreateTriggerMutation {
    type V = CreateTriggerMutationView;

    open spec fn view(&self) -> CreateTriggerMutationView {
        CreateTriggerMutationView {
            name: self.name.deep_view(),
            table: self.table.deep_view(),
            function_id: self.function_id.deep_view(),
        }
    }
}

impl DeepView for CreateTriggerMutation {
    type V = CreateTriggerMutationView;

    open spec fn deep_view(&self) -> CreateTriggerMutationView {
        self@
    }
}

#[verifier::ext_equal]
pub struct DropTriggerMutationView {
    pub name: Seq<char>,
    pub table: ObjectIdView,
    pub if_exists: bool,
}

impl View for DropTriggerMutation {
    type V = DropTriggerMutationView;

    open spec fn view(&self) -> DropTriggerMutationView {
        DropTriggerMutationView {
            name: self.name.deep_view(),
            table: self.table.deep_view(),
            if_exists: self.if_exists.deep_view(),
        }
    }
}

impl DeepView for DropTriggerMutation {
    type V = DropTriggerMutationView;

    open spec fn deep_view(&self) -> DropTriggerMutationView {
        self@
    }
}

#[verifier::ext_equal]
pub struct RenameTriggerMutationView {
    pub name: Seq<char>,
    pub table: ObjectIdView,
    pub new_name: Seq<char>,
}

impl View for RenameTriggerMutation {
    type V = RenameTriggerMutationView;

    open spec fn view(&self) -> RenameTriggerMutationView {
        RenameTriggerMutationView {
            name: self.name.deep_view(),
            table: self.table.deep_view(),
            new_name: self.new_name.deep_view(),
        }
    }
}

impl DeepView for RenameTriggerMutation {
    type V = RenameTriggerMutationView;

    open spec fn deep_view(&self) -> RenameTriggerMutationView {
        self@
    }
}

#[verifier::ext_equal]
pub struct DropViewMutationView {
    pub ids: Seq<ObjectIdView>,
    pub if_exists: bool,
    pub cascade: bool,
}

impl View for DropViewMutation {
    type V = DropViewMutationView;

    open spec fn view(&self) -> DropViewMutationView {
        DropViewMutationView {
            ids: self.ids.deep_view(),
            if_exists: self.if_exists.deep_view(),
            cascade: self.cascade.deep_view(),
        }
    }
}

impl DeepView for DropViewMutation {
    type V = DropViewMutationView;

    open spec fn deep_view(&self) -> DropViewMutationView {
        self@
    }
}

#[verifier::ext_equal]
pub struct DropMaterializedViewMutationView {
    pub ids: Seq<ObjectIdView>,
    pub if_exists: bool,
    pub cascade: bool,
}

impl View for DropMaterializedViewMutation {
    type V = DropMaterializedViewMutationView;

    open spec fn view(&self) -> DropMaterializedViewMutationView {
        DropMaterializedViewMutationView {
            ids: self.ids.deep_view(),
            if_exists: self.if_exists.deep_view(),
            cascade: self.cascade.deep_view(),
        }
    }
}

impl DeepView for DropMaterializedViewMutation {
    type V = DropMaterializedViewMutationView;

    open spec fn deep_view(&self) -> DropMaterializedViewMutationView {
        self@
    }
}

#[verifier::ext_equal]
pub struct CreateMaterializedViewView {
    pub id: ObjectIdView,
    pub depends_on: Seq<ObjectIdView>,
}

impl View for CreateMaterializedView {
    type V = CreateMaterializedViewView;

    open spec fn view(&self) -> CreateMaterializedViewView {
        CreateMaterializedViewView {
            id: self.id.deep_view(),
            depends_on: self.depends_on.deep_view(),
        }
    }
}

impl DeepView for CreateMaterializedView {
    type V = CreateMaterializedViewView;

    open spec fn deep_view(&self) -> CreateMaterializedViewView {
        self@
    }
}

#[verifier::ext_equal]
pub struct RefreshMaterializedViewMutationView {
    pub id: ObjectIdView,
    pub concurrently: bool,
}

impl View for RefreshMaterializedViewMutation {
    type V = RefreshMaterializedViewMutationView;

    open spec fn view(&self) -> RefreshMaterializedViewMutationView {
        RefreshMaterializedViewMutationView {
            id: self.id.deep_view(),
            concurrently: self.concurrently.deep_view(),
        }
    }
}

impl DeepView for RefreshMaterializedViewMutation {
    type V = RefreshMaterializedViewMutationView;

    open spec fn deep_view(&self) -> RefreshMaterializedViewMutationView {
        self@
    }
}

#[verifier::ext_equal]
pub struct CreateSequenceMutationView {
    pub id: ObjectIdView,
    pub if_not_exists: bool,
    pub owned_by: Option<(ObjectIdView, Seq<char>)>,
}

impl View for CreateSequenceMutation {
    type V = CreateSequenceMutationView;

    open spec fn view(&self) -> CreateSequenceMutationView {
        CreateSequenceMutationView {
            id: self.id.deep_view(),
            if_not_exists: self.if_not_exists.deep_view(),
            owned_by: self.owned_by.deep_view(),
        }
    }
}

impl DeepView for CreateSequenceMutation {
    type V = CreateSequenceMutationView;

    open spec fn deep_view(&self) -> CreateSequenceMutationView {
        self@
    }
}

#[verifier::ext_equal]
pub struct AlterSequenceMutationView {
    pub id: ObjectIdView,
    pub if_exists: bool,
    pub action: AlterSequenceActionMutationView,
}

impl View for AlterSequenceMutation {
    type V = AlterSequenceMutationView;

    open spec fn view(&self) -> AlterSequenceMutationView {
        AlterSequenceMutationView {
            id: self.id.deep_view(),
            if_exists: self.if_exists.deep_view(),
            action: self.action.deep_view(),
        }
    }
}

impl DeepView for AlterSequenceMutation {
    type V = AlterSequenceMutationView;

    open spec fn deep_view(&self) -> AlterSequenceMutationView {
        self@
    }
}

#[verifier::ext_equal]
pub enum AlterSequenceActionMutationView {
    OwnedBy(Option<(ObjectIdView, Seq<char>)>),
    OwnerTo(RoleFactView),
    RenameTo(ObjectIdView),
    SetSchema(ObjectIdView),
    Other,
}

impl View for AlterSequenceActionMutation {
    type V = AlterSequenceActionMutationView;

    open spec fn view(&self) -> AlterSequenceActionMutationView {
        match self {
            AlterSequenceActionMutation::OwnedBy(a) => AlterSequenceActionMutationView::OwnedBy(a.deep_view()),
            AlterSequenceActionMutation::OwnerTo(a) => AlterSequenceActionMutationView::OwnerTo(a.deep_view()),
            AlterSequenceActionMutation::RenameTo(a) => AlterSequenceActionMutationView::RenameTo(a.deep_view()),
            AlterSequenceActionMutation::SetSchema(a) => AlterSequenceActionMutationView::SetSchema(a.deep_view()),
            AlterSequenceActionMutation::Other => AlterSequenceActionMutationView::Other,
        }
    }
}

impl DeepView for AlterSequenceActionMutation {
    type V = AlterSequenceActionMutationView;

    open spec fn deep_view(&self) -> AlterSequenceActionMutationView {
        self@
    }
}

#[verifier::ext_equal]
pub struct DropSequenceMutationView {
    pub ids: Seq<ObjectIdView>,
    pub if_exists: bool,
    pub cascade: bool,
}

impl View for DropSequenceMutation {
    type V = DropSequenceMutationView;

    open spec fn view(&self) -> DropSequenceMutationView {
        DropSequenceMutationView {
            ids: self.ids.deep_view(),
            if_exists: self.if_exists.deep_view(),
            cascade: self.cascade.deep_view(),
        }
    }
}

impl DeepView for DropSequenceMutation {
    type V = DropSequenceMutationView;

    open spec fn deep_view(&self) -> DropSequenceMutationView {
        self@
    }
}

#[verifier::ext_equal]
pub struct CreateDomainMutationView {
    pub id: ObjectIdView,
    pub base_type: Seq<char>,
}

impl View for CreateDomainMutation {
    type V = CreateDomainMutationView;

    open spec fn view(&self) -> CreateDomainMutationView {
        CreateDomainMutationView {
            id: self.id.deep_view(),
            base_type: self.base_type.deep_view(),
        }
    }
}

impl DeepView for CreateDomainMutation {
    type V = CreateDomainMutationView;

    open spec fn deep_view(&self) -> CreateDomainMutationView {
        self@
    }
}

#[verifier::ext_equal]
pub struct AlterDomainMutationView {
    pub id: ObjectIdView,
    pub action: Option<AlterDomainActionFact>,
}

impl View for AlterDomainMutation {
    type V = AlterDomainMutationView;

    open spec fn view(&self) -> AlterDomainMutationView {
        AlterDomainMutationView {
            id: self.id.deep_view(),
            action: self.action.deep_view(),
        }
    }
}

impl DeepView for AlterDomainMutation {
    type V = AlterDomainMutationView;

    open spec fn deep_view(&self) -> AlterDomainMutationView {
        self@
    }
}

#[verifier::ext_equal]
pub struct DropDomainMutationView {
    pub ids: Seq<ObjectIdView>,
    pub if_exists: bool,
    pub cascade: bool,
}

impl View for DropDomainMutation {
    type V = DropDomainMutationView;

    open spec fn view(&self) -> DropDomainMutationView {
        DropDomainMutationView {
            ids: self.ids.deep_view(),
            if_exists: self.if_exists.deep_view(),
            cascade: self.cascade.deep_view(),
        }
    }
}

impl DeepView for DropDomainMutation {
    type V = DropDomainMutationView;

    open spec fn deep_view(&self) -> DropDomainMutationView {
        self@
    }
}

#[verifier::ext_equal]
pub struct DropTypeMutationView {
    pub ids: Seq<ObjectIdView>,
    pub if_exists: bool,
    pub cascade: bool,
}

impl View for DropTypeMutation {
    type V = DropTypeMutationView;

    open spec fn view(&self) -> DropTypeMutationView {
        DropTypeMutationView {
            ids: self.ids.deep_view(),
            if_exists: self.if_exists.deep_view(),
            cascade: self.cascade.deep_view(),
        }
    }
}

impl DeepView for DropTypeMutation {
    type V = DropTypeMutationView;

    open spec fn deep_view(&self) -> DropTypeMutationView {
        self@
    }
}

#[verifier::ext_equal]
pub struct CreateTypeMutationView {
    pub id: ObjectIdView,
    pub kind: TypeKindView,
}

impl View for CreateTypeMutation {
    type V = CreateTypeMutationView;

    open spec fn view(&self) -> CreateTypeMutationView {
        CreateTypeMutationView {
            id: self.id.deep_view(),
            kind: self.kind.deep_view(),
        }
    }
}

impl DeepView for CreateTypeMutation {
    type V = CreateTypeMutationView;

    open spec fn deep_view(&self) -> CreateTypeMutationView {
        self@
    }
}

#[verifier::ext_equal]
pub struct AlterTypeMutationView {
    pub id: ObjectIdView,
    pub action: AlterTypeActionMutationView,
}

impl View for AlterTypeMutation {
    type V = AlterTypeMutationView;

    open spec fn view(&self) -> AlterTypeMutationView {
        AlterTypeMutationView {
            id: self.id.deep_view(),
            action: self.action.deep_view(),
        }
    }
}

impl DeepView for AlterTypeMutation {
    type V = AlterTypeMutationView;

    open spec fn deep_view(&self) -> AlterTypeMutationView {
        self@
    }
}

#[verifier::ext_equal]
pub enum AlterTypeActionMutationView {
    AddValue {
        new_value: Seq<char>,
        neighbor: Option<Seq<char>>,
        before: bool,
    },
    RenameValue {
        old_value: Seq<char>,
        new_value: Seq<char>,
    },
}

impl View for AlterTypeActionMutation {
    type V = AlterTypeActionMutationView;

    open spec fn view(&self) -> AlterTypeActionMutationView {
        match self {
            AlterTypeActionMutation::AddValue { new_value, neighbor, before } => AlterTypeActionMutationView::AddValue {
                new_value: new_value.deep_view(),
                neighbor: neighbor.deep_view(),
                before: before.deep_view(),
            },
            AlterTypeActionMutation::RenameValue { old_value, new_value } => AlterTypeActionMutationView::RenameValue {
                old_value: old_value.deep_view(),
                new_value: new_value.deep_view(),
            },
        }
    }
}

impl DeepView for AlterTypeActionMutation {
    type V = AlterTypeActionMutationView;

    open spec fn deep_view(&self) -> AlterTypeActionMutationView {
        self@
    }
}

#[verifier::ext_equal]
pub struct CreateTableView {
    pub id: ObjectIdView,
    pub if_not_exists: bool,
    pub as_select: bool,
    pub persistence: PersistenceMutation,
    pub columns: Seq<ColumnMutationView>,
    pub foreign_keys: Seq<FkMutationView>,
    pub table_constraints: Seq<TableConstraintFactView>,
    pub partition_by: Option<Seq<char>>,
    pub partition_of: Option<ObjectIdView>,
    pub partition_type: Option<Seq<char>>,
}

impl View for CreateTable {
    type V = CreateTableView;

    open spec fn view(&self) -> CreateTableView {
        CreateTableView {
            id: self.id.deep_view(),
            if_not_exists: self.if_not_exists.deep_view(),
            as_select: self.as_select.deep_view(),
            persistence: self.persistence.deep_view(),
            columns: self.columns.deep_view(),
            foreign_keys: self.foreign_keys.deep_view(),
            table_constraints: self.table_constraints.deep_view(),
            partition_by: self.partition_by.deep_view(),
            partition_of: self.partition_of.deep_view(),
            partition_type: self.partition_type.deep_view(),
        }
    }
}

impl DeepView for CreateTable {
    type V = CreateTableView;

    open spec fn deep_view(&self) -> CreateTableView {
        self@
    }
}

#[verifier::ext_equal]
pub struct ColumnMutationView {
    pub name: Seq<char>,
    pub ty: Option<Seq<char>>,
    pub not_null: bool,
    pub is_primary_key: bool,
    pub primary_key_constraint_name: Option<Seq<char>>,
    pub is_unique: bool,
    pub unique_constraint_name: Option<Seq<char>>,
    pub default: Option<ExprIrView>,
    pub generation: ColumnGeneration,
}

impl View for ColumnMutation {
    type V = ColumnMutationView;

    open spec fn view(&self) -> ColumnMutationView {
        ColumnMutationView {
            name: self.name.deep_view(),
            ty: self.ty.deep_view(),
            not_null: self.not_null.deep_view(),
            is_primary_key: self.is_primary_key.deep_view(),
            primary_key_constraint_name: self.primary_key_constraint_name.deep_view(),
            is_unique: self.is_unique.deep_view(),
            unique_constraint_name: self.unique_constraint_name.deep_view(),
            default: self.default.deep_view(),
            generation: self.generation.deep_view(),
        }
    }
}

impl DeepView for ColumnMutation {
    type V = ColumnMutationView;

    open spec fn deep_view(&self) -> ColumnMutationView {
        self@
    }
}

#[verifier::ext_equal]
pub struct FkMutationView {
    pub constraint_name: Option<Seq<char>>,
    pub to_table: ObjectIdView,
    pub from_columns: Seq<Seq<char>>,
    pub to_columns: Seq<Seq<char>>,
}

impl View for FkMutation {
    type V = FkMutationView;

    open spec fn view(&self) -> FkMutationView {
        FkMutationView {
            constraint_name: self.constraint_name.deep_view(),
            to_table: self.to_table.deep_view(),
            from_columns: self.from_columns.deep_view(),
            to_columns: self.to_columns.deep_view(),
        }
    }
}

impl DeepView for FkMutation {
    type V = FkMutationView;

    open spec fn deep_view(&self) -> FkMutationView {
        self@
    }
}

#[verifier::ext_equal]
pub struct CreateViewView {
    pub id: ObjectIdView,
    pub or_replace: bool,
    pub depends_on: Seq<ObjectIdView>,
}

impl View for CreateView {
    type V = CreateViewView;

    open spec fn view(&self) -> CreateViewView {
        CreateViewView {
            id: self.id.deep_view(),
            or_replace: self.or_replace.deep_view(),
            depends_on: self.depends_on.deep_view(),
        }
    }
}

impl DeepView for CreateView {
    type V = CreateViewView;

    open spec fn deep_view(&self) -> CreateViewView {
        self@
    }
}

#[verifier::ext_equal]
pub struct CreateIndexView {
    pub id: ObjectIdView,
    pub table: ObjectIdView,
    pub if_not_exists: bool,
    pub concurrently: bool,
    pub using_method: Option<Seq<char>>,
    pub has_predicate: bool,
    pub unique: bool,
    pub key_columns: Seq<Seq<char>>,
    pub included_columns: Seq<Seq<char>>,
    pub has_expression_keys: bool,
    pub has_default_sort_order: bool,
    pub has_default_opclasses: bool,
    pub has_default_collations: bool,
}

impl View for CreateIndex {
    type V = CreateIndexView;

    open spec fn view(&self) -> CreateIndexView {
        CreateIndexView {
            id: self.id.deep_view(),
            table: self.table.deep_view(),
            if_not_exists: self.if_not_exists.deep_view(),
            concurrently: self.concurrently.deep_view(),
            using_method: self.using_method.deep_view(),
            has_predicate: self.has_predicate.deep_view(),
            unique: self.unique.deep_view(),
            key_columns: self.key_columns.deep_view(),
            included_columns: self.included_columns.deep_view(),
            has_expression_keys: self.has_expression_keys.deep_view(),
            has_default_sort_order: self.has_default_sort_order.deep_view(),
            has_default_opclasses: self.has_default_opclasses.deep_view(),
            has_default_collations: self.has_default_collations.deep_view(),
        }
    }
}

impl DeepView for CreateIndex {
    type V = CreateIndexView;

    open spec fn deep_view(&self) -> CreateIndexView {
        self@
    }
}

#[verifier::ext_equal]
pub struct AlterTableView {
    pub id: ObjectIdView,
    pub action: AlterTableActionMutationView,
}

impl View for AlterTable {
    type V = AlterTableView;

    open spec fn view(&self) -> AlterTableView {
        AlterTableView {
            id: self.id.deep_view(),
            action: self.action.deep_view(),
        }
    }
}

impl DeepView for AlterTable {
    type V = AlterTableView;

    open spec fn deep_view(&self) -> AlterTableView {
        self@
    }
}

#[verifier::ext_equal]
pub struct RenameView {
    pub old_id: ObjectIdView,
    pub new_id: ObjectIdView,
}

impl View for Rename {
    type V = RenameView;

    open spec fn view(&self) -> RenameView {
        RenameView {
            old_id: self.old_id.deep_view(),
            new_id: self.new_id.deep_view(),
        }
    }
}

impl DeepView for Rename {
    type V = RenameView;

    open spec fn deep_view(&self) -> RenameView {
        self@
    }
}

#[verifier::ext_equal]
pub struct DropTableView {
    pub ids: Seq<ObjectIdView>,
    pub if_exists: bool,
    pub cascade: bool,
}

impl View for DropTable {
    type V = DropTableView;

    open spec fn view(&self) -> DropTableView {
        DropTableView {
            ids: self.ids.deep_view(),
            if_exists: self.if_exists.deep_view(),
            cascade: self.cascade.deep_view(),
        }
    }
}

impl DeepView for DropTable {
    type V = DropTableView;

    open spec fn deep_view(&self) -> DropTableView {
        self@
    }
}

#[verifier::ext_equal]
pub struct DropIndexView {
    pub ids: Seq<ObjectIdView>,
    pub if_exists: bool,
    pub concurrently: bool,
    pub cascade: bool,
}

impl View for DropIndex {
    type V = DropIndexView;

    open spec fn view(&self) -> DropIndexView {
        DropIndexView {
            ids: self.ids.deep_view(),
            if_exists: self.if_exists.deep_view(),
            concurrently: self.concurrently.deep_view(),
            cascade: self.cascade.deep_view(),
        }
    }
}

impl DeepView for DropIndex {
    type V = DropIndexView;

    open spec fn deep_view(&self) -> DropIndexView {
        self@
    }
}

#[verifier::ext_equal]
pub struct SearchPathChangeView {
    pub target: SearchPathTargetView,
    pub local: bool,
}

impl View for SearchPathChange {
    type V = SearchPathChangeView;

    open spec fn view(&self) -> SearchPathChangeView {
        SearchPathChangeView {
            target: self.target.deep_view(),
            local: self.local.deep_view(),
        }
    }
}

impl DeepView for SearchPathChange {
    type V = SearchPathChangeView;

    open spec fn deep_view(&self) -> SearchPathChangeView {
        self@
    }
}

#[verifier::ext_equal]
pub struct TimeoutSettingChangeView {
    pub setting: TimeoutSetting,
    pub value: TimeoutSettingValueView,
    pub local: bool,
}

impl View for TimeoutSettingChange {
    type V = TimeoutSettingChangeView;

    open spec fn view(&self) -> TimeoutSettingChangeView {
        TimeoutSettingChangeView {
            setting: self.setting.deep_view(),
            value: self.value.deep_view(),
            local: self.local.deep_view(),
        }
    }
}

impl DeepView for TimeoutSettingChange {
    type V = TimeoutSettingChangeView;

    open spec fn deep_view(&self) -> TimeoutSettingChangeView {
        self@
    }
}

#[verifier::ext_equal]
pub struct SavepointMutationView {
    pub name: Seq<char>,
}

impl View for SavepointMutation {
    type V = SavepointMutationView;

    open spec fn view(&self) -> SavepointMutationView {
        SavepointMutationView {
            name: self.name.deep_view(),
        }
    }
}

impl DeepView for SavepointMutation {
    type V = SavepointMutationView;

    open spec fn deep_view(&self) -> SavepointMutationView {
        self@
    }
}

#[verifier::ext_equal]
pub struct ReleaseSavepointMutationView {
    pub name: Seq<char>,
}

impl View for ReleaseSavepointMutation {
    type V = ReleaseSavepointMutationView;

    open spec fn view(&self) -> ReleaseSavepointMutationView {
        ReleaseSavepointMutationView {
            name: self.name.deep_view(),
        }
    }
}

impl DeepView for ReleaseSavepointMutation {
    type V = ReleaseSavepointMutationView;

    open spec fn deep_view(&self) -> ReleaseSavepointMutationView {
        self@
    }
}

#[verifier::ext_equal]
pub struct RollbackToSavepointMutationView {
    pub name: Seq<char>,
}

impl View for RollbackToSavepointMutation {
    type V = RollbackToSavepointMutationView;

    open spec fn view(&self) -> RollbackToSavepointMutationView {
        RollbackToSavepointMutationView {
            name: self.name.deep_view(),
        }
    }
}

impl DeepView for RollbackToSavepointMutation {
    type V = RollbackToSavepointMutationView;

    open spec fn deep_view(&self) -> RollbackToSavepointMutationView {
        self@
    }
}

#[verifier::ext_equal]
pub struct CreateFunctionMutationView {
    pub id: ObjectIdView,
    pub or_replace: bool,
    pub params: Seq<ParamFactView>,
    pub return_type: Option<RetTypeFactView>,
    pub options: Seq<FuncOptionFactView>,
}

impl View for CreateFunctionMutation {
    type V = CreateFunctionMutationView;

    open spec fn view(&self) -> CreateFunctionMutationView {
        CreateFunctionMutationView {
            id: self.id.deep_view(),
            or_replace: self.or_replace.deep_view(),
            params: self.params.deep_view(),
            return_type: self.return_type.deep_view(),
            options: self.options.deep_view(),
        }
    }
}

impl DeepView for CreateFunctionMutation {
    type V = CreateFunctionMutationView;

    open spec fn deep_view(&self) -> CreateFunctionMutationView {
        self@
    }
}

#[verifier::ext_equal]
pub struct AlterFunctionMutationView {
    pub id: ObjectIdView,
    pub action: AlterFunctionActionView,
}

impl View for AlterFunctionMutation {
    type V = AlterFunctionMutationView;

    open spec fn view(&self) -> AlterFunctionMutationView {
        AlterFunctionMutationView {
            id: self.id.deep_view(),
            action: self.action.deep_view(),
        }
    }
}

impl DeepView for AlterFunctionMutation {
    type V = AlterFunctionMutationView;

    open spec fn deep_view(&self) -> AlterFunctionMutationView {
        self@
    }
}

#[verifier::ext_equal]
pub struct DropFunctionMutationView {
    pub signatures: Seq<FunctionSigFactView>,
    pub if_exists: bool,
    pub cascade: bool,
}

impl View for DropFunctionMutation {
    type V = DropFunctionMutationView;

    open spec fn view(&self) -> DropFunctionMutationView {
        DropFunctionMutationView {
            signatures: self.signatures.deep_view(),
            if_exists: self.if_exists.deep_view(),
            cascade: self.cascade.deep_view(),
        }
    }
}

impl DeepView for DropFunctionMutation {
    type V = DropFunctionMutationView;

    open spec fn deep_view(&self) -> DropFunctionMutationView {
        self@
    }
}

#[verifier::ext_equal]
pub struct CreateProcedureMutationView {
    pub id: ObjectIdView,
    pub or_replace: bool,
    pub params: Seq<ParamFactView>,
    pub options: Seq<FuncOptionFactView>,
}

impl View for CreateProcedureMutation {
    type V = CreateProcedureMutationView;

    open spec fn view(&self) -> CreateProcedureMutationView {
        CreateProcedureMutationView {
            id: self.id.deep_view(),
            or_replace: self.or_replace.deep_view(),
            params: self.params.deep_view(),
            options: self.options.deep_view(),
        }
    }
}

impl DeepView for CreateProcedureMutation {
    type V = CreateProcedureMutationView;

    open spec fn deep_view(&self) -> CreateProcedureMutationView {
        self@
    }
}

#[verifier::ext_equal]
pub struct AlterProcedureMutationView {
    pub id: ObjectIdView,
    pub action: AlterFunctionActionView,
}

impl View for AlterProcedureMutation {
    type V = AlterProcedureMutationView;

    open spec fn view(&self) -> AlterProcedureMutationView {
        AlterProcedureMutationView {
            id: self.id.deep_view(),
            action: self.action.deep_view(),
        }
    }
}

impl DeepView for AlterProcedureMutation {
    type V = AlterProcedureMutationView;

    open spec fn deep_view(&self) -> AlterProcedureMutationView {
        self@
    }
}

#[verifier::ext_equal]
pub struct DropProcedureMutationView {
    pub signatures: Seq<FunctionSigFactView>,
    pub if_exists: bool,
    pub cascade: bool,
}

impl View for DropProcedureMutation {
    type V = DropProcedureMutationView;

    open spec fn view(&self) -> DropProcedureMutationView {
        DropProcedureMutationView {
            signatures: self.signatures.deep_view(),
            if_exists: self.if_exists.deep_view(),
            cascade: self.cascade.deep_view(),
        }
    }
}

impl DeepView for DropProcedureMutation {
    type V = DropProcedureMutationView;

    open spec fn deep_view(&self) -> DropProcedureMutationView {
        self@
    }
}

#[verifier::ext_equal]
pub struct CreateAggregateMutationView {
    pub id: ObjectIdView,
    pub or_replace: bool,
}

impl View for CreateAggregateMutation {
    type V = CreateAggregateMutationView;

    open spec fn view(&self) -> CreateAggregateMutationView {
        CreateAggregateMutationView {
            id: self.id.deep_view(),
            or_replace: self.or_replace.deep_view(),
        }
    }
}

impl DeepView for CreateAggregateMutation {
    type V = CreateAggregateMutationView;

    open spec fn deep_view(&self) -> CreateAggregateMutationView {
        self@
    }
}

#[verifier::ext_equal]
pub struct AlterAggregateMutationView {
    pub id: ObjectIdView,
    pub action: AlterFunctionActionView,
}

impl View for AlterAggregateMutation {
    type V = AlterAggregateMutationView;

    open spec fn view(&self) -> AlterAggregateMutationView {
        AlterAggregateMutationView {
            id: self.id.deep_view(),
            action: self.action.deep_view(),
        }
    }
}

impl DeepView for AlterAggregateMutation {
    type V = AlterAggregateMutationView;

    open spec fn deep_view(&self) -> AlterAggregateMutationView {
        self@
    }
}

#[verifier::ext_equal]
pub struct DropAggregateMutationView {
    pub signatures: Seq<FunctionSigFactView>,
    pub if_exists: bool,
    pub cascade: bool,
}

impl View for DropAggregateMutation {
    type V = DropAggregateMutationView;

    open spec fn view(&self) -> DropAggregateMutationView {
        DropAggregateMutationView {
            signatures: self.signatures.deep_view(),
            if_exists: self.if_exists.deep_view(),
            cascade: self.cascade.deep_view(),
        }
    }
}

impl DeepView for DropAggregateMutation {
    type V = DropAggregateMutationView;

    open spec fn deep_view(&self) -> DropAggregateMutationView {
        self@
    }
}

#[verifier::ext_equal]
pub struct CreatePublicationMutationView {
    pub name: Seq<char>,
    pub scope: PublicationScopeView,
    pub params: Seq<AttributeFactView>,
}

impl View for CreatePublicationMutation {
    type V = CreatePublicationMutationView;

    open spec fn view(&self) -> CreatePublicationMutationView {
        CreatePublicationMutationView {
            name: self.name.deep_view(),
            scope: self.scope.deep_view(),
            params: self.params.deep_view(),
        }
    }
}

impl DeepView for CreatePublicationMutation {
    type V = CreatePublicationMutationView;

    open spec fn deep_view(&self) -> CreatePublicationMutationView {
        self@
    }
}

#[verifier::ext_equal]
pub struct AlterPublicationMutationView {
    pub name: Seq<char>,
}

impl View for AlterPublicationMutation {
    type V = AlterPublicationMutationView;

    open spec fn view(&self) -> AlterPublicationMutationView {
        AlterPublicationMutationView {
            name: self.name.deep_view(),
        }
    }
}

impl DeepView for AlterPublicationMutation {
    type V = AlterPublicationMutationView;

    open spec fn deep_view(&self) -> AlterPublicationMutationView {
        self@
    }
}

#[verifier::ext_equal]
pub struct DropPublicationMutationView {
    pub names: Seq<Seq<char>>,
    pub if_exists: bool,
    pub cascade: bool,
}

impl View for DropPublicationMutation {
    type V = DropPublicationMutationView;

    open spec fn view(&self) -> DropPublicationMutationView {
        DropPublicationMutationView {
            names: self.names.deep_view(),
            if_exists: self.if_exists.deep_view(),
            cascade: self.cascade.deep_view(),
        }
    }
}

impl DeepView for DropPublicationMutation {
    type V = DropPublicationMutationView;

    open spec fn deep_view(&self) -> DropPublicationMutationView {
        self@
    }
}

#[verifier::ext_equal]
pub struct CreateSubscriptionMutationView {
    pub name: Option<Seq<char>>,
    pub connection: ConnectionTargetView,
    pub publications: Seq<Seq<char>>,
    pub params: Option<Seq<AttributeFactView>>,
}

impl View for CreateSubscriptionMutation {
    type V = CreateSubscriptionMutationView;

    open spec fn view(&self) -> CreateSubscriptionMutationView {
        CreateSubscriptionMutationView {
            name: self.name.deep_view(),
            connection: self.connection.deep_view(),
            publications: self.publications.deep_view(),
            params: self.params.deep_view(),
        }
    }
}

impl DeepView for CreateSubscriptionMutation {
    type V = CreateSubscriptionMutationView;

    open spec fn deep_view(&self) -> CreateSubscriptionMutationView {
        self@
    }
}

#[verifier::ext_equal]
pub struct AlterSubscriptionMutationView {
    pub name: Seq<char>,
}

impl View for AlterSubscriptionMutation {
    type V = AlterSubscriptionMutationView;

    open spec fn view(&self) -> AlterSubscriptionMutationView {
        AlterSubscriptionMutationView {
            name: self.name.deep_view(),
        }
    }
}

impl DeepView for AlterSubscriptionMutation {
    type V = AlterSubscriptionMutationView;

    open spec fn deep_view(&self) -> AlterSubscriptionMutationView {
        self@
    }
}

#[verifier::ext_equal]
pub struct DropSubscriptionMutationView {
    pub name: Seq<char>,
    pub if_exists: bool,
}

impl View for DropSubscriptionMutation {
    type V = DropSubscriptionMutationView;

    open spec fn view(&self) -> DropSubscriptionMutationView {
        DropSubscriptionMutationView {
            name: self.name.deep_view(),
            if_exists: self.if_exists.deep_view(),
        }
    }
}

impl DeepView for DropSubscriptionMutation {
    type V = DropSubscriptionMutationView;

    open spec fn deep_view(&self) -> DropSubscriptionMutationView {
        self@
    }
}

#[verifier::ext_equal]
pub struct CreateRoleMutationView {
    pub name: Seq<char>,
    pub inherits: bool,
    pub can_login: bool,
}

impl View for CreateRoleMutation {
    type V = CreateRoleMutationView;

    open spec fn view(&self) -> CreateRoleMutationView {
        CreateRoleMutationView {
            name: self.name.deep_view(),
            inherits: self.inherits.deep_view(),
            can_login: self.can_login.deep_view(),
        }
    }
}

impl DeepView for CreateRoleMutation {
    type V = CreateRoleMutationView;

    open spec fn deep_view(&self) -> CreateRoleMutationView {
        self@
    }
}

#[verifier::ext_equal]
pub struct AlterRoleMutationView {
    pub name: RoleFactView,
    pub inherits: Option<bool>,
}

impl View for AlterRoleMutation {
    type V = AlterRoleMutationView;

    open spec fn view(&self) -> AlterRoleMutationView {
        AlterRoleMutationView {
            name: self.name.deep_view(),
            inherits: self.inherits.deep_view(),
        }
    }
}

impl DeepView for AlterRoleMutation {
    type V = AlterRoleMutationView;

    open spec fn deep_view(&self) -> AlterRoleMutationView {
        self@
    }
}

#[verifier::ext_equal]
pub struct DropRoleMutationView {
    pub names: Seq<Seq<char>>,
    pub if_exists: bool,
}

impl View for DropRoleMutation {
    type V = DropRoleMutationView;

    open spec fn view(&self) -> DropRoleMutationView {
        DropRoleMutationView {
            names: self.names.deep_view(),
            if_exists: self.if_exists.deep_view(),
        }
    }
}

impl DeepView for DropRoleMutation {
    type V = DropRoleMutationView;

    open spec fn deep_view(&self) -> DropRoleMutationView {
        self@
    }
}

#[verifier::ext_equal]
pub enum ResolvedGrantTargetView {
    Tables(Seq<ObjectIdView>),
    AllTablesInSchema(Seq<Seq<char>>),
    Roles(Seq<ObjectIdView>),
}

impl View for ResolvedGrantTarget {
    type V = ResolvedGrantTargetView;

    open spec fn view(&self) -> ResolvedGrantTargetView {
        match self {
            ResolvedGrantTarget::Tables(a) => ResolvedGrantTargetView::Tables(a.deep_view()),
            ResolvedGrantTarget::AllTablesInSchema(a) => ResolvedGrantTargetView::AllTablesInSchema(a.deep_view()),
            ResolvedGrantTarget::Roles(a) => ResolvedGrantTargetView::Roles(a.deep_view()),
        }
    }
}

impl DeepView for ResolvedGrantTarget {
    type V = ResolvedGrantTargetView;

    open spec fn deep_view(&self) -> ResolvedGrantTargetView {
        self@
    }
}

#[verifier::ext_equal]
pub struct GrantMutationView {
    pub privileges: PrivilegeSpecView,
    pub target: ResolvedGrantTargetView,
    pub grantees: Seq<RoleFactView>,
    pub with_grant_option: bool,
    pub role_options: Seq<RoleMembershipOptionFactView>,
    pub granted_by: Option<RoleFactView>,
}

impl View for GrantMutation {
    type V = GrantMutationView;

    open spec fn view(&self) -> GrantMutationView {
        GrantMutationView {
            privileges: self.privileges.deep_view(),
            target: self.target.deep_view(),
            grantees: self.grantees.deep_view(),
            with_grant_option: self.with_grant_option.deep_view(),
            role_options: self.role_options.deep_view(),
            granted_by: self.granted_by.deep_view(),
        }
    }
}

impl DeepView for GrantMutation {
    type V = GrantMutationView;

    open spec fn deep_view(&self) -> GrantMutationView {
        self@
    }
}

#[verifier::ext_equal]
pub struct RevokeMutationView {
    pub grant_option_only: bool,
    pub role_option: Option<RoleMembershipOptionFactView>,
    pub privileges: PrivilegeSpecView,
    pub target: ResolvedGrantTargetView,
    pub revokees: Seq<RoleFactView>,
    pub granted_by: Option<RoleFactView>,
    pub cascade: bool,
}

impl View for RevokeMutation {
    type V = RevokeMutationView;

    open spec fn view(&self) -> RevokeMutationView {
        RevokeMutationView {
            grant_option_only: self.grant_option_only.deep_view(),
            role_option: self.role_option.deep_view(),
            privileges: self.privileges.deep_view(),
            target: self.target.deep_view(),
            revokees: self.revokees.deep_view(),
            granted_by: self.granted_by.deep_view(),
            cascade: self.cascade.deep_view(),
        }
    }
}

impl DeepView for RevokeMutation {
    type V = RevokeMutationView;

    open spec fn deep_view(&self) -> RevokeMutationView {
        self@
    }
}

#[verifier::ext_equal]
pub struct CreateDatabaseMutationView {
    pub name: Seq<char>,
    pub options: Seq<DatabaseOptionFactView>,
}

impl View for CreateDatabaseMutation {
    type V = CreateDatabaseMutationView;

    open spec fn view(&self) -> CreateDatabaseMutationView {
        CreateDatabaseMutationView {
            name: self.name.deep_view(),
            options: self.options.deep_view(),
        }
    }
}

impl DeepView for CreateDatabaseMutation {
    type V = CreateDatabaseMutationView;

    open spec fn deep_view(&self) -> CreateDatabaseMutationView {
        self@
    }
}

#[verifier::ext_equal]
pub struct AlterDatabaseMutationView {
    pub id: ObjectIdView,
    pub action: AlterDatabaseActionView,
}

impl View for AlterDatabaseMutation {
    type V = AlterDatabaseMutationView;

    open spec fn view(&self) -> AlterDatabaseMutationView {
        AlterDatabaseMutationView {
            id: self.id.deep_view(),
            action: self.action.deep_view(),
        }
    }
}

impl DeepView for AlterDatabaseMutation {
    type V = AlterDatabaseMutationView;

    open spec fn deep_view(&self) -> AlterDatabaseMutationView {
        self@
    }
}

#[verifier::ext_equal]
pub struct DropDatabaseMutationView {
    pub id: ObjectIdView,
    pub if_exists: bool,
}

impl View for DropDatabaseMutation {
    type V = DropDatabaseMutationView;

    open spec fn view(&self) -> DropDatabaseMutationView {
        DropDatabaseMutationView {
            id: self.id.deep_view(),
            if_exists: self.if_exists.deep_view(),
        }
    }
}

impl DeepView for DropDatabaseMutation {
    type V = DropDatabaseMutationView;

    open spec fn deep_view(&self) -> DropDatabaseMutationView {
        self@
    }
}

#[verifier::ext_equal]
pub enum OpaqueMutationView {
    UnsupportedStatement,
    DoBlock,
    Execute,
    DynamicSql,
    PrepareTransaction,
    SetTransaction,
    SetConstraints,
    StateCollision(Seq<char>),
    UnresolvedReference {
        object_kind: ObjectKind,
        object_name: Seq<char>,
    },
}

impl View for OpaqueMutation {
    type V = OpaqueMutationView;

    open spec fn view(&self) -> OpaqueMutationView {
        match self {
            OpaqueMutation::UnsupportedStatement => OpaqueMutationView::UnsupportedStatement,
            OpaqueMutation::DoBlock => OpaqueMutationView::DoBlock,
            OpaqueMutation::Execute => OpaqueMutationView::Execute,
            OpaqueMutation::DynamicSql => OpaqueMutationView::DynamicSql,
            OpaqueMutation::PrepareTransaction => OpaqueMutationView::PrepareTransaction,
            OpaqueMutation::SetTransaction => OpaqueMutationView::SetTransaction,
            OpaqueMutation::SetConstraints => OpaqueMutationView::SetConstraints,
            OpaqueMutation::StateCollision(a) => OpaqueMutationView::StateCollision(a.deep_view()),
            OpaqueMutation::UnresolvedReference { object_kind, object_name } => OpaqueMutationView::UnresolvedReference {
                object_kind: object_kind.deep_view(),
                object_name: object_name.deep_view(),
            },
        }
    }
}

impl DeepView for OpaqueMutation {
    type V = OpaqueMutationView;

    open spec fn deep_view(&self) -> OpaqueMutationView {
        self@
    }
}

#[verifier::ext_equal]
pub enum AlterTableActionMutationView {
    AddColumn {
        name: Seq<char>,
        ty: Option<Seq<char>>,
        if_not_exists: bool,
        not_null: bool,
        default: Option<ExprIrView>,
        depends_on: Option<(ObjectIdView, Seq<char>)>,
        generation: ColumnGeneration,
    },
    DropColumn {
        name: Seq<char>,
        if_exists: bool,
        cascade: bool,
    },
    RenameColumn {
        from: Seq<char>,
        to: Seq<char>,
    },
    AddForeignKey {
        constraint_name: Option<Seq<char>>,
        to_table: ObjectIdView,
        from_columns: Seq<Seq<char>>,
        to_columns: Seq<Seq<char>>,
        not_valid: bool,
    },
    AlterConstraint {
        name: Option<Seq<char>>,
        deferrable: bool,
    },
    RenameConstraint {
        old_name: Seq<char>,
        new_name: Seq<char>,
    },
    DropConstraint {
        name: Seq<char>,
        if_exists: bool,
        cascade: bool,
    },
    AddCheckConstraint {
        constraint_name: Option<Seq<char>>,
        columns: Seq<Seq<char>>,
        columns_complete: bool,
        not_valid: bool,
    },
    AddUniqueConstraint {
        constraint_name: Option<Seq<char>>,
        columns: Seq<Seq<char>>,
        using_index: Option<ObjectIdView>,
    },
    AddPrimaryKeyConstraint {
        constraint_name: Option<Seq<char>>,
        columns: Seq<Seq<char>>,
        using_index: Option<ObjectIdView>,
    },
    AddExcludeConstraint {
        constraint_name: Option<Seq<char>>,
        columns: Seq<Seq<char>>,
        columns_complete: bool,
    },
    SetNotNull {
        column: Seq<char>,
    },
    DropNotNull {
        column: Seq<char>,
    },
    SetType {
        column: Seq<char>,
        ty: Seq<char>,
        has_using: bool,
    },
    SetDefault {
        column: Seq<char>,
        default: Option<ExprIrView>,
    },
    ValidateConstraint {
        constraint_name: Seq<char>,
    },
    DisableTrigger {
        trigger_name: Option<Seq<char>>,
    },
    EnableTrigger {
        trigger_name: Option<Seq<char>>,
    },
    AttachPartition {
        child: ObjectIdView,
        strategy: Option<Seq<char>>,
    },
    DetachPartition {
        child: ObjectIdView,
    },
    SetStorage {
        column: Seq<char>,
    },
    SetAccessMethod,
    OwnerTo {
        new_owner: RoleFactView,
    },
    Opaque,
}

impl View for AlterTableActionMutation {
    type V = AlterTableActionMutationView;

    open spec fn view(&self) -> AlterTableActionMutationView {
        match self {
            AlterTableActionMutation::AddColumn { name, ty, if_not_exists, not_null, default, depends_on, generation } => AlterTableActionMutationView::AddColumn {
                name: name.deep_view(),
                ty: ty.deep_view(),
                if_not_exists: if_not_exists.deep_view(),
                not_null: not_null.deep_view(),
                default: default.deep_view(),
                depends_on: depends_on.deep_view(),
                generation: generation.deep_view(),
            },
            AlterTableActionMutation::DropColumn { name, if_exists, cascade } => AlterTableActionMutationView::DropColumn {
                name: name.deep_view(),
                if_exists: if_exists.deep_view(),
                cascade: cascade.deep_view(),
            },
            AlterTableActionMutation::RenameColumn { from, to } => AlterTableActionMutationView::RenameColumn {
                from: from.deep_view(),
                to: to.deep_view(),
            },
            AlterTableActionMutation::AddForeignKey { constraint_name, to_table, from_columns, to_columns, not_valid } => AlterTableActionMutationView::AddForeignKey {
                constraint_name: constraint_name.deep_view(),
                to_table: to_table.deep_view(),
                from_columns: from_columns.deep_view(),
                to_columns: to_columns.deep_view(),
                not_valid: not_valid.deep_view(),
            },
            AlterTableActionMutation::AlterConstraint { name, deferrable } => AlterTableActionMutationView::AlterConstraint {
                name: name.deep_view(),
                deferrable: deferrable.deep_view(),
            },
            AlterTableActionMutation::RenameConstraint { old_name, new_name } => AlterTableActionMutationView::RenameConstraint {
                old_name: old_name.deep_view(),
                new_name: new_name.deep_view(),
            },
            AlterTableActionMutation::DropConstraint { name, if_exists, cascade } => AlterTableActionMutationView::DropConstraint {
                name: name.deep_view(),
                if_exists: if_exists.deep_view(),
                cascade: cascade.deep_view(),
            },
            AlterTableActionMutation::AddCheckConstraint { constraint_name, columns, columns_complete, not_valid } => AlterTableActionMutationView::AddCheckConstraint {
                constraint_name: constraint_name.deep_view(),
                columns: columns.deep_view(),
                columns_complete: columns_complete.deep_view(),
                not_valid: not_valid.deep_view(),
            },
            AlterTableActionMutation::AddUniqueConstraint { constraint_name, columns, using_index } => AlterTableActionMutationView::AddUniqueConstraint {
                constraint_name: constraint_name.deep_view(),
                columns: columns.deep_view(),
                using_index: using_index.deep_view(),
            },
            AlterTableActionMutation::AddPrimaryKeyConstraint { constraint_name, columns, using_index } => AlterTableActionMutationView::AddPrimaryKeyConstraint {
                constraint_name: constraint_name.deep_view(),
                columns: columns.deep_view(),
                using_index: using_index.deep_view(),
            },
            AlterTableActionMutation::AddExcludeConstraint { constraint_name, columns, columns_complete } => AlterTableActionMutationView::AddExcludeConstraint {
                constraint_name: constraint_name.deep_view(),
                columns: columns.deep_view(),
                columns_complete: columns_complete.deep_view(),
            },
            AlterTableActionMutation::SetNotNull { column } => AlterTableActionMutationView::SetNotNull {
                column: column.deep_view(),
            },
            AlterTableActionMutation::DropNotNull { column } => AlterTableActionMutationView::DropNotNull {
                column: column.deep_view(),
            },
            AlterTableActionMutation::SetType { column, ty, has_using } => AlterTableActionMutationView::SetType {
                column: column.deep_view(),
                ty: ty.deep_view(),
                has_using: has_using.deep_view(),
            },
            AlterTableActionMutation::SetDefault { column, default } => AlterTableActionMutationView::SetDefault {
                column: column.deep_view(),
                default: default.deep_view(),
            },
            AlterTableActionMutation::ValidateConstraint { constraint_name } => AlterTableActionMutationView::ValidateConstraint {
                constraint_name: constraint_name.deep_view(),
            },
            AlterTableActionMutation::DisableTrigger { trigger_name } => AlterTableActionMutationView::DisableTrigger {
                trigger_name: trigger_name.deep_view(),
            },
            AlterTableActionMutation::EnableTrigger { trigger_name } => AlterTableActionMutationView::EnableTrigger {
                trigger_name: trigger_name.deep_view(),
            },
            AlterTableActionMutation::AttachPartition { child, strategy } => AlterTableActionMutationView::AttachPartition {
                child: child.deep_view(),
                strategy: strategy.deep_view(),
            },
            AlterTableActionMutation::DetachPartition { child } => AlterTableActionMutationView::DetachPartition {
                child: child.deep_view(),
            },
            AlterTableActionMutation::SetStorage { column } => AlterTableActionMutationView::SetStorage {
                column: column.deep_view(),
            },
            AlterTableActionMutation::SetAccessMethod => AlterTableActionMutationView::SetAccessMethod,
            AlterTableActionMutation::OwnerTo { new_owner } => AlterTableActionMutationView::OwnerTo {
                new_owner: new_owner.deep_view(),
            },
            AlterTableActionMutation::Opaque => AlterTableActionMutationView::Opaque,
        }
    }
}

impl DeepView for AlterTableActionMutation {
    type V = AlterTableActionMutationView;

    open spec fn deep_view(&self) -> AlterTableActionMutationView {
        self@
    }
}

impl DeepView for ObjectKind {
    type V = ObjectKind;

    open spec fn deep_view(&self) -> ObjectKind {
        *self
    }
}

} // verus!
