//! The analysis state and its model.
pub mod alter_column;
pub mod alter_constraint;
pub mod alter_table;
pub mod apply;
pub mod apply_grant;
pub mod apply_membership;
pub mod apply_misc;
pub mod apply_policy_trigger;
pub mod apply_privileges;
pub mod apply_role;
pub mod apply_schema;
pub mod apply_sequence;
pub mod apply_settings;
pub mod apply_transaction;
pub mod apply_view_index;
pub mod authority;
pub mod bulk;
pub mod cascade;
pub mod create_table;
pub mod drop_column;
pub mod drop_table;
pub mod foreign_keys;
pub mod generated_names;
pub mod hydration;
pub mod journal;
pub mod lookup;
pub mod notes;
pub mod pre_state;
pub mod refusal;
pub mod rename_relation;
pub mod replication;
pub mod routine_move;
pub mod schema_rename;
pub mod search_path;
pub mod sequence_refs;
pub mod type_refs;
pub mod unmodeled;

use crate::cache::{CatalogCoverage, CatalogCoverageView};
use crate::collections::{Dup, VecMap, VecSet};
use crate::evidence::{EvidenceLocation, EvidenceLog, EvidenceRecord};
use crate::graph::{DependencyEdgeView, DependencyGraph};
use crate::identifiers::{ObjectId, ObjectIdView};
use crate::model::constraint::{ConstraintState, ConstraintStateView};
use crate::model::function::{FunctionOverlay, FunctionStateView};
use crate::model::relation::{RelationOverlay, RelationStateView};
use crate::model::replication::{PublicationOverlay, PublicationStateView, SubscriptionOverlay, SubscriptionStateView};
use crate::model::role::{RoleMembershipGrantor, RoleMembershipGrantorView, RoleOverlay, RoleStateView};
use crate::model::schema::{SchemaOverlay, SchemaStateView};
use crate::model::sequence::{SequenceOverlay, SequenceStateView};
use crate::model::trigger::{TriggerOverlay, TriggerStateView};
use crate::model::types::{TypeOverlay, TypeStateView};
use crate::model::Overlay;
use crate::settings::ScopedSetting;
use crate::transaction::{TransactionFrame, TransactionFrameView};
use vstd::prelude::*;

verus! {

/// Whether the modeled state is exact or rests on gaps.
#[derive(Clone, Copy, Debug, PartialEq, Eq, Structural)]
pub enum Confidence {
    Exact,
    Tainted,
}

impl DeepView for Confidence {
    type V = Confidence;

    open spec fn deep_view(&self) -> Confidence {
        *self
    }
}

impl Dup for Confidence {
    fn dup(&self) -> (r: Self) {
        *self
    }
}

/// What became of a mutation.
#[derive(Debug, PartialEq, Eq)]
pub enum MutationResult {
    Applied,
    Skipped,
    /// The statement was not executed: an earlier one aborted the
    /// transaction.
    NotExecuted,
    Conflict {
        reason: String,
    },
}

pub enum MutationResultView {
    Applied,
    Skipped,
    NotExecuted,
    Conflict {
        reason: Seq<char>,
    },
}

impl View for MutationResult {
    type V = MutationResultView;

    open spec fn view(&self) -> MutationResultView {
        match self {
            MutationResult::Applied => MutationResultView::Applied,
            MutationResult::Skipped => MutationResultView::Skipped,
            MutationResult::NotExecuted => MutationResultView::NotExecuted,
            MutationResult::Conflict { reason } => MutationResultView::Conflict {
                reason: reason.deep_view(),
            },
        }
    }
}

impl DeepView for MutationResult {
    type V = MutationResultView;

    open spec fn deep_view(&self) -> MutationResultView {
        self@
    }
}

impl Dup for MutationResult {
    fn dup(&self) -> (r: Self) {
        match self {
            MutationResult::Applied => MutationResult::Applied,
            MutationResult::Skipped => MutationResult::Skipped,
            MutationResult::NotExecuted => MutationResult::NotExecuted,
            MutationResult::Conflict { reason } => MutationResult::Conflict {
                reason: reason.dup(),
            },
        }
    }
}

/// What is known of the object that a statement names.
#[derive(Clone, Copy, Debug, PartialEq, Eq, Structural)]
pub enum ObjectLookup {
    Present,
    WrongKind,
    Tombstone,
    AuthoritativelyAbsent,
    Unknown,
}

/// The part of the state that statements change.
#[derive(Debug)]
pub struct LocalState {
    pub schemas: VecMap<String, SchemaOverlay>,
    pub relations: VecMap<ObjectId, RelationOverlay>,
    pub types: VecMap<ObjectId, TypeOverlay>,
    pub functions: VecMap<ObjectId, FunctionOverlay>,
    pub sequences: VecMap<ObjectId, SequenceOverlay>,
    pub publications: VecMap<String, PublicationOverlay>,
    pub subscriptions: VecMap<String, SubscriptionOverlay>,
    pub roles: VecMap<ObjectId, RoleOverlay>,
    /// Who made which role a member of which.
    pub role_membership_grantors: Vec<RoleMembershipGrantor>,
    /// Whether every membership has its grantor.
    pub role_membership_grantors_complete: bool,
    pub triggers: VecMap<ObjectId, TriggerOverlay>,
    pub constraints: VecMap<(ObjectId, String), ConstraintState>,
    pub graph: DependencyGraph,
    pub search_path: Vec<String>,
    pub default_search_path: Vec<String>,
    pub search_path_template: Vec<String>,
    pub session_search_path_template: Vec<String>,
    pub default_search_path_template: Vec<String>,
    pub lock_timeout: ScopedSetting<Option<u64>>,
    pub statement_timeout: ScopedSetting<Option<u64>>,
    /// Role in force, as `SET ROLE` and `SET SESSION AUTHORIZATION` left it.
    pub current_role: String,
    pub current_role_known: bool,
    /// Role that survives the end of the transaction.
    pub persistent_current_role: String,
    pub persistent_current_role_known: bool,
    /// Role that `SET ROLE NONE` reverts to.
    pub session_role: String,
    pub session_role_known: bool,
    /// Session authorization that survives the end of the transaction.
    pub persistent_session_role: String,
    pub persistent_session_role_known: bool,
    /// Login identity that `SET SESSION AUTHORIZATION DEFAULT` restores.
    pub authenticated_role: String,
    pub authenticated_role_known: bool,
    /// Whether the cache holds a complete role catalog.
    pub roles_known: bool,
    pub confidence: Confidence,
    pub evidence: EvidenceLog,
    pub current_evidence_location: Option<EvidenceLocation>,
    pub pending_validation: VecSet<(ObjectId, String)>,
    pub generation_counter: u64,
    pub transactions: Vec<TransactionFrame>,
    pub transaction_aborted: bool,
}

/// The modeled catalog, the session, and the open transaction.
#[derive(Debug)]
pub struct AnalysisState {
    pub pg_version_num: Option<u32>,
    /// Whether the initial cache was loaded from a real cache file. An empty cache can be a valid baseline.
    pub baseline_available: bool,
    /// Whether scoped cross-catalog boundary queries were run.
    pub baseline_boundary_queries_complete: bool,
    /// What the baseline is complete for.
    pub baseline_coverage: CatalogCoverage,
    /// `None` means that the cache covered all schemas.
    pub baseline_schemas: Option<VecSet<String>>,
    pub baseline_relations: VecSet<ObjectId>,
    pub baseline_indexes: VecSet<ObjectId>,
    pub baseline_foreign_keys: VecSet<(ObjectId, String)>,
    pub baseline_fk_dependencies: VecSet<ObjectId>,
    pub baseline_sequences: VecSet<ObjectId>,
    pub scoped_external_relation_dependencies: VecSet<ObjectId>,
    pub scoped_external_type_dependencies: VecSet<ObjectId>,
    pub scoped_external_routine_dependencies: VecSet<ObjectId>,
    pub local: LocalState,
}

/// Everything that a rollback can bring back.
pub struct StateData {
    pub pg_version_num: Option<u32>,
    pub baseline_available: bool,
    pub baseline_boundary_queries_complete: bool,
    pub baseline_coverage: CatalogCoverageView,
    pub baseline_schemas: Option<Set<Seq<char>>>,
    pub baseline_relations: Set<ObjectIdView>,
    pub baseline_indexes: Set<ObjectIdView>,
    pub baseline_foreign_keys: Set<(ObjectIdView, Seq<char>)>,
    pub baseline_fk_dependencies: Set<ObjectIdView>,
    pub baseline_sequences: Set<ObjectIdView>,
    pub scoped_external_relation_dependencies: Set<ObjectIdView>,
    pub scoped_external_type_dependencies: Set<ObjectIdView>,
    pub scoped_external_routine_dependencies: Set<ObjectIdView>,
    pub schemas: Map<Seq<char>, Overlay<SchemaStateView>>,
    pub relations: Map<ObjectIdView, Overlay<RelationStateView>>,
    pub types: Map<ObjectIdView, Overlay<TypeStateView>>,
    pub functions: Map<ObjectIdView, Overlay<FunctionStateView>>,
    pub sequences: Map<ObjectIdView, Overlay<SequenceStateView>>,
    pub publications: Map<Seq<char>, Overlay<PublicationStateView>>,
    pub subscriptions: Map<Seq<char>, Overlay<SubscriptionStateView>>,
    pub roles: Map<ObjectIdView, Overlay<RoleStateView>>,
    pub role_membership_grantors: Seq<RoleMembershipGrantorView>,
    pub role_membership_grantors_complete: bool,
    pub triggers: Map<ObjectIdView, Overlay<TriggerStateView>>,
    pub constraints: Map<(ObjectIdView, Seq<char>), ConstraintStateView>,
    pub graph: Seq<DependencyEdgeView>,
    pub search_path: Seq<Seq<char>>,
    pub default_search_path: Seq<Seq<char>>,
    pub search_path_template: Seq<Seq<char>>,
    pub session_search_path_template: Seq<Seq<char>>,
    pub default_search_path_template: Seq<Seq<char>>,
    pub lock_timeout: ScopedSetting<Option<u64>>,
    pub statement_timeout: ScopedSetting<Option<u64>>,
    pub current_role: Seq<char>,
    pub current_role_known: bool,
    pub persistent_current_role: Seq<char>,
    pub persistent_current_role_known: bool,
    pub session_role: Seq<char>,
    pub session_role_known: bool,
    pub persistent_session_role: Seq<char>,
    pub persistent_session_role_known: bool,
    pub authenticated_role: Seq<char>,
    pub authenticated_role_known: bool,
    pub roles_known: bool,
    pub confidence: Confidence,
    pub evidence: Seq<EvidenceRecord>,
    pub current_evidence_location: Option<EvidenceLocation>,
    pub pending_validation: Set<(ObjectIdView, Seq<char>)>,
    pub generation_counter: u64,
}

/// The state as a whole: its data, the open transaction frames, and whether
/// the transaction is aborted.
pub struct AnalysisStateView {
    pub data: StateData,
    pub frames: Seq<TransactionFrameView>,
    pub aborted: bool,
}

impl View for AnalysisState {
    type V = AnalysisStateView;

    open spec fn view(&self) -> AnalysisStateView {
        AnalysisStateView { data: data_of(*self), frames: self.local.transactions.deep_view(), aborted: self.local.transaction_aborted }
    }
}

/// The data of a state, field by field.
#[verifier::opaque]
pub open spec fn data_of(state: AnalysisState) -> StateData {
    StateData {
        pg_version_num: state.pg_version_num.deep_view(),
        baseline_available: state.baseline_available.deep_view(),
        baseline_boundary_queries_complete: state.baseline_boundary_queries_complete.deep_view(),
        baseline_coverage: state.baseline_coverage.deep_view(),
        baseline_schemas: state.baseline_schemas.deep_view(),
        baseline_relations: state.baseline_relations.deep_view(),
        baseline_indexes: state.baseline_indexes.deep_view(),
        baseline_foreign_keys: state.baseline_foreign_keys.deep_view(),
        baseline_fk_dependencies: state.baseline_fk_dependencies.deep_view(),
        baseline_sequences: state.baseline_sequences.deep_view(),
        scoped_external_relation_dependencies: state.scoped_external_relation_dependencies.deep_view(),
        scoped_external_type_dependencies: state.scoped_external_type_dependencies.deep_view(),
        scoped_external_routine_dependencies: state.scoped_external_routine_dependencies.deep_view(),
        schemas: state.local.schemas.deep_view(),
        relations: state.local.relations.deep_view(),
        types: state.local.types.deep_view(),
        functions: state.local.functions.deep_view(),
        sequences: state.local.sequences.deep_view(),
        publications: state.local.publications.deep_view(),
        subscriptions: state.local.subscriptions.deep_view(),
        roles: state.local.roles.deep_view(),
        role_membership_grantors: state.local.role_membership_grantors.deep_view(),
        role_membership_grantors_complete: state.local.role_membership_grantors_complete.deep_view(),
        triggers: state.local.triggers.deep_view(),
        constraints: state.local.constraints.deep_view(),
        graph: state.local.graph.deep_view(),
        search_path: state.local.search_path.deep_view(),
        default_search_path: state.local.default_search_path.deep_view(),
        search_path_template: state.local.search_path_template.deep_view(),
        session_search_path_template: state.local.session_search_path_template.deep_view(),
        default_search_path_template: state.local.default_search_path_template.deep_view(),
        lock_timeout: state.local.lock_timeout.deep_view(),
        statement_timeout: state.local.statement_timeout.deep_view(),
        current_role: state.local.current_role.deep_view(),
        current_role_known: state.local.current_role_known.deep_view(),
        persistent_current_role: state.local.persistent_current_role.deep_view(),
        persistent_current_role_known: state.local.persistent_current_role_known.deep_view(),
        session_role: state.local.session_role.deep_view(),
        session_role_known: state.local.session_role_known.deep_view(),
        persistent_session_role: state.local.persistent_session_role.deep_view(),
        persistent_session_role_known: state.local.persistent_session_role_known.deep_view(),
        authenticated_role: state.local.authenticated_role.deep_view(),
        authenticated_role_known: state.local.authenticated_role_known.deep_view(),
        roles_known: state.local.roles_known.deep_view(),
        confidence: state.local.confidence.deep_view(),
        evidence: state.local.evidence.deep_view(),
        current_evidence_location: state.local.current_evidence_location.deep_view(),
        pending_validation: state.local.pending_validation.deep_view(),
        generation_counter: state.local.generation_counter.deep_view(),
    }
}

} // verus!
