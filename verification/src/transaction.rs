//! Transaction frames and the undo log that each of them keeps.
use crate::collections::{Dup, VecMap, VecSet};
use crate::evidence::{EvidenceLog, EvidenceRecord};
use crate::graph::{DependencyEdge, DependencyEdgeView};
use crate::identifiers::{ObjectId, ObjectIdView};
use crate::model::constraint::{ConstraintState, ConstraintStateView};
use crate::model::function::{FunctionState, FunctionStateView};
use crate::model::relation::{RelationState, RelationStateView};
use crate::model::replication::{PublicationState, PublicationStateView, SubscriptionState, SubscriptionStateView};
use crate::model::role::{RoleMembershipGrantor, RoleMembershipGrantorView, RoleState, RoleStateView};
use crate::model::schema::{SchemaState, SchemaStateView};
use crate::model::sequence::{SequenceState, SequenceStateView};
use crate::model::trigger::{TriggerState, TriggerStateView};
use crate::model::types::{TypeState, TypeStateView};
use crate::model::Overlay;
use crate::settings::ScopedSetting;
use crate::state::Confidence;
use crate::text::text_eq;
use vstd::prelude::*;

verus! {

/// Every namespace-bearing part of the state.
#[derive(Debug)]
pub struct NamespaceSnapshot {
    pub schemas: VecMap<String, Overlay<SchemaState>>,
    pub relations: VecMap<ObjectId, Overlay<RelationState>>,
    pub types: VecMap<ObjectId, Overlay<TypeState>>,
    pub functions: VecMap<ObjectId, Overlay<FunctionState>>,
    pub sequences: VecMap<ObjectId, Overlay<SequenceState>>,
    pub publications: VecMap<String, Overlay<PublicationState>>,
    pub triggers: VecMap<ObjectId, Overlay<TriggerState>>,
    pub constraints: VecMap<(ObjectId, String), ConstraintState>,
    pub graph: Vec<DependencyEdge>,
    pub pending_validation: VecSet<(ObjectId, String)>,
    pub baseline_relations: VecSet<ObjectId>,
    pub baseline_indexes: VecSet<ObjectId>,
    pub baseline_foreign_keys: VecSet<(ObjectId, String)>,
    pub baseline_fk_dependencies: VecSet<ObjectId>,
    pub baseline_sequences: VecSet<ObjectId>,
    pub scoped_external_relation_dependencies: VecSet<ObjectId>,
    pub scoped_external_type_dependencies: VecSet<ObjectId>,
    pub scoped_external_routine_dependencies: VecSet<ObjectId>,
    pub baseline_schemas: Option<VecSet<String>>,
    pub search_path: Vec<String>,
    pub search_path_template: Vec<String>,
    pub session_search_path_template: Vec<String>,
}

#[verifier::ext_equal]
pub struct NamespaceSnapshotView {
    pub schemas: Map<Seq<char>, Overlay<SchemaStateView>>,
    pub relations: Map<ObjectIdView, Overlay<RelationStateView>>,
    pub types: Map<ObjectIdView, Overlay<TypeStateView>>,
    pub functions: Map<ObjectIdView, Overlay<FunctionStateView>>,
    pub sequences: Map<ObjectIdView, Overlay<SequenceStateView>>,
    pub publications: Map<Seq<char>, Overlay<PublicationStateView>>,
    pub triggers: Map<ObjectIdView, Overlay<TriggerStateView>>,
    pub constraints: Map<(ObjectIdView, Seq<char>), ConstraintStateView>,
    pub graph: Seq<DependencyEdgeView>,
    pub pending_validation: Set<(ObjectIdView, Seq<char>)>,
    pub baseline_relations: Set<ObjectIdView>,
    pub baseline_indexes: Set<ObjectIdView>,
    pub baseline_foreign_keys: Set<(ObjectIdView, Seq<char>)>,
    pub baseline_fk_dependencies: Set<ObjectIdView>,
    pub baseline_sequences: Set<ObjectIdView>,
    pub scoped_external_relation_dependencies: Set<ObjectIdView>,
    pub scoped_external_type_dependencies: Set<ObjectIdView>,
    pub scoped_external_routine_dependencies: Set<ObjectIdView>,
    pub baseline_schemas: Option<Set<Seq<char>>>,
    pub search_path: Seq<Seq<char>>,
    pub search_path_template: Seq<Seq<char>>,
    pub session_search_path_template: Seq<Seq<char>>,
}

impl View for NamespaceSnapshot {
    type V = NamespaceSnapshotView;

    open spec fn view(&self) -> NamespaceSnapshotView {
        NamespaceSnapshotView {
            schemas: self.schemas.deep_view(),
            relations: self.relations.deep_view(),
            types: self.types.deep_view(),
            functions: self.functions.deep_view(),
            sequences: self.sequences.deep_view(),
            publications: self.publications.deep_view(),
            triggers: self.triggers.deep_view(),
            constraints: self.constraints.deep_view(),
            graph: self.graph.deep_view(),
            pending_validation: self.pending_validation.deep_view(),
            baseline_relations: self.baseline_relations.deep_view(),
            baseline_indexes: self.baseline_indexes.deep_view(),
            baseline_foreign_keys: self.baseline_foreign_keys.deep_view(),
            baseline_fk_dependencies: self.baseline_fk_dependencies.deep_view(),
            baseline_sequences: self.baseline_sequences.deep_view(),
            scoped_external_relation_dependencies: self.scoped_external_relation_dependencies.deep_view(),
            scoped_external_type_dependencies: self.scoped_external_type_dependencies.deep_view(),
            scoped_external_routine_dependencies: self.scoped_external_routine_dependencies.deep_view(),
            baseline_schemas: self.baseline_schemas.deep_view(),
            search_path: self.search_path.deep_view(),
            search_path_template: self.search_path_template.deep_view(),
            session_search_path_template: self.session_search_path_template.deep_view(),
        }
    }
}

impl DeepView for NamespaceSnapshot {
    type V = NamespaceSnapshotView;

    open spec fn deep_view(&self) -> NamespaceSnapshotView {
        self@
    }
}

impl Dup for NamespaceSnapshot {
    fn dup(&self) -> (r: Self) {
        NamespaceSnapshot {
            schemas: self.schemas.dup(),
            relations: self.relations.dup(),
            types: self.types.dup(),
            functions: self.functions.dup(),
            sequences: self.sequences.dup(),
            publications: self.publications.dup(),
            triggers: self.triggers.dup(),
            constraints: self.constraints.dup(),
            graph: self.graph.dup(),
            pending_validation: self.pending_validation.dup(),
            baseline_relations: self.baseline_relations.dup(),
            baseline_indexes: self.baseline_indexes.dup(),
            baseline_foreign_keys: self.baseline_foreign_keys.dup(),
            baseline_fk_dependencies: self.baseline_fk_dependencies.dup(),
            baseline_sequences: self.baseline_sequences.dup(),
            scoped_external_relation_dependencies: self.scoped_external_relation_dependencies.dup(),
            scoped_external_type_dependencies: self.scoped_external_type_dependencies.dup(),
            scoped_external_routine_dependencies: self.scoped_external_routine_dependencies.dup(),
            baseline_schemas: self.baseline_schemas.dup(),
            search_path: self.search_path.dup(),
            search_path_template: self.search_path_template.dup(),
            session_search_path_template: self.session_search_path_template.dup(),
        }
    }
}

/// What a change replaced, so that it can be undone.
#[derive(Debug)]
pub enum StateChange {
    SchemaSnapshot {
        name: String,
        previous: Option<Overlay<SchemaState>>,
    },
    NamespaceSnapshot(Box<NamespaceSnapshot>),
    /// The parts of a namespace snapshot but for its edges.
    CatalogSnapshot(Box<NamespaceSnapshot>),
    RelationSnapshot {
        id: ObjectId,
        previous: Box<Option<Overlay<RelationState>>>,
    },
    TypeSnapshot {
        id: ObjectId,
        previous: Option<Overlay<TypeState>>,
    },
    SequenceSnapshot {
        id: ObjectId,
        previous: Option<Overlay<SequenceState>>,
    },
    SearchPathSnapshot {
        previous: Vec<String>,
        previous_template: Vec<String>,
        previous_session_template: Vec<String>,
    },
    TimeoutSettingsSnapshot {
        lock_timeout: ScopedSetting<Option<u64>>,
        statement_timeout: ScopedSetting<Option<u64>>,
    },
    GenerationCounterSnapshot {
        previous: u64,
    },
    PendingValidationSnapshot {
        previous: VecSet<(ObjectId, String)>,
    },
    GraphLengthMarker {
        len: usize,
    },
    GraphSnapshot {
        previous: Vec<DependencyEdge>,
    },
    FunctionSnapshot {
        id: ObjectId,
        previous: Option<Overlay<FunctionState>>,
    },
    PublicationSnapshot {
        id: ObjectId,
        previous: Option<Overlay<PublicationState>>,
    },
    SubscriptionSnapshot {
        id: ObjectId,
        previous: Option<Overlay<SubscriptionState>>,
    },
    RoleSnapshot {
        id: ObjectId,
        previous: Option<Overlay<RoleState>>,
    },
    RoleMembershipGrantorsSnapshot {
        previous: Vec<RoleMembershipGrantor>,
        complete: bool,
    },
    TriggerSnapshot {
        id: ObjectId,
        previous: Option<Overlay<TriggerState>>,
    },
    ConstraintSnapshot {
        table_id: ObjectId,
        name: String,
        previous: Option<ConstraintState>,
    },
    BaselineForeignKeysSnapshot {
        previous: VecSet<(ObjectId, String)>,
    },
    RoleContextSnapshot {
        current_role: String,
        current_role_known: bool,
        persistent_current_role: String,
        persistent_current_role_known: bool,
        session_role: String,
        session_role_known: bool,
        persistent_session_role: String,
        persistent_session_role_known: bool,
    },
    ConfidenceSnapshot {
        previous: Confidence,
    },
    EvidenceSnapshot {
        previous: EvidenceLog,
    },
}

#[verifier::ext_equal]
pub enum StateChangeView {
    SchemaSnapshot {
        name: Seq<char>,
        previous: Option<Overlay<SchemaStateView>>,
    },
    NamespaceSnapshot(NamespaceSnapshotView),
    CatalogSnapshot(NamespaceSnapshotView),
    RelationSnapshot {
        id: ObjectIdView,
        previous: Option<Overlay<RelationStateView>>,
    },
    TypeSnapshot {
        id: ObjectIdView,
        previous: Option<Overlay<TypeStateView>>,
    },
    SequenceSnapshot {
        id: ObjectIdView,
        previous: Option<Overlay<SequenceStateView>>,
    },
    SearchPathSnapshot {
        previous: Seq<Seq<char>>,
        previous_template: Seq<Seq<char>>,
        previous_session_template: Seq<Seq<char>>,
    },
    TimeoutSettingsSnapshot {
        lock_timeout: ScopedSetting<Option<u64>>,
        statement_timeout: ScopedSetting<Option<u64>>,
    },
    GenerationCounterSnapshot {
        previous: u64,
    },
    PendingValidationSnapshot {
        previous: Set<(ObjectIdView, Seq<char>)>,
    },
    GraphLengthMarker {
        len: usize,
    },
    GraphSnapshot {
        previous: Seq<DependencyEdgeView>,
    },
    FunctionSnapshot {
        id: ObjectIdView,
        previous: Option<Overlay<FunctionStateView>>,
    },
    PublicationSnapshot {
        id: ObjectIdView,
        previous: Option<Overlay<PublicationStateView>>,
    },
    SubscriptionSnapshot {
        id: ObjectIdView,
        previous: Option<Overlay<SubscriptionStateView>>,
    },
    RoleSnapshot {
        id: ObjectIdView,
        previous: Option<Overlay<RoleStateView>>,
    },
    RoleMembershipGrantorsSnapshot {
        previous: Seq<RoleMembershipGrantorView>,
        complete: bool,
    },
    TriggerSnapshot {
        id: ObjectIdView,
        previous: Option<Overlay<TriggerStateView>>,
    },
    ConstraintSnapshot {
        table_id: ObjectIdView,
        name: Seq<char>,
        previous: Option<ConstraintStateView>,
    },
    BaselineForeignKeysSnapshot {
        previous: Set<(ObjectIdView, Seq<char>)>,
    },
    RoleContextSnapshot {
        current_role: Seq<char>,
        current_role_known: bool,
        persistent_current_role: Seq<char>,
        persistent_current_role_known: bool,
        session_role: Seq<char>,
        session_role_known: bool,
        persistent_session_role: Seq<char>,
        persistent_session_role_known: bool,
    },
    ConfidenceSnapshot {
        previous: Confidence,
    },
    EvidenceSnapshot {
        previous: Seq<EvidenceRecord>,
    },
}

impl View for StateChange {
    type V = StateChangeView;

    open spec fn view(&self) -> StateChangeView {
        match self {
            StateChange::SchemaSnapshot { name, previous } => StateChangeView::SchemaSnapshot {
                name: name.deep_view(),
                previous: previous.deep_view(),
            },
            StateChange::NamespaceSnapshot(a) => StateChangeView::NamespaceSnapshot(a.deep_view()),
            StateChange::CatalogSnapshot(a) => StateChangeView::CatalogSnapshot(a.deep_view()),
            StateChange::RelationSnapshot { id, previous } => StateChangeView::RelationSnapshot {
                id: id.deep_view(),
                previous: previous.deep_view(),
            },
            StateChange::TypeSnapshot { id, previous } => StateChangeView::TypeSnapshot {
                id: id.deep_view(),
                previous: previous.deep_view(),
            },
            StateChange::SequenceSnapshot { id, previous } => StateChangeView::SequenceSnapshot {
                id: id.deep_view(),
                previous: previous.deep_view(),
            },
            StateChange::SearchPathSnapshot { previous, previous_template, previous_session_template } => StateChangeView::SearchPathSnapshot {
                previous: previous.deep_view(),
                previous_template: previous_template.deep_view(),
                previous_session_template: previous_session_template.deep_view(),
            },
            StateChange::TimeoutSettingsSnapshot { lock_timeout, statement_timeout } => StateChangeView::TimeoutSettingsSnapshot {
                lock_timeout: lock_timeout.deep_view(),
                statement_timeout: statement_timeout.deep_view(),
            },
            StateChange::GenerationCounterSnapshot { previous } => StateChangeView::GenerationCounterSnapshot {
                previous: previous.deep_view(),
            },
            StateChange::PendingValidationSnapshot { previous } => StateChangeView::PendingValidationSnapshot {
                previous: previous.deep_view(),
            },
            StateChange::GraphLengthMarker { len } => StateChangeView::GraphLengthMarker {
                len: len.deep_view(),
            },
            StateChange::GraphSnapshot { previous } => StateChangeView::GraphSnapshot {
                previous: previous.deep_view(),
            },
            StateChange::FunctionSnapshot { id, previous } => StateChangeView::FunctionSnapshot {
                id: id.deep_view(),
                previous: previous.deep_view(),
            },
            StateChange::PublicationSnapshot { id, previous } => StateChangeView::PublicationSnapshot {
                id: id.deep_view(),
                previous: previous.deep_view(),
            },
            StateChange::SubscriptionSnapshot { id, previous } => StateChangeView::SubscriptionSnapshot {
                id: id.deep_view(),
                previous: previous.deep_view(),
            },
            StateChange::RoleSnapshot { id, previous } => StateChangeView::RoleSnapshot {
                id: id.deep_view(),
                previous: previous.deep_view(),
            },
            StateChange::RoleMembershipGrantorsSnapshot { previous, complete } => StateChangeView::RoleMembershipGrantorsSnapshot {
                previous: previous.deep_view(),
                complete: complete.deep_view(),
            },
            StateChange::TriggerSnapshot { id, previous } => StateChangeView::TriggerSnapshot {
                id: id.deep_view(),
                previous: previous.deep_view(),
            },
            StateChange::ConstraintSnapshot { table_id, name, previous } => StateChangeView::ConstraintSnapshot {
                table_id: table_id.deep_view(),
                name: name.deep_view(),
                previous: previous.deep_view(),
            },
            StateChange::BaselineForeignKeysSnapshot { previous } => StateChangeView::BaselineForeignKeysSnapshot {
                previous: previous.deep_view(),
            },
            StateChange::RoleContextSnapshot { current_role, current_role_known, persistent_current_role, persistent_current_role_known, session_role, session_role_known, persistent_session_role, persistent_session_role_known } => StateChangeView::RoleContextSnapshot {
                current_role: current_role.deep_view(),
                current_role_known: current_role_known.deep_view(),
                persistent_current_role: persistent_current_role.deep_view(),
                persistent_current_role_known: persistent_current_role_known.deep_view(),
                session_role: session_role.deep_view(),
                session_role_known: session_role_known.deep_view(),
                persistent_session_role: persistent_session_role.deep_view(),
                persistent_session_role_known: persistent_session_role_known.deep_view(),
            },
            StateChange::ConfidenceSnapshot { previous } => StateChangeView::ConfidenceSnapshot {
                previous: previous.deep_view(),
            },
            StateChange::EvidenceSnapshot { previous } => StateChangeView::EvidenceSnapshot {
                previous: previous.deep_view(),
            },
        }
    }
}

impl DeepView for StateChange {
    type V = StateChangeView;

    open spec fn deep_view(&self) -> StateChangeView {
        self@
    }
}

impl Dup for StateChange {
    fn dup(&self) -> (r: Self) {
        match self {
            StateChange::SchemaSnapshot { name, previous } => StateChange::SchemaSnapshot {
                name: name.dup(),
                previous: previous.dup(),
            },
            StateChange::NamespaceSnapshot(a) => StateChange::NamespaceSnapshot(a.dup()),
            StateChange::CatalogSnapshot(a) => StateChange::CatalogSnapshot(a.dup()),
            StateChange::RelationSnapshot { id, previous } => StateChange::RelationSnapshot {
                id: id.dup(),
                previous: previous.dup(),
            },
            StateChange::TypeSnapshot { id, previous } => StateChange::TypeSnapshot {
                id: id.dup(),
                previous: previous.dup(),
            },
            StateChange::SequenceSnapshot { id, previous } => StateChange::SequenceSnapshot {
                id: id.dup(),
                previous: previous.dup(),
            },
            StateChange::SearchPathSnapshot { previous, previous_template, previous_session_template } => StateChange::SearchPathSnapshot {
                previous: previous.dup(),
                previous_template: previous_template.dup(),
                previous_session_template: previous_session_template.dup(),
            },
            StateChange::TimeoutSettingsSnapshot { lock_timeout, statement_timeout } => StateChange::TimeoutSettingsSnapshot {
                lock_timeout: lock_timeout.dup(),
                statement_timeout: statement_timeout.dup(),
            },
            StateChange::GenerationCounterSnapshot { previous } => StateChange::GenerationCounterSnapshot {
                previous: previous.dup(),
            },
            StateChange::PendingValidationSnapshot { previous } => StateChange::PendingValidationSnapshot {
                previous: previous.dup(),
            },
            StateChange::GraphLengthMarker { len } => StateChange::GraphLengthMarker {
                len: len.dup(),
            },
            StateChange::GraphSnapshot { previous } => StateChange::GraphSnapshot {
                previous: previous.dup(),
            },
            StateChange::FunctionSnapshot { id, previous } => StateChange::FunctionSnapshot {
                id: id.dup(),
                previous: previous.dup(),
            },
            StateChange::PublicationSnapshot { id, previous } => StateChange::PublicationSnapshot {
                id: id.dup(),
                previous: previous.dup(),
            },
            StateChange::SubscriptionSnapshot { id, previous } => StateChange::SubscriptionSnapshot {
                id: id.dup(),
                previous: previous.dup(),
            },
            StateChange::RoleSnapshot { id, previous } => StateChange::RoleSnapshot {
                id: id.dup(),
                previous: previous.dup(),
            },
            StateChange::RoleMembershipGrantorsSnapshot { previous, complete } => StateChange::RoleMembershipGrantorsSnapshot {
                previous: previous.dup(),
                complete: complete.dup(),
            },
            StateChange::TriggerSnapshot { id, previous } => StateChange::TriggerSnapshot {
                id: id.dup(),
                previous: previous.dup(),
            },
            StateChange::ConstraintSnapshot { table_id, name, previous } => StateChange::ConstraintSnapshot {
                table_id: table_id.dup(),
                name: name.dup(),
                previous: previous.dup(),
            },
            StateChange::BaselineForeignKeysSnapshot { previous } => StateChange::BaselineForeignKeysSnapshot {
                previous: previous.dup(),
            },
            StateChange::RoleContextSnapshot { current_role, current_role_known, persistent_current_role, persistent_current_role_known, session_role, session_role_known, persistent_session_role, persistent_session_role_known } => StateChange::RoleContextSnapshot {
                current_role: current_role.dup(),
                current_role_known: current_role_known.dup(),
                persistent_current_role: persistent_current_role.dup(),
                persistent_current_role_known: persistent_current_role_known.dup(),
                session_role: session_role.dup(),
                session_role_known: session_role_known.dup(),
                persistent_session_role: persistent_session_role.dup(),
                persistent_session_role_known: persistent_session_role_known.dup(),
            },
            StateChange::ConfidenceSnapshot { previous } => StateChange::ConfidenceSnapshot {
                previous: previous.dup(),
            },
            StateChange::EvidenceSnapshot { previous } => StateChange::EvidenceSnapshot {
                previous: previous.dup(),
            },
        }
    }
}

/// What opened a transaction frame.
#[derive(Clone, Debug, PartialEq, Eq)]
pub enum TransactionFrameKind {
    Root,
    Savepoint(String),
}

#[verifier::ext_equal]
pub enum TransactionFrameKindView {
    Root,
    Savepoint(Seq<char>),
}

impl View for TransactionFrameKind {
    type V = TransactionFrameKindView;

    open spec fn view(&self) -> TransactionFrameKindView {
        match self {
            TransactionFrameKind::Root => TransactionFrameKindView::Root,
            TransactionFrameKind::Savepoint(a) => TransactionFrameKindView::Savepoint(a.deep_view()),
        }
    }
}

impl DeepView for TransactionFrameKind {
    type V = TransactionFrameKindView;

    open spec fn deep_view(&self) -> TransactionFrameKindView {
        self@
    }
}

impl Dup for TransactionFrameKind {
    fn dup(&self) -> (r: Self) {
        match self {
            TransactionFrameKind::Root => TransactionFrameKind::Root,
            TransactionFrameKind::Savepoint(a) => TransactionFrameKind::Savepoint(a.dup()),
        }
    }
}

/// One level of a transaction, with the changes made in it.
#[derive(Debug)]
pub struct TransactionFrame {
    pub kind: TransactionFrameKind,
    pub undo_log: Vec<StateChange>,
}

#[verifier::ext_equal]
pub struct TransactionFrameView {
    pub kind: TransactionFrameKindView,
    pub undo_log: Seq<StateChangeView>,
}

impl View for TransactionFrame {
    type V = TransactionFrameView;

    open spec fn view(&self) -> TransactionFrameView {
        TransactionFrameView {
            kind: self.kind.deep_view(),
            undo_log: self.undo_log.deep_view(),
        }
    }
}

impl DeepView for TransactionFrame {
    type V = TransactionFrameView;

    open spec fn deep_view(&self) -> TransactionFrameView {
        self@
    }
}

impl Dup for TransactionFrame {
    fn dup(&self) -> (r: Self) {
        TransactionFrame {
            kind: self.kind.dup(),
            undo_log: self.undo_log.dup(),
        }
    }
}


impl TransactionFrame {
    pub fn root() -> (r: Self)
        ensures
            r@ == (TransactionFrameView { kind: TransactionFrameKindView::Root, undo_log: Seq::empty() }),
    {
        let r = TransactionFrame { kind: TransactionFrameKind::Root, undo_log: Vec::new() };
        assert(r.undo_log.deep_view() =~= Seq::<StateChangeView>::empty());
        r
    }

    pub fn savepoint(name: &str) -> (r: Self)
        ensures
            r@ == (TransactionFrameView { kind: TransactionFrameKindView::Savepoint(name@), undo_log: Seq::empty() }),
    {
        let r = TransactionFrame { kind: TransactionFrameKind::Savepoint(name.to_owned()), undo_log: Vec::new() };
        assert(r.undo_log.deep_view() =~= Seq::<StateChangeView>::empty());
        r
    }

    pub fn is_named_savepoint(&self, name: &str) -> (r: bool)
        ensures
            r == is_savepoint(self@, name@),
    {
        match &self.kind {
            TransactionFrameKind::Savepoint(candidate) => text_eq(candidate, name),
            TransactionFrameKind::Root => false,
        }
    }
}

pub open spec fn is_savepoint(frame: TransactionFrameView, name: Seq<char>) -> bool {
    frame.kind == TransactionFrameKindView::Savepoint(name)
}

} // verus!
