//! Tables, views and materialized views.
use crate::collections::{Dup, Key, VecSet};
use crate::identifiers::{ObjectId, ObjectIdView};
use crate::model::column::{Column, ColumnView};
use crate::model::Overlay;
use vstd::prelude::*;

verus! {

/// What kind of relation an identity names.
#[derive(Clone, Copy, Debug, PartialEq, Eq, Structural)]
pub enum RelationKind {
    Table,
    View,
    MaterializedView,
}

impl DeepView for RelationKind {
    type V = RelationKind;

    open spec fn deep_view(&self) -> RelationKind {
        *self
    }
}

impl Dup for RelationKind {
    fn dup(&self) -> (r: Self) {
        *self
    }
}

/// How long a relation lives.
#[derive(Clone, Copy, Debug, PartialEq, Eq, Structural)]
pub enum Persistence {
    Permanent,
    Temporary,
    Unlogged,
}

impl DeepView for Persistence {
    type V = Persistence;

    open spec fn deep_view(&self) -> Persistence {
        *self
    }
}

impl Dup for Persistence {
    fn dup(&self) -> (r: Self) {
        *self
    }
}

/// A privilege on a relation.
#[derive(Clone, Copy, Debug, PartialEq, Eq, Structural)]
pub enum Privilege {
    Select,
    Insert,
    Update,
    Delete,
    Truncate,
    References,
    Trigger,
    Maintain,
}

impl DeepView for Privilege {
    type V = Privilege;

    open spec fn deep_view(&self) -> Privilege {
        *self
    }
}

impl Dup for Privilege {
    fn dup(&self) -> (r: Self) {
        *self
    }
}

impl Key for Privilege {
    fn same(&self, other: &Self) -> (r: bool) {
        *self == *other
    }
}

/// One privilege that a role holds directly, and who gave it.
#[derive(Clone, Debug)]
pub struct PrivilegeGrant {
    pub grantee: ObjectId,
    pub privilege: Privilege,
    pub grantor: Option<ObjectId>,
    pub grant_option: bool,
}

#[verifier::ext_equal]
pub struct PrivilegeGrantView {
    pub grantee: ObjectIdView,
    pub privilege: Privilege,
    pub grantor: Option<ObjectIdView>,
    pub grant_option: bool,
}

impl View for PrivilegeGrant {
    type V = PrivilegeGrantView;

    open spec fn view(&self) -> PrivilegeGrantView {
        PrivilegeGrantView {
            grantee: self.grantee.deep_view(),
            privilege: self.privilege.deep_view(),
            grantor: self.grantor.deep_view(),
            grant_option: self.grant_option.deep_view(),
        }
    }
}

impl DeepView for PrivilegeGrant {
    type V = PrivilegeGrantView;

    open spec fn deep_view(&self) -> PrivilegeGrantView {
        self@
    }
}

impl Dup for PrivilegeGrant {
    fn dup(&self) -> (r: Self) {
        PrivilegeGrant {
            grantee: self.grantee.dup(),
            privilege: self.privilege.dup(),
            grantor: self.grantor.dup(),
            grant_option: self.grant_option.dup(),
        }
    }
}

/// The direct grants on a relation.
#[derive(Clone, Debug)]
pub struct PrivilegeMatrix {
    pub grants: Vec<PrivilegeGrant>,
}

#[verifier::ext_equal]
pub struct PrivilegeMatrixView {
    pub grants: Seq<PrivilegeGrantView>,
}

impl View for PrivilegeMatrix {
    type V = PrivilegeMatrixView;

    open spec fn view(&self) -> PrivilegeMatrixView {
        PrivilegeMatrixView {
            grants: self.grants.deep_view(),
        }
    }
}

impl DeepView for PrivilegeMatrix {
    type V = PrivilegeMatrixView;

    open spec fn deep_view(&self) -> PrivilegeMatrixView {
        self@
    }
}

impl Dup for PrivilegeMatrix {
    fn dup(&self) -> (r: Self) {
        PrivilegeMatrix {
            grants: self.grants.dup(),
        }
    }
}

/// A relation.
#[derive(Debug)]
pub struct RelationState {
    pub id: ObjectId,
    pub owner: ObjectId,
    pub generation: u64,
    pub estimated_rows: Option<u64>,
    pub kind: RelationKind,
    pub persistence: Persistence,
    pub created_at_depth: u64,
    pub columns: Vec<Column>,
    pub privileges: PrivilegeMatrix,
    pub policies: VecSet<String>,
    pub triggers: VecSet<String>,
    pub partition_type: Option<String>,
    pub partition_by: Option<String>,
    pub is_populated: Option<bool>,
    pub is_fk_dependency: bool,
}

#[verifier::ext_equal]
pub struct RelationStateView {
    pub id: ObjectIdView,
    pub owner: ObjectIdView,
    pub generation: u64,
    pub estimated_rows: Option<u64>,
    pub kind: RelationKind,
    pub persistence: Persistence,
    pub created_at_depth: u64,
    pub columns: Seq<ColumnView>,
    pub privileges: PrivilegeMatrixView,
    pub policies: Set<Seq<char>>,
    pub triggers: Set<Seq<char>>,
    pub partition_type: Option<Seq<char>>,
    pub partition_by: Option<Seq<char>>,
    pub is_populated: Option<bool>,
    pub is_fk_dependency: bool,
}

impl View for RelationState {
    type V = RelationStateView;

    open spec fn view(&self) -> RelationStateView {
        RelationStateView {
            id: self.id.deep_view(),
            owner: self.owner.deep_view(),
            generation: self.generation.deep_view(),
            estimated_rows: self.estimated_rows.deep_view(),
            kind: self.kind.deep_view(),
            persistence: self.persistence.deep_view(),
            created_at_depth: self.created_at_depth.deep_view(),
            columns: self.columns.deep_view(),
            privileges: self.privileges.deep_view(),
            policies: self.policies.deep_view(),
            triggers: self.triggers.deep_view(),
            partition_type: self.partition_type.deep_view(),
            partition_by: self.partition_by.deep_view(),
            is_populated: self.is_populated.deep_view(),
            is_fk_dependency: self.is_fk_dependency.deep_view(),
        }
    }
}

impl DeepView for RelationState {
    type V = RelationStateView;

    open spec fn deep_view(&self) -> RelationStateView {
        self@
    }
}

impl Dup for RelationState {
    fn dup(&self) -> (r: Self) {
        RelationState {
            id: self.id.dup(),
            owner: self.owner.dup(),
            generation: self.generation.dup(),
            estimated_rows: self.estimated_rows.dup(),
            kind: self.kind.dup(),
            persistence: self.persistence.dup(),
            created_at_depth: self.created_at_depth.dup(),
            columns: self.columns.dup(),
            privileges: self.privileges.dup(),
            policies: self.policies.dup(),
            triggers: self.triggers.dup(),
            partition_type: self.partition_type.dup(),
            partition_by: self.partition_by.dup(),
            is_populated: self.is_populated.dup(),
            is_fk_dependency: self.is_fk_dependency.dup(),
        }
    }
}

pub type RelationOverlay = Overlay<RelationState>;

} // verus!
