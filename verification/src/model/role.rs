//! Roles and their memberships.
use crate::collections::Dup;
use crate::identifiers::{ObjectId, ObjectIdView};
use crate::model::Overlay;
use vstd::prelude::*;

verus! {

/// A role.
#[derive(Clone, Debug)]
pub struct RoleState {
    pub id: ObjectId,
    pub can_login: bool,
    pub is_superuser: bool,
    pub inherits: bool,
    pub member_of: Vec<ObjectId>,
    pub can_administer_membership: Vec<ObjectId>,
    pub can_inherit_from: Vec<ObjectId>,
    pub can_set_role_to: Vec<ObjectId>,
}

#[verifier::ext_equal]
pub struct RoleStateView {
    pub id: ObjectIdView,
    pub can_login: bool,
    pub is_superuser: bool,
    pub inherits: bool,
    pub member_of: Seq<ObjectIdView>,
    pub can_administer_membership: Seq<ObjectIdView>,
    pub can_inherit_from: Seq<ObjectIdView>,
    pub can_set_role_to: Seq<ObjectIdView>,
}

impl View for RoleState {
    type V = RoleStateView;

    open spec fn view(&self) -> RoleStateView {
        RoleStateView {
            id: self.id.deep_view(),
            can_login: self.can_login.deep_view(),
            is_superuser: self.is_superuser.deep_view(),
            inherits: self.inherits.deep_view(),
            member_of: self.member_of.deep_view(),
            can_administer_membership: self.can_administer_membership.deep_view(),
            can_inherit_from: self.can_inherit_from.deep_view(),
            can_set_role_to: self.can_set_role_to.deep_view(),
        }
    }
}

impl DeepView for RoleState {
    type V = RoleStateView;

    open spec fn deep_view(&self) -> RoleStateView {
        self@
    }
}

impl Dup for RoleState {
    fn dup(&self) -> (r: Self) {
        RoleState {
            id: self.id.dup(),
            can_login: self.can_login.dup(),
            is_superuser: self.is_superuser.dup(),
            inherits: self.inherits.dup(),
            member_of: self.member_of.dup(),
            can_administer_membership: self.can_administer_membership.dup(),
            can_inherit_from: self.can_inherit_from.dup(),
            can_set_role_to: self.can_set_role_to.dup(),
        }
    }
}

/// Who made a role a member of another.
#[derive(Clone, Debug)]
pub struct RoleMembershipGrantor {
    pub member: ObjectId,
    pub role: ObjectId,
    pub grantor: ObjectId,
}

#[verifier::ext_equal]
pub struct RoleMembershipGrantorView {
    pub member: ObjectIdView,
    pub role: ObjectIdView,
    pub grantor: ObjectIdView,
}

impl View for RoleMembershipGrantor {
    type V = RoleMembershipGrantorView;

    open spec fn view(&self) -> RoleMembershipGrantorView {
        RoleMembershipGrantorView {
            member: self.member.deep_view(),
            role: self.role.deep_view(),
            grantor: self.grantor.deep_view(),
        }
    }
}

impl DeepView for RoleMembershipGrantor {
    type V = RoleMembershipGrantorView;

    open spec fn deep_view(&self) -> RoleMembershipGrantorView {
        self@
    }
}

impl Dup for RoleMembershipGrantor {
    fn dup(&self) -> (r: Self) {
        RoleMembershipGrantor {
            member: self.member.dup(),
            role: self.role.dup(),
            grantor: self.grantor.dup(),
        }
    }
}

pub type RoleOverlay = Overlay<RoleState>;

} // verus!
