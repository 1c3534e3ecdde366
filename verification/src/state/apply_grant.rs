//! `GRANT` and `REVOKE`.
use crate::collections::Dup;
use crate::evidence::{EvidenceCode, EvidenceScope};
use crate::facts::RoleMembershipOptionFact;
use crate::identifiers::{ObjectId, ObjectIdView};
use crate::mutations::{GrantMutation, ResolvedGrantTarget, RevokeMutation};
use crate::state::apply_membership::{
    admin_unknown,
    first_cycle,
    granted_membership,
    grantors_left,
    grantors_noted,
    has_public,
    lacks_admin,
    make_pairs,
    members_changed,
    memberships_cascaded,
    names_public,
    option_repeats,
    pairs_of,
    read_options,
    revoked_membership,
    MembershipChange,
};
use crate::state::apply_privileges::{coverage_gap, grant_prelude, grantor_checked, schemas_changed, tables_changed, PrivilegeChange, PrivilegeChangeView};
use crate::state::authority::{granted_privileges, grantor_of};
use crate::state::journal::{group_kept, kept, tainted};
use crate::state::lookup::{conflict, conflict_with};
use crate::state::{AnalysisState, MutationResult, MutationResultView, StateData};
use crate::text::join5;
use vstd::prelude::*;

verus! {

broadcast use group_kept;

pub open spec fn unmodeled_grant(d: StateData) -> (StateData, MutationResultView) {
    (tainted(d, EvidenceCode::UnmodeledState, EvidenceScope::Chain), MutationResultView::Skipped)
}

pub open spec fn no_admin_option(name: Seq<char>, what: Seq<char>) -> MutationResultView {
    conflict("role '"@ + name + "' lacks ADMIN OPTION for the "@ + what + " membership"@)
}

/// The data after memberships were granted: who granted them is recorded
/// where that is known.
#[verifier::opaque]
pub open spec fn memberships_granted(
    d: StateData,
    pairs: Seq<(ObjectIdView, ObjectIdView)>,
    grantor: Option<ObjectIdView>,
    c: MembershipChange,
) -> StateData {
    StateData {
        role_membership_grantors: match grantor {
            Some(g) => grantors_noted(d.role_membership_grantors, d.roles, pairs, pairs.len(), g),
            None => d.role_membership_grantors,
        },
        role_membership_grantors_complete: d.role_membership_grantors_complete && grantor is Some,
        roles: members_changed(d.roles, pairs, pairs.len(), c),
        ..d
    }
}

/// `GRANT role TO role`. A membership that would close a cycle is refused
/// before any is granted.
pub open spec fn roles_granted(d: StateData, grant: GrantMutation, members: Seq<ObjectIdView>, parents: Seq<ObjectIdView>) -> (
    StateData,
    MutationResultView,
) {
    let grantor = grantor_of(d, grant.granted_by);
    if lacks_admin(d, grantor, parents) {
        (d, no_admin_option(grantor->0.name, "granted"@))
    } else {
        memberships_requested(coverage_gap(d, admin_unknown(d, grantor, grant.granted_by is Some)), grant, members, pairs_of(members, parents), grantor)
    }
}

/// What becomes of memberships that the grantor may grant.
pub open spec fn memberships_requested(
    d: StateData,
    grant: GrantMutation,
    members: Seq<ObjectIdView>,
    pairs: Seq<(ObjectIdView, ObjectIdView)>,
    grantor: Option<ObjectIdView>,
) -> (StateData, MutationResultView) {
    let options = grant.role_options@;
    let t = first_cycle(d.roles, pairs, 0);
    if option_repeats(options, options.len() as int) || (options.len() == 0 && grant.with_grant_option) || names_public(members) {
        unmodeled_grant(d)
    } else if t < pairs.len() {
        (
            d,
            conflict("role membership '"@ + pairs[t as int].0.name + "' in '"@ + pairs[t as int].1.shown() + "' would create a cycle"@),
        )
    } else {
        (memberships_granted(d, pairs, grantor, granted_membership(options, options.len())), MutationResultView::Applied)
    }
}

pub open spec fn option_value(o: RoleMembershipOptionFact) -> bool {
    match o {
        RoleMembershipOptionFact::Admin(b) => b,
        RoleMembershipOptionFact::Inherit(b) => b,
        RoleMembershipOptionFact::SetRole(b) => b,
    }
}

/// Whether a revoke takes the right to grant memberships on.
pub open spec fn takes_admin(option: Option<RoleMembershipOptionFact>) -> bool {
    option is None || option->0 is Admin
}

/// The data after memberships were revoked.
#[verifier::opaque]
pub open spec fn memberships_revoked(
    d: StateData,
    pairs: Seq<(ObjectIdView, ObjectIdView)>,
    option: Option<RoleMembershipOptionFact>,
) -> StateData {
    StateData {
        role_membership_grantors: if option is None {
            grantors_left(d.role_membership_grantors, d.roles, pairs)
        } else {
            d.role_membership_grantors
        },
        roles: members_changed(d.roles, pairs, pairs.len(), revoked_membership(option)),
        ..d
    }
}

/// `REVOKE role FROM role`; with `CASCADE` the memberships that the revokees
/// granted fall too.
pub open spec fn roles_revoked(d: StateData, revoke: RevokeMutation, members: Seq<ObjectIdView>, parents: Seq<ObjectIdView>) -> (
    StateData,
    MutationResultView,
) {
    let d0 = coverage_gap(d, revoke.cascade && !d.role_membership_grantors_complete);
    let grantor = grantor_of(d, revoke.granted_by);
    if lacks_admin(d0, grantor, parents) {
        (d0, no_admin_option(grantor->0.name, "revoked"@))
    } else {
        revoke_requested(coverage_gap(d0, admin_unknown(d, grantor, revoke.granted_by is Some)), revoke, members, pairs_of(members, parents))
    }
}

/// What becomes of memberships that the grantor may revoke.
pub open spec fn revoke_requested(
    d: StateData,
    revoke: RevokeMutation,
    members: Seq<ObjectIdView>,
    pairs: Seq<(ObjectIdView, ObjectIdView)>,
) -> (StateData, MutationResultView) {
    if (revoke.role_option is Some && option_value(revoke.role_option->0)) || names_public(members) {
        unmodeled_grant(d)
    } else if revoke.cascade && takes_admin(revoke.role_option) {
        (memberships_cascaded(memberships_revoked(d, pairs, revoke.role_option), members), MutationResultView::Applied)
    } else {
        (memberships_revoked(d, pairs, revoke.role_option), MutationResultView::Applied)
    }
}

pub open spec fn grant_change(d: StateData, grant: GrantMutation, roles: Seq<ObjectIdView>) -> PrivilegeChangeView {
    PrivilegeChangeView {
        privileges: granted_privileges(d, grant.privileges),
        roles,
        grantor: grantor_of(d, grant.granted_by),
        revoke: false,
        option: grant.with_grant_option,
        cascade: false,
    }
}

pub open spec fn revoke_change(d: StateData, revoke: RevokeMutation, roles: Seq<ObjectIdView>) -> PrivilegeChangeView {
    PrivilegeChangeView {
        privileges: granted_privileges(d, revoke.privileges),
        roles,
        grantor: grantor_of(d, revoke.granted_by),
        revoke: true,
        option: revoke.grant_option_only,
        cascade: revoke.cascade,
    }
}

/// A change of object privileges, once its roles are resolved.
pub open spec fn objects_changed(d: StateData, target: ResolvedGrantTarget, explicit: bool, c: PrivilegeChangeView) -> (StateData, MutationResultView) {
    let (d1, refused) = grantor_checked(d, explicit, c.grantor);
    match refused {
        Some(result) => (d1, result),
        None => match target {
            ResolvedGrantTarget::Tables(ids) => tables_changed(d1, ids.deep_view(), c),
            ResolvedGrantTarget::AllTablesInSchema(schemas) => (schemas_changed(d1, schemas.deep_view(), c), MutationResultView::Applied),
            ResolvedGrantTarget::Roles(_) => (d1, MutationResultView::Applied),
        },
    }
}

/// `GRANT`.
pub open spec fn granted_all(d: StateData, grant: GrantMutation) -> (StateData, MutationResultView) {
    let (d1, checked) = grant_prelude(d, grant.target, grant.grantees@, grant.granted_by, grant.with_grant_option);
    match checked {
        Err(result) => (d1, result),
        Ok(roles) => match grant.target {
            ResolvedGrantTarget::Roles(parents) => roles_granted(d1, grant, roles, parents.deep_view()),
            _ => objects_changed(d1, grant.target, grant.granted_by is Some, grant_change(d1, grant, roles)),
        },
    }
}

/// `REVOKE`.
pub open spec fn revoked_all(d: StateData, revoke: RevokeMutation) -> (StateData, MutationResultView) {
    let (d1, checked) = grant_prelude(d, revoke.target, revoke.revokees@, revoke.granted_by, revoke.grant_option_only);
    match checked {
        Err(result) => (d1, result),
        Ok(roles) => match revoke.target {
            ResolvedGrantTarget::Roles(parents) => roles_revoked(d1, revoke, roles, parents.deep_view()),
            _ => objects_changed(d1, revoke.target, revoke.granted_by is Some, revoke_change(d1, revoke, roles)),
        },
    }
}

fn no_admin(name: &String, what: &str) -> (r: MutationResult)
    ensures
        r@ == no_admin_option(name@, what@),
{
    conflict_with(join5("role '", name, "' lacks ADMIN OPTION for the ", what, " membership"))
}

impl AnalysisState {
    fn change_objects(&mut self, target: &ResolvedGrantTarget, explicit: bool, change: &PrivilegeChange) -> (r: MutationResult)
        ensures
            (final(self)@.data, r@) == objects_changed(old(self)@.data, *target, explicit, change@),
            kept(old(self)@, final(self)@),
    {
        if let Err(result) = self.validate_object_grantor(explicit, &change.grantor) {
            return result;
        }
        match target {
            ResolvedGrantTarget::Tables(ids) => self.change_tables(ids, change),
            ResolvedGrantTarget::AllTablesInSchema(schemas) => {
                self.change_schemas(schemas, change);
                MutationResult::Applied
            },
            ResolvedGrantTarget::Roles(_) => MutationResult::Applied,
        }
    }

    fn refuse_unmodeled(&mut self) -> (r: MutationResult)
        ensures
            (final(self)@.data, r@) == unmodeled_grant(old(self)@.data),
            kept(old(self)@, final(self)@),
    {
        self.taint(EvidenceCode::UnmodeledState, EvidenceScope::Chain);
        MutationResult::Skipped
    }

    fn grant_memberships(&mut self, pairs: &Vec<(ObjectId, ObjectId)>, grantor: &Option<ObjectId>, c: &MembershipChange)
        ensures
            final(self)@.data == memberships_granted(old(self)@.data, pairs.deep_view(), grantor.deep_view(), *c),
            kept(old(self)@, final(self)@),
    {
        proof {
            reveal(memberships_granted);
        }
        let rows = match grantor {
            Some(g) => self.note_grantors(pairs, g),
            None => self.role_grantors().dup(),
        };
        let complete = self.role_grantors_complete() && grantor.is_some();
        self.change_members(pairs, c);
        self.set_role_grantors(rows, complete);
    }

    fn admin_unknown(&self, grantor: &Option<ObjectId>, explicit: bool) -> (r: bool)
        ensures
            r == admin_unknown(self@.data, grantor.deep_view(), explicit),
    {
        if grantor.is_some() {
            !self.roles_are_known()
        } else {
            explicit || self.current_role_is_known()
        }
    }

    fn grant_roles(&mut self, grant: &GrantMutation, members: &Vec<ObjectId>, parents: &Vec<ObjectId>) -> (r: MutationResult)
        ensures
            (final(self)@.data, r@) == roles_granted(old(self)@.data, *grant, members.deep_view(), parents.deep_view()),
            kept(old(self)@, final(self)@),
    {
        let grantor = self.grantor_identity(&grant.granted_by);
        if self.lacks_admin(&grantor, parents) {
            if let Some(g) = &grantor {
                return no_admin(&g.name, "granted");
            }
        }
        let gap = self.admin_unknown(&grantor, grant.granted_by.is_some());
        self.taint_if(gap, EvidenceCode::CatalogCoverageIncomplete, EvidenceScope::Chain);
        self.request_memberships(grant, members, parents, &grantor)
    }

    fn request_memberships(&mut self, grant: &GrantMutation, members: &Vec<ObjectId>, parents: &Vec<ObjectId>, grantor: &Option<ObjectId>) -> (r:
        MutationResult)
        ensures
            (final(self)@.data, r@) == memberships_requested(
                old(self)@.data,
                *grant,
                members.deep_view(),
                pairs_of(members.deep_view(), parents.deep_view()),
                grantor.deep_view(),
            ),
            kept(old(self)@, final(self)@),
    {
        let options = read_options(&grant.role_options);
        let unclear = (grant.role_options.len() == 0 && grant.with_grant_option) || has_public(members);
        match options {
            None => self.refuse_unmodeled(),
            Some(c) => {
                if unclear {
                    return self.refuse_unmodeled();
                }
                let pairs = make_pairs(members, parents);
                match self.first_cycle(&pairs) {
                    Some(t) => {
                        assert(pairs.deep_view()[t as int] == pairs@[t as int].deep_view());
                        conflict_with(
                            join5("role membership '", &pairs[t].0.name, "' in '", &pairs[t].1.show(), "' would create a cycle"),
                        )
                    },
                    None => {
                        self.grant_memberships(&pairs, grantor, &c);
                        MutationResult::Applied
                    },
                }
            },
        }
    }

    pub(crate) fn apply_grant(&mut self, grant: &GrantMutation) -> (r: MutationResult)
        ensures
            (final(self)@.data, r@) == granted_all(old(self)@.data, *grant),
            kept(old(self)@, final(self)@),
    {
        match self.check_grant(&grant.target, &grant.grantees, &grant.granted_by, grant.with_grant_option) {
            Err(result) => result,
            Ok(roles) => match &grant.target {
                ResolvedGrantTarget::Roles(parents) => self.grant_roles(grant, &roles, parents),
                _ => {
                    let change = PrivilegeChange {
                        privileges: self.resolve_grant_privileges(&grant.privileges),
                        grantor: self.grantor_identity(&grant.granted_by),
                        roles,
                        revoke: false,
                        option: grant.with_grant_option,
                        cascade: false,
                    };
                    self.change_objects(&grant.target, grant.granted_by.is_some(), &change)
                },
            },
        }
    }

    fn revoke_memberships(&mut self, pairs: &Vec<(ObjectId, ObjectId)>, option: &Option<RoleMembershipOptionFact>)
        ensures
            final(self)@.data == memberships_revoked(old(self)@.data, pairs.deep_view(), *option),
            kept(old(self)@, final(self)@),
    {
        proof {
            reveal(memberships_revoked);
        }
        let rows = if option.is_none() {
            self.leave_grantors(pairs)
        } else {
            self.role_grantors().dup()
        };
        let complete = self.role_grantors_complete();
        let c = match option {
            Some(RoleMembershipOptionFact::Admin(_)) => MembershipChange {
                join: false,
                leave: false,
                admin: Some(false),
                inherit: None,
                set_role: None,
            },
            Some(RoleMembershipOptionFact::Inherit(_)) => MembershipChange {
                join: false,
                leave: false,
                admin: None,
                inherit: Some(false),
                set_role: None,
            },
            Some(RoleMembershipOptionFact::SetRole(_)) => MembershipChange {
                join: false,
                leave: false,
                admin: None,
                inherit: None,
                set_role: Some(false),
            },
            None => MembershipChange { join: false, leave: true, admin: Some(false), inherit: Some(false), set_role: Some(false) },
        };
        self.change_members(pairs, &c);
        self.set_role_grantors(rows, complete);
    }

    fn revoke_roles(&mut self, revoke: &RevokeMutation, members: &Vec<ObjectId>, parents: &Vec<ObjectId>) -> (r: MutationResult)
        ensures
            (final(self)@.data, r@) == roles_revoked(old(self)@.data, *revoke, members.deep_view(), parents.deep_view()),
            kept(old(self)@, final(self)@),
    {
        let grantor = self.grantor_identity(&revoke.granted_by);
        let gap = self.admin_unknown(&grantor, revoke.granted_by.is_some());
        let incomplete = revoke.cascade && !self.role_grantors_complete();
        self.taint_if(incomplete, EvidenceCode::CatalogCoverageIncomplete, EvidenceScope::Chain);
        if self.lacks_admin(&grantor, parents) {
            if let Some(g) = &grantor {
                return no_admin(&g.name, "revoked");
            }
        }
        self.taint_if(gap, EvidenceCode::CatalogCoverageIncomplete, EvidenceScope::Chain);
        self.request_revoke(revoke, members, parents)
    }

    fn request_revoke(&mut self, revoke: &RevokeMutation, members: &Vec<ObjectId>, parents: &Vec<ObjectId>) -> (r: MutationResult)
        ensures
            (final(self)@.data, r@) == revoke_requested(
                old(self)@.data,
                *revoke,
                members.deep_view(),
                pairs_of(members.deep_view(), parents.deep_view()),
            ),
            kept(old(self)@, final(self)@),
    {
        let unclear = match &revoke.role_option {
            Some(RoleMembershipOptionFact::Admin(b)) => *b,
            Some(RoleMembershipOptionFact::Inherit(b)) => *b,
            Some(RoleMembershipOptionFact::SetRole(b)) => *b,
            None => false,
        };
        if unclear || has_public(members) {
            return self.refuse_unmodeled();
        }
        let pairs = make_pairs(members, parents);
        self.revoke_memberships(&pairs, &revoke.role_option);
        let admin = match &revoke.role_option {
            Some(RoleMembershipOptionFact::Admin(_)) => true,
            Some(_) => false,
            None => true,
        };
        if revoke.cascade && admin {
            self.cascade_role_memberships(members);
        }
        MutationResult::Applied
    }

    pub(crate) fn apply_revoke(&mut self, revoke: &RevokeMutation) -> (r: MutationResult)
        ensures
            (final(self)@.data, r@) == revoked_all(old(self)@.data, *revoke),
            kept(old(self)@, final(self)@),
    {
        match self.check_grant(&revoke.target, &revoke.revokees, &revoke.granted_by, revoke.grant_option_only) {
            Err(result) => result,
            Ok(roles) => match &revoke.target {
                ResolvedGrantTarget::Roles(parents) => self.revoke_roles(revoke, &roles, parents),
                _ => {
                    let change = PrivilegeChange {
                        privileges: self.resolve_grant_privileges(&revoke.privileges),
                        grantor: self.grantor_identity(&revoke.granted_by),
                        roles,
                        revoke: true,
                        option: revoke.grant_option_only,
                        cascade: revoke.cascade,
                    };
                    self.change_objects(&revoke.target, revoke.granted_by.is_some(), &change)
                },
            },
        }
    }
}

} // verus!
