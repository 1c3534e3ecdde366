//! `GRANT` and `REVOKE` of roles: who is a member of what afterwards.
use crate::collections::lemma_push_contains;
use crate::facts::RoleMembershipOptionFact;
use crate::identifiers::ObjectIdView;
use crate::laws::privileges::{lemma_gap_only, lemma_prelude, lemma_roles_named, names_role};
use crate::laws::{at, lemma_on_others};
use crate::model::role::RoleStateView;
use crate::model::Overlay;
use crate::mutations::{GrantMutation, Mutation, ResolvedGrantTarget, RevokeMutation};
use crate::state::apply::{applied, other_effect};
use crate::state::apply_grant::{memberships_granted, memberships_revoked, roles_granted, roles_revoked};
use crate::state::apply_membership::{
    admin_unknown, closes_cycle, first_cycle, granted_membership, lemma_without, listed, member_changed, members_changed, option_repeats, or_else, pairs_of,
    parents_of, revoked_membership, same_option, without, MembershipChange,
};
use crate::state::apply_privileges::{coverage_gap, grant_prelude};
use crate::state::authority::grantor_of;
use crate::state::cascade::CascadeView;
use crate::state::{AnalysisStateView, MutationResultView, StateData};
use vstd::prelude::*;

verus! {

proof fn lemma_pairs(members: Seq<ObjectIdView>, parents: Seq<ObjectIdView>, x: ObjectIdView, p: ObjectIdView)
    ensures
        pairs_of(members, parents).contains((x, p)) <==> members.contains(x) && parents.contains(p),
    decreases members.len(),
{
    if members.len() > 0 {
        let fewer = members.drop_last();
        let last = members.last();
        lemma_pairs(fewer, parents, x, p);
        let a = pairs_of(fewer, parents);
        let b = parents.map_values(|q: ObjectIdView| (last, q));
        let all = pairs_of(members, parents);
        assert(all == a + b);
        if all.contains((x, p)) {
            let i = choose|i: int| 0 <= i < all.len() && all[i] == (x, p);
            if i < a.len() {
                assert(a[i] == (x, p));
                let j = choose|j: int| 0 <= j < fewer.len() && fewer[j] == x;
                assert(members[j] == x);
            } else {
                assert(b[i - a.len()] == (x, p));
                assert(members[members.len() - 1] == x);
                assert(parents[i - a.len()] == p);
            }
        }
        if members.contains(x) && parents.contains(p) {
            let j = choose|j: int| 0 <= j < members.len() && members[j] == x;
            if j < fewer.len() {
                assert(fewer[j] == x);
                let i = choose|i: int| 0 <= i < a.len() && a[i] == (x, p);
                assert(all[i] == (x, p));
            } else {
                let k = choose|k: int| 0 <= k < parents.len() && parents[k] == p;
                assert(b[k] == (x, p));
                assert(all[a.len() + k] == (x, p));
            }
        }
    }
}

/// Whether a role has something of another one after a change that puts it in or
/// takes it out.
pub open spec fn has_as_asked(before: bool, after: bool, touched: bool, option: Option<bool>) -> bool {
    after == (if touched && option is Some {
        option->0
    } else {
        before
    })
}

proof fn lemma_listed(list: Seq<ObjectIdView>, x: ObjectIdView, option: Option<bool>, y: ObjectIdView)
    ensures
        has_as_asked(list.contains(y), listed(list, x, option).contains(y), x == y, option),
{
    lemma_without(list, x, y);
    lemma_push_contains(list, x, y);
}

/// How a role is after some of its memberships changed.
pub open spec fn membership_is_right(before: RoleStateView, after: RoleStateView, p: ObjectIdView, touched: bool, c: MembershipChange) -> bool {
    let joined = c.join && touched && !before.member_of.contains(p);
    &&& after == (RoleStateView {
        member_of: after.member_of,
        can_administer_membership: after.can_administer_membership,
        can_inherit_from: after.can_inherit_from,
        can_set_role_to: after.can_set_role_to,
        ..before
    })
    &&& after.member_of.contains(p) == ((before.member_of.contains(p) && !(c.leave && touched)) || joined)
    &&& has_as_asked(before.can_administer_membership.contains(p), after.can_administer_membership.contains(p), touched, c.admin)
    &&& has_as_asked(before.can_inherit_from.contains(p), after.can_inherit_from.contains(p), touched, if c.inherit is Some {
        c.inherit
    } else if joined {
        Some(before.inherits)
    } else {
        None
    })
    &&& has_as_asked(before.can_set_role_to.contains(p), after.can_set_role_to.contains(p), touched, if c.set_role is Some {
        c.set_role
    } else if joined {
        Some(true)
    } else {
        None
    })
}

proof fn lemma_one_change(role: RoleStateView, parent: ObjectIdView, c: MembershipChange, p: ObjectIdView)
    requires
        !(c.join && c.leave),
    ensures
        membership_is_right(role, member_changed(role, parent, c), p, p == parent, c),
{
    let is_new = c.join && !role.member_of.contains(parent);
    lemma_without(role.member_of, parent, p);
    lemma_push_contains(role.member_of, parent, p);
    lemma_listed(role.can_administer_membership, parent, c.admin, p);
    lemma_listed(role.can_inherit_from, parent, or_else(c.inherit, is_new, role.inherits), p);
    lemma_listed(role.can_set_role_to, parent, or_else(c.set_role, is_new, true), p);
}

/// Whether one of the first `n` pairs is this one.
pub open spec fn is_among(pairs: Seq<(ObjectIdView, ObjectIdView)>, n: int, pair: (ObjectIdView, ObjectIdView)) -> bool {
    exists|i: int| 0 <= i < n && #[trigger] pairs[i] == pair
}

proof fn lemma_members(roles: Map<ObjectIdView, Overlay<RoleStateView>>, pairs: Seq<(ObjectIdView, ObjectIdView)>, n: nat, c: MembershipChange, x: ObjectIdView, p: ObjectIdView)
    requires
        n <= pairs.len(),
        !(c.join && c.leave),
    ensures
        ({
            let after = members_changed(roles, pairs, n, c);
            &&& at(after, x) is Some <==> at(roles, x) is Some
            &&& at(roles, x) is Some ==> membership_is_right(at(roles, x)->0, at(after, x)->0, p, is_among(pairs, n as int, (x, p)), c)
        }),
    decreases n,
{
    if n > 0 {
        lemma_members(roles, pairs, (n - 1) as nat, c, x, p);
        let before = members_changed(roles, pairs, (n - 1) as nat, c);
        let (member, parent) = pairs[n - 1];
        assert(is_among(pairs, n as int, (x, p)) <==> is_among(pairs, n - 1, (x, p)) || pairs[n - 1] == (x, p)) by {
            if pairs[n - 1] == (x, p) {
                assert(pairs[n - 1] == (x, p));
            }
        }
        if member == x && at(before, x) is Some {
            lemma_one_change(at(before, x)->0, parent, c, p);
        }
    }
}

/// Whether an option is written, and with which value.
pub open spec fn is_written(options: Seq<RoleMembershipOptionFact>, option: RoleMembershipOptionFact) -> bool {
    options.contains(option)
}

proof fn lemma_options(options: Seq<RoleMembershipOptionFact>, n: nat, b: bool)
    requires
        n <= options.len(),
        !option_repeats(options, options.len() as int),
    ensures
        ({
            let c = granted_membership(options, n);
            &&& c.join && !c.leave
            &&& options.take(n as int).contains(RoleMembershipOptionFact::Admin(b)) <==> c.admin == Some(b)
            &&& options.take(n as int).contains(RoleMembershipOptionFact::Inherit(b)) <==> c.inherit == Some(b)
            &&& options.take(n as int).contains(RoleMembershipOptionFact::SetRole(b)) <==> c.set_role == Some(b)
        }),
    decreases n,
{
    let taken = options.take(n as int);
    if n > 0 {
        lemma_options(options, (n - 1) as nat, b);
        lemma_options(options, (n - 1) as nat, !b);
        let fewer = options.take(n - 1);
        let last = options[n - 1];
        assert(taken =~= fewer.push(last));
        lemma_push_contains(fewer, last, RoleMembershipOptionFact::Admin(b));
        lemma_push_contains(fewer, last, RoleMembershipOptionFact::Inherit(b));
        lemma_push_contains(fewer, last, RoleMembershipOptionFact::SetRole(b));
        assert forall|o: RoleMembershipOptionFact| fewer.contains(o) implies !same_option(o, last) by {
            let i = choose|i: int| 0 <= i < fewer.len() && fewer[i] == o;
            assert(options[i] == o);
            assert(!same_option(options[i], options[n - 1]));
        }
    } else {
        assert(taken =~= Seq::<RoleMembershipOptionFact>::empty());
    }
}

/// The roles that a grant or a revoke is about.
pub open spec fn roles_written(target: ResolvedGrantTarget) -> Seq<ObjectIdView> {
    match target {
        ResolvedGrantTarget::Roles(roles) => roles.deep_view(),
        _ => Seq::empty(),
    }
}

/// `GRANT role TO role` makes each grantee that exists a member of each role that
/// is written, and of no other one. `ADMIN`, `INHERIT` and `SET` are as they are
/// written; without them a new member inherits as it does, and may switch to the
/// role. Memberships that were there stay, and roles that are not named do not
/// change.
pub proof fn law_membership_is_granted(
    s: AnalysisStateView,
    grant: GrantMutation,
    c: Option<CascadeView>,
    t: AnalysisStateView,
    r: MutationResultView,
    x: ObjectIdView,
    p: ObjectIdView,
    b: bool,
)
    requires
        applied(s, Mutation::Grant(grant), c, t, r),
        r is Applied,
        grant.target is Roles,
    ensures
        at(t.data.roles, x) is Some <==> at(s.data.roles, x) is Some,
        at(s.data.roles, x) is Some ==> {
            let before = at(s.data.roles, x)->0;
            let after = at(t.data.roles, x)->0;
            let named = names_role(s.data, grant.grantees@, x) && roles_written(grant.target).contains(p);
            let options = grant.role_options@;
            &&& after.inherits == before.inherits && after.is_superuser == before.is_superuser && after.can_login == before.can_login && after.id == before.id
            &&& named ==> after.member_of.contains(p)
            &&& before.member_of.contains(p) ==> after.member_of.contains(p)
            &&& !named ==> (after.member_of.contains(p) == before.member_of.contains(p)) && (after.can_administer_membership.contains(p)
                == before.can_administer_membership.contains(p)) && (after.can_inherit_from.contains(p) == before.can_inherit_from.contains(p)) && (
            after.can_set_role_to.contains(p) == before.can_set_role_to.contains(p))
            &&& named && is_written(options, RoleMembershipOptionFact::Admin(b)) ==> after.can_administer_membership.contains(p) == b
            &&& named && is_written(options, RoleMembershipOptionFact::Inherit(b)) ==> after.can_inherit_from.contains(p) == b
            &&& named && is_written(options, RoleMembershipOptionFact::SetRole(b)) ==> after.can_set_role_to.contains(p) == b
            &&& named && options.len() == 0 ==> after.can_administer_membership.contains(p) == before.can_administer_membership.contains(p)
            &&& named && options.len() == 0 && !before.member_of.contains(p) ==> after.can_inherit_from.contains(p) == before.inherits
                && after.can_set_role_to.contains(p)
        },
        t.data.relations == s.data.relations,
{
    lemma_on_others(s, Mutation::Grant(grant), c, t, r);
    reveal(other_effect);
    let d = s.data;
    lemma_prelude(d, grant.target, grant.grantees@, grant.granted_by, grant.with_grant_option);
    let (d1, checked) = grant_prelude(d, grant.target, grant.grantees@, grant.granted_by, grant.with_grant_option);
    let members = checked->Ok_0;
    let parents = roles_written(grant.target);
    let grantor = grantor_of(d1, grant.granted_by);
    let gap = admin_unknown(d1, grantor, grant.granted_by is Some);
    lemma_gap_only(d1, gap);
    let d2 = coverage_gap(d1, gap);
    let pairs = pairs_of(members, parents);
    let options = grant.role_options@;
    let change = granted_membership(options, options.len());
    assert(t.data == memberships_granted(d2, pairs, grantor, change)) by {
        assert((t.data, r) == roles_granted(d1, grant, members, parents));
    }
    assert(!option_repeats(options, options.len() as int));
    lemma_options(options, options.len(), b);
    lemma_options(options, options.len(), !b);
    assert(options.take(options.len() as int) =~= options);
    assert(t.data.roles == members_changed(d.roles, pairs, pairs.len(), change) && t.data.relations == d.relations) by {
        reveal(memberships_granted);
    }
    lemma_members(d.roles, pairs, pairs.len(), change, x, p);
    lemma_pairs(members, parents, x, p);
    lemma_roles_named(d, grant.grantees@, x);
    assert(is_among(pairs, pairs.len() as int, (x, p)) <==> pairs.contains((x, p)));
}

proof fn lemma_no_cycle(d: StateData, pairs: Seq<(ObjectIdView, ObjectIdView)>, from: nat, t: int)
    requires
        from <= t < pairs.len(),
        first_cycle(d.roles, pairs, from) >= pairs.len(),
    ensures
        !closes_cycle(d.roles, pairs, t),
    decreases t - from,
{
    if from < t {
        lemma_no_cycle(d, pairs, from + 1, t);
    }
}

/// No role becomes a member of itself, or of one that is a member of it.
pub proof fn law_membership_closes_no_cycle(
    s: AnalysisStateView,
    grant: GrantMutation,
    c: Option<CascadeView>,
    t: AnalysisStateView,
    r: MutationResultView,
    x: ObjectIdView,
    p: ObjectIdView,
)
    requires
        applied(s, Mutation::Grant(grant), c, t, r),
        r is Applied,
        grant.target is Roles,
        names_role(s.data, grant.grantees@, x),
        roles_written(grant.target).contains(p),
    ensures
        x != p,
        at(s.data.roles, p) is Some ==> !at(s.data.roles, p)->0.member_of.contains(x),
{
    lemma_on_others(s, Mutation::Grant(grant), c, t, r);
    reveal(other_effect);
    let d = s.data;
    lemma_prelude(d, grant.target, grant.grantees@, grant.granted_by, grant.with_grant_option);
    let (d1, checked) = grant_prelude(d, grant.target, grant.grantees@, grant.granted_by, grant.with_grant_option);
    let members = checked->Ok_0;
    let parents = roles_written(grant.target);
    let grantor = grantor_of(d1, grant.granted_by);
    let gap = admin_unknown(d1, grantor, grant.granted_by is Some);
    lemma_gap_only(d1, gap);
    let d2 = coverage_gap(d1, gap);
    let pairs = pairs_of(members, parents);
    assert((t.data, r) == roles_granted(d1, grant, members, parents));
    lemma_roles_named(d, grant.grantees@, x);
    lemma_pairs(members, parents, x, p);
    let i = choose|i: int| 0 <= i < pairs.len() && pairs[i] == (x, p);
    lemma_no_cycle(d2, pairs, 0, i);
    let next = |q: ObjectIdView| parents_of(d2.roles, pairs, i as nat, q);
    crate::reach::lemma_roots_reachable(next, seq![p], 0);
    if at(d.roles, p) is Some && at(d.roles, p)->0.member_of.contains(x) {
        let list = at(d.roles, p)->0.member_of;
        let k = choose|k: int| 0 <= k < list.len() && list[k] == x;
        assert(next(p)[k] == x);
        crate::reach::lemma_reachable_further(next, seq![p], p, k);
    }
}

/// `REVOKE role FROM role` leaves no revokee a member of a role that is written,
/// nor anything else of it. `ADMIN OPTION FOR` and its kin take one option and
/// leave the membership. Without `CASCADE` no other membership changes.
pub proof fn law_membership_is_revoked(
    s: AnalysisStateView,
    revoke: RevokeMutation,
    c: Option<CascadeView>,
    t: AnalysisStateView,
    r: MutationResultView,
    x: ObjectIdView,
    p: ObjectIdView,
)
    requires
        applied(s, Mutation::Revoke(revoke), c, t, r),
        r is Applied,
        revoke.target is Roles,
        !revoke.cascade,
    ensures
        at(t.data.roles, x) is Some <==> at(s.data.roles, x) is Some,
        at(s.data.roles, x) is Some ==> {
            let before = at(s.data.roles, x)->0;
            let after = at(t.data.roles, x)->0;
            let named = names_role(s.data, revoke.revokees@, x) && roles_written(revoke.target).contains(p);
            let option = revoke.role_option;
            &&& after.inherits == before.inherits && after.is_superuser == before.is_superuser && after.can_login == before.can_login && after.id == before.id
            &&& after.member_of.contains(p) == (before.member_of.contains(p) && !(named && option is None))
            &&& after.can_administer_membership.contains(p) == (before.can_administer_membership.contains(p) && !(named && (option is None
                || option->0 is Admin)))
            &&& after.can_inherit_from.contains(p) == (before.can_inherit_from.contains(p) && !(named && (option is None || option->0 is Inherit)))
            &&& after.can_set_role_to.contains(p) == (before.can_set_role_to.contains(p) && !(named && (option is None || option->0 is SetRole)))
        },
        t.data.relations == s.data.relations,
{
    lemma_on_others(s, Mutation::Revoke(revoke), c, t, r);
    reveal(other_effect);
    let d = s.data;
    lemma_prelude(d, revoke.target, revoke.revokees@, revoke.granted_by, revoke.grant_option_only);
    let (d1, checked) = grant_prelude(d, revoke.target, revoke.revokees@, revoke.granted_by, revoke.grant_option_only);
    let members = checked->Ok_0;
    let parents = roles_written(revoke.target);
    let gap0 = revoke.cascade && !d1.role_membership_grantors_complete;
    lemma_gap_only(d1, gap0);
    let d2 = coverage_gap(d1, gap0);
    let grantor = grantor_of(d1, revoke.granted_by);
    let gap = admin_unknown(d1, grantor, revoke.granted_by is Some);
    lemma_gap_only(d2, gap);
    let d3 = coverage_gap(d2, gap);
    let pairs = pairs_of(members, parents);
    let change = revoked_membership(revoke.role_option);
    assert((t.data, r) == roles_revoked(d1, revoke, members, parents));
    assert(t.data == memberships_revoked(d3, pairs, revoke.role_option));
    assert(t.data.roles == members_changed(d.roles, pairs, pairs.len(), change) && t.data.relations == d.relations) by {
        reveal(memberships_revoked);
    }
    lemma_members(d.roles, pairs, pairs.len(), change, x, p);
    lemma_pairs(members, parents, x, p);
    lemma_roles_named(d, revoke.revokees@, x);
    assert(is_among(pairs, pairs.len() as int, (x, p)) <==> pairs.contains((x, p)));
}

/// Where the role catalog is known, memberships are granted and revoked only by
/// a superuser or by one who may administer every role that is written.
pub proof fn law_membership_needs_admin(s: AnalysisStateView, m: Mutation, c: Option<CascadeView>, t: AnalysisStateView, r: MutationResultView, target: ResolvedGrantTarget, p: ObjectIdView)
    requires
        applied(s, m, c, t, r),
        r is Applied,
        match m {
            Mutation::Grant(x) => x.target == target && x.granted_by is None,
            Mutation::Revoke(x) => x.target == target && x.granted_by is None,
            _ => false,
        },
        target is Roles,
        s.data.roles_known,
        s.data.current_role_known,
        roles_written(target).contains(p),
    ensures
        ({
            let role = at(s.data.roles, ObjectIdView { schema: ""@, name: s.data.current_role });
            role is Some && (role->0.is_superuser || role->0.can_administer_membership.contains(p))
        }),
{
    lemma_on_others(s, m, c, t, r);
    reveal(other_effect);
    let d = s.data;
    let parents = roles_written(target);
    let i = choose|i: int| 0 <= i < parents.len() && parents[i] == p;
    match m {
        Mutation::Grant(x) => {
            lemma_prelude(d, x.target, x.grantees@, x.granted_by, x.with_grant_option);
        },
        Mutation::Revoke(x) => {
            lemma_prelude(d, x.target, x.revokees@, x.granted_by, x.grant_option_only);
            let (d1, checked) = grant_prelude(d, x.target, x.revokees@, x.granted_by, x.grant_option_only);
            lemma_gap_only(d1, x.cascade && !d1.role_membership_grantors_complete);
        },
        _ => {},
    }
    assert(parents[i] == p);
}

} // verus!
