//! Memberships of roles in roles.
use crate::collections::{lemma_filter_same, lemma_filtered, lemma_push_contains, vec_all, vec_any, vec_contains, vec_filter, vec_map, Dup, Key};
use crate::facts::RoleMembershipOptionFact;
use crate::identifiers::{ObjectId, ObjectIdView};
use crate::model::role::{RoleMembershipGrantor, RoleMembershipGrantorView, RoleState, RoleStateView};
use crate::model::Overlay;
use crate::reach::{reach, reachable};
use crate::state::authority::role_named;
use crate::state::journal::{group_kept, kept};
use crate::state::lookup::{present, role_present, state_of};
use crate::state::{data_of, AnalysisState, StateData};
use vstd::prelude::*;

verus! {

broadcast use group_kept;

pub type Roles = Map<ObjectIdView, Overlay<RoleStateView>>;

/// Each member with each role, member by member.
pub open spec fn pairs_of(members: Seq<ObjectIdView>, parents: Seq<ObjectIdView>) -> Seq<(ObjectIdView, ObjectIdView)>
    decreases members.len(),
{
    if members.len() == 0 {
        Seq::empty()
    } else {
        pairs_of(members.drop_last(), parents) + parents.map_values(|p: ObjectIdView| (members.last(), p))
    }
}

/// What happens to a membership and to its options.
pub struct MembershipChange {
    /// A membership that is missing is added.
    pub join: bool,
    /// The membership is removed.
    pub leave: bool,
    pub admin: Option<bool>,
    pub inherit: Option<bool>,
    pub set_role: Option<bool>,
}

pub open spec fn without(list: Seq<ObjectIdView>, x: ObjectIdView) -> Seq<ObjectIdView> {
    list.filter(|y: ObjectIdView| y != x)
}

/// The list with `x` in it or not, as the option says.
pub open spec fn listed(list: Seq<ObjectIdView>, x: ObjectIdView, option: Option<bool>) -> Seq<ObjectIdView> {
    match option {
        Some(true) => if list.contains(x) {
            list
        } else {
            list.push(x)
        },
        Some(false) => without(list, x),
        None => list,
    }
}

pub open spec fn or_else(option: Option<bool>, is_new: bool, value: bool) -> Option<bool> {
    if option is Some {
        option
    } else if is_new {
        Some(value)
    } else {
        None
    }
}

/// A role after its membership in `parent` changed. A new membership inherits
/// as the role does, and allows switching, unless an option says otherwise.
pub open spec fn member_changed(role: RoleStateView, parent: ObjectIdView, c: MembershipChange) -> RoleStateView {
    let is_new = c.join && !role.member_of.contains(parent);
    RoleStateView {
        member_of: if is_new {
            role.member_of.push(parent)
        } else if c.leave {
            without(role.member_of, parent)
        } else {
            role.member_of
        },
        can_administer_membership: listed(role.can_administer_membership, parent, c.admin),
        can_inherit_from: listed(role.can_inherit_from, parent, or_else(c.inherit, is_new, role.inherits)),
        can_set_role_to: listed(role.can_set_role_to, parent, or_else(c.set_role, is_new, true)),
        ..role
    }
}

/// The roles after the first `n` memberships changed.
pub open spec fn members_changed(roles: Roles, pairs: Seq<(ObjectIdView, ObjectIdView)>, n: nat, c: MembershipChange) -> Roles
    decreases n,
{
    if n == 0 || n > pairs.len() {
        roles
    } else {
        let before = members_changed(roles, pairs, (n - 1) as nat, c);
        let (member, parent) = pairs[n - 1];
        if present(before, member) {
            before.insert(member, Overlay::Present(member_changed(state_of(before, member), parent, c)))
        } else {
            before
        }
    }
}

pub open spec fn is_member(roles: Roles, member: ObjectIdView, role: ObjectIdView) -> bool {
    present(roles, member) && state_of(roles, member).member_of.contains(role)
}

pub open spec fn is_grant_of(row: RoleMembershipGrantorView, pair: (ObjectIdView, ObjectIdView)) -> bool {
    row.member == pair.0 && row.role == pair.1
}

/// Who granted which membership, after one more was granted: the first
/// grantor of a membership that still holds stays.
pub open spec fn grantor_noted(rows: Seq<RoleMembershipGrantorView>, roles: Roles, pair: (ObjectIdView, ObjectIdView), grantor: ObjectIdView) -> Seq<
    RoleMembershipGrantorView,
> {
    if is_member(roles, pair.0, pair.1) && exists|i: int| 0 <= i < rows.len() && is_grant_of(#[trigger] rows[i], pair) {
        rows
    } else {
        rows.filter(|row: RoleMembershipGrantorView| !is_grant_of(row, pair)).push(
            RoleMembershipGrantorView { member: pair.0, role: pair.1, grantor },
        )
    }
}

pub open spec fn grantors_noted(
    rows: Seq<RoleMembershipGrantorView>,
    roles: Roles,
    pairs: Seq<(ObjectIdView, ObjectIdView)>,
    n: nat,
    grantor: ObjectIdView,
) -> Seq<RoleMembershipGrantorView>
    decreases n,
{
    if n == 0 || n > pairs.len() {
        rows
    } else {
        grantor_noted(grantors_noted(rows, roles, pairs, (n - 1) as nat, grantor), roles, pairs[n - 1], grantor)
    }
}

/// The recorded grantors without those of memberships that present roles lost.
pub open spec fn grantors_left(
    rows: Seq<RoleMembershipGrantorView>,
    roles: Roles,
    pairs: Seq<(ObjectIdView, ObjectIdView)>,
) -> Seq<RoleMembershipGrantorView> {
    rows.filter(|row: RoleMembershipGrantorView| !(pairs.contains((row.member, row.role)) && present(roles, row.member)))
}

/// The roles that a role is a member of, with the first `n` new memberships.
pub open spec fn parents_of(roles: Roles, pairs: Seq<(ObjectIdView, ObjectIdView)>, n: nat, role: ObjectIdView) -> Seq<ObjectIdView> {
    (if present(roles, role) {
        state_of(roles, role).member_of
    } else {
        Seq::empty()
    }) + pairs.take(n as int).filter(|p: (ObjectIdView, ObjectIdView)| p.0 == role).map_values(|p: (ObjectIdView, ObjectIdView)| p.1)
}

/// Whether the membership at `t` would make a role a member of itself.
pub open spec fn closes_cycle(roles: Roles, pairs: Seq<(ObjectIdView, ObjectIdView)>, t: int) -> bool {
    reachable(|r: ObjectIdView| parents_of(roles, pairs, t as nat, r), seq![pairs[t].1], pairs[t].0)
}

/// The first membership from `t` on that closes a cycle, or the end.
pub open spec fn first_cycle(roles: Roles, pairs: Seq<(ObjectIdView, ObjectIdView)>, t: nat) -> nat
    decreases pairs.len() - t,
{
    if t >= pairs.len() || closes_cycle(roles, pairs, t as int) {
        t
    } else {
        first_cycle(roles, pairs, t + 1)
    }
}

/// Those whom a role made members that they still are.
pub open spec fn grantees_of(d: StateData, grantor: ObjectIdView) -> Seq<ObjectIdView> {
    d.role_membership_grantors.filter(|row: RoleMembershipGrantorView| row.grantor == grantor && is_member(d.roles, row.member, row.role)).map_values(
        |row: RoleMembershipGrantorView| row.member,
    )
}

/// Whether a membership falls with the authority of `roots`: it was granted
/// by one of them, or by one whose membership falls.
pub open spec fn membership_falls(d: StateData, roots: Seq<ObjectIdView>, row: RoleMembershipGrantorView) -> bool {
    is_member(d.roles, row.member, row.role) && reachable(|g: ObjectIdView| grantees_of(d, g), roots, row.grantor)
}

/// The memberships that fall.
pub open spec fn fallen(d: StateData, roots: Seq<ObjectIdView>) -> Seq<(ObjectIdView, ObjectIdView)> {
    d.role_membership_grantors.filter(|row: RoleMembershipGrantorView| membership_falls(d, roots, row)).map_values(
        |row: RoleMembershipGrantorView| (row.member, row.role),
    )
}

pub open spec fn full_removal() -> MembershipChange {
    MembershipChange { join: false, leave: true, admin: Some(false), inherit: Some(false), set_role: Some(false) }
}

/// The data after the memberships that depended on `roots` fell.
#[verifier::opaque]
pub open spec fn memberships_cascaded(d: StateData, roots: Seq<ObjectIdView>) -> StateData {
    let pairs = fallen(d, roots);
    StateData {
        roles: members_changed(d.roles, pairs, pairs.len(), full_removal()),
        role_membership_grantors: d.role_membership_grantors.filter(
            |row: RoleMembershipGrantorView| !pairs.contains((row.member, row.role)),
        ),
        ..d
    }
}

/// Whether a grantor is known to lack the right to change memberships in
/// `parents`.
pub open spec fn lacks_admin(d: StateData, grantor: Option<ObjectIdView>, parents: Seq<ObjectIdView>) -> bool {
    grantor is Some && d.roles_known && !(role_present(d, grantor->0.name) && (role_named(d, grantor->0.name).is_superuser || forall|i: int|
        0 <= i < parents.len() ==> role_named(d, grantor->0.name).can_administer_membership.contains(#[trigger] parents[i])))
}

/// Whether the right to change memberships is not known.
pub open spec fn admin_unknown(d: StateData, grantor: Option<ObjectIdView>, explicit: bool) -> bool {
    if grantor is Some {
        !d.roles_known
    } else {
        explicit || d.current_role_known
    }
}

pub open spec fn names_public(roles: Seq<ObjectIdView>) -> bool {
    exists|i: int| 0 <= i < roles.len() && #[trigger] roles[i].name == "public"@
}

pub open spec fn admin_of(o: RoleMembershipOptionFact) -> Option<bool> {
    match o {
        RoleMembershipOptionFact::Admin(b) => Some(b),
        _ => None,
    }
}

pub open spec fn inherit_of(o: RoleMembershipOptionFact) -> Option<bool> {
    match o {
        RoleMembershipOptionFact::Inherit(b) => Some(b),
        _ => None,
    }
}

pub open spec fn set_role_of(o: RoleMembershipOptionFact) -> Option<bool> {
    match o {
        RoleMembershipOptionFact::SetRole(b) => Some(b),
        _ => None,
    }
}

pub open spec fn same_option(a: RoleMembershipOptionFact, b: RoleMembershipOptionFact) -> bool {
    (admin_of(a) is Some) == (admin_of(b) is Some) && (inherit_of(a) is Some) == (inherit_of(b) is Some)
}

/// Whether one kind of option is given twice among the first `n`.
pub open spec fn option_repeats(options: Seq<RoleMembershipOptionFact>, n: int) -> bool {
    exists|i: int, j: int| 0 <= i < j < n && same_option(#[trigger] options[i], #[trigger] options[j])
}

/// The membership that the first `n` options of a grant describe.
pub open spec fn granted_membership(options: Seq<RoleMembershipOptionFact>, n: nat) -> MembershipChange
    decreases n,
{
    if n == 0 || n > options.len() {
        MembershipChange { join: true, leave: false, admin: None, inherit: None, set_role: None }
    } else {
        let c = granted_membership(options, (n - 1) as nat);
        match options[n - 1] {
            RoleMembershipOptionFact::Admin(b) => MembershipChange { admin: Some(b), ..c },
            RoleMembershipOptionFact::Inherit(b) => MembershipChange { inherit: Some(b), ..c },
            RoleMembershipOptionFact::SetRole(b) => MembershipChange { set_role: Some(b), ..c },
        }
    }
}

/// What a revoke takes: one option, or the membership.
pub open spec fn revoked_membership(option: Option<RoleMembershipOptionFact>) -> MembershipChange {
    match option {
        Some(RoleMembershipOptionFact::Admin(b)) => MembershipChange { join: false, leave: false, admin: Some(false), inherit: None, set_role: None },
        Some(RoleMembershipOptionFact::Inherit(b)) => MembershipChange { join: false, leave: false, admin: None, inherit: Some(false), set_role: None },
        Some(RoleMembershipOptionFact::SetRole(b)) => MembershipChange { join: false, leave: false, admin: None, inherit: None, set_role: Some(false) },
        None => full_removal(),
    }
}

pub(crate) fn make_pairs(members: &Vec<ObjectId>, parents: &Vec<ObjectId>) -> (r: Vec<(ObjectId, ObjectId)>)
    ensures
        r.deep_view() == pairs_of(members.deep_view(), parents.deep_view()),
{
    let ghost ms = members.deep_view();
    let mut out: Vec<(ObjectId, ObjectId)> = Vec::new();
    let mut i: usize = 0;
    assert(ms.take(0) =~= Seq::<ObjectIdView>::empty());
    assert(out.deep_view() =~= pairs_of(ms.take(0), parents.deep_view()));
    while i < members.len()
        invariant
            i <= members.len(),
            ms == members.deep_view(),
            out.deep_view() == pairs_of(ms.take(i as int), parents.deep_view()),
        decreases members.len() - i,
    {
        let member = &members[i];
        let ghost before = out.deep_view();
        let pair_up = |p: &ObjectId| -> (x: (ObjectId, ObjectId))
            ensures
                x.deep_view() == (member@, p@),
            { (member.dup(), p.dup()) };
        let mut more = vec_map(parents, pair_up, Ghost(|p: ObjectIdView| (member@, p)));
        let ghost added = more.deep_view();
        out.append(&mut more);
        proof {
            assert(ms[i as int] == member@);
            assert(ms.take(i + 1).drop_last() =~= ms.take(i as int));
            assert(ms.take(i + 1).last() == member@);
            assert(out.deep_view() =~= before + added);
        }
        i = i + 1;
    }
    assert(ms.take(ms.len() as int) =~= ms);
    out
}

fn list_without(list: &Vec<ObjectId>, x: &ObjectId) -> (r: Vec<ObjectId>)
    ensures
        r.deep_view() == without(list.deep_view(), x@),
{
    let other = |y: &ObjectId| -> (b: bool)
        ensures
            b == (y@ != x@),
        { !y.same(x) };
    vec_filter(list, other, Ghost(|y: ObjectIdView| y != x@))
}

fn make_listed(list: &Vec<ObjectId>, x: &ObjectId, option: Option<bool>) -> (r: Vec<ObjectId>)
    ensures
        r.deep_view() == listed(list.deep_view(), x@, option),
{
    match option {
        Some(true) => {
            let mut r = list.dup();
            if !vec_contains(list, x) {
                r.push(x.dup());
                assert(r.deep_view() =~= list.deep_view().push(x@));
            }
            r
        },
        Some(false) => list_without(list, x),
        None => list.dup(),
    }
}

fn choose_option(option: Option<bool>, is_new: bool, value: bool) -> (r: Option<bool>)
    ensures
        r == or_else(option, is_new, value),
{
    if option.is_some() {
        option
    } else if is_new {
        Some(value)
    } else {
        None
    }
}

fn change_member(role: &RoleState, parent: &ObjectId, c: &MembershipChange) -> (r: RoleState)
    ensures
        r@ == member_changed(role@, parent@, *c),
{
    let is_new = c.join && !vec_contains(&role.member_of, parent);
    let mut member_of = role.member_of.dup();
    if is_new {
        member_of.push(parent.dup());
        assert(member_of.deep_view() =~= role@.member_of.push(parent@));
    } else if c.leave {
        member_of = list_without(&role.member_of, parent);
    }
    RoleState {
        id: role.id.dup(),
        can_login: role.can_login,
        is_superuser: role.is_superuser,
        inherits: role.inherits,
        member_of,
        can_administer_membership: make_listed(&role.can_administer_membership, parent, c.admin),
        can_inherit_from: make_listed(&role.can_inherit_from, parent, choose_option(c.inherit, is_new, role.inherits)),
        can_set_role_to: make_listed(&role.can_set_role_to, parent, choose_option(c.set_role, is_new, true)),
    }
}

/// The membership that options describe, or `None` where one is repeated.
pub(crate) fn read_options(options: &Vec<RoleMembershipOptionFact>) -> (r: Option<MembershipChange>)
    ensures
        match r {
            Some(c) => !option_repeats(options@, options@.len() as int) && c == granted_membership(options@, options@.len()),
            None => option_repeats(options@, options@.len() as int),
        },
{
    let mut c = MembershipChange { join: true, leave: false, admin: None, inherit: None, set_role: None };
    let mut i: usize = 0;
    while i < options.len()
        invariant
            i <= options.len(),
            !option_repeats(options@, i as int),
            c == granted_membership(options@, i as nat),
            c.admin is Some == exists|j: int| 0 <= j < i && admin_of(#[trigger] options@[j]) is Some,
            c.inherit is Some == exists|j: int| 0 <= j < i && inherit_of(#[trigger] options@[j]) is Some,
            c.set_role is Some == exists|j: int| 0 <= j < i && set_role_of(#[trigger] options@[j]) is Some,
        decreases options.len() - i,
    {
        let ghost before = c;
        let taken = match &options[i] {
            RoleMembershipOptionFact::Admin(_) => c.admin.is_some(),
            RoleMembershipOptionFact::Inherit(_) => c.inherit.is_some(),
            RoleMembershipOptionFact::SetRole(_) => c.set_role.is_some(),
        };
        if taken {
            proof {
                let j = match options@[i as int] {
                    RoleMembershipOptionFact::Admin(_) => choose|j: int| 0 <= j < i && admin_of(#[trigger] options@[j]) is Some,
                    RoleMembershipOptionFact::Inherit(_) => choose|j: int| 0 <= j < i && inherit_of(#[trigger] options@[j]) is Some,
                    RoleMembershipOptionFact::SetRole(_) => choose|j: int| 0 <= j < i && set_role_of(#[trigger] options@[j]) is Some,
                };
                assert(same_option(options@[j], options@[i as int]));
            }
            return None;
        }
        proof {
            assert(!option_repeats(options@, i + 1)) by {
                if option_repeats(options@, i + 1) {
                    let (a, b) = choose|a: int, b: int| 0 <= a < b < i + 1 && same_option(#[trigger] options@[a], #[trigger] options@[b]);
                    if b < i {
                        assert(same_option(options@[a], options@[b]));
                        assert(option_repeats(options@, i as int));
                    } else {
                        assert(admin_of(options@[a]) is Some || inherit_of(options@[a]) is Some || set_role_of(options@[a]) is Some);
                    }
                }
            }
            assert(admin_of(options@[i as int]) is Some || inherit_of(options@[i as int]) is Some || set_role_of(options@[i as int]) is Some);
        }
        match &options[i] {
            RoleMembershipOptionFact::Admin(b) => {
                c.admin = Some(*b);
            },
            RoleMembershipOptionFact::Inherit(b) => {
                c.inherit = Some(*b);
            },
            RoleMembershipOptionFact::SetRole(b) => {
                c.set_role = Some(*b);
            },
        }
        proof {
            assert forall|j: int| 0 <= j < i && admin_of(#[trigger] options@[j]) is Some implies c.admin is Some by {
                assert(before.admin is Some);
            }
        }
        i = i + 1;
    }
    Some(c)
}

impl AnalysisState {
    /// Changes memberships one by one.
    pub(crate) fn change_members(&mut self, pairs: &Vec<(ObjectId, ObjectId)>, c: &MembershipChange)
        ensures
            final(self)@.data == (StateData {
                roles: members_changed(old(self)@.data.roles, pairs.deep_view(), pairs.deep_view().len(), *c),
                ..old(self)@.data
            }),
            kept(old(self)@, final(self)@),
    {
        let ghost start = self@;
        let ghost ps = pairs.deep_view();
        let mut i: usize = 0;
        while i < pairs.len()
            invariant
                i <= pairs.len(),
                ps == pairs.deep_view(),
                self@.data == (StateData { roles: members_changed(start.data.roles, ps, i as nat, *c), ..start.data }),
                kept(start, self@),
            decreases pairs.len() - i,
        {
            let member = &pairs[i].0;
            let parent = &pairs[i].1;
            assert(ps[i as int] == (member@, parent@));
            if let Some(role) = self.role_state(member) {
                let changed = change_member(role, parent, c);
                self.put_role(member, Overlay::Present(changed));
            }
            i = i + 1;
        }
    }

    fn is_member(&self, member: &ObjectId, role: &ObjectId) -> (r: bool)
        ensures
            r == is_member(self@.data.roles, member@, role@),
    {
        match self.role_state(member) {
            Some(state) => vec_contains(&state.member_of, role),
            None => false,
        }
    }

    pub(crate) fn role_grantors(&self) -> (r: &Vec<RoleMembershipGrantor>)
        ensures
            r.deep_view() == self@.data.role_membership_grantors,
    {
        proof {
            reveal(data_of);
        }
        &self.local.role_membership_grantors
    }

    pub(crate) fn role_grantors_complete(&self) -> (r: bool)
        ensures
            r == self@.data.role_membership_grantors_complete,
    {
        proof {
            reveal(data_of);
        }
        self.local.role_membership_grantors_complete
    }

    /// Who granted which membership, after `pairs` were granted.
    pub(crate) fn note_grantors(&self, pairs: &Vec<(ObjectId, ObjectId)>, grantor: &ObjectId) -> (r: Vec<RoleMembershipGrantor>)
        ensures
            r.deep_view() == grantors_noted(
                self@.data.role_membership_grantors,
                self@.data.roles,
                pairs.deep_view(),
                pairs.deep_view().len(),
                grantor@,
            ),
    {
        let ghost ps = pairs.deep_view();
        let mut rows = self.role_grantors().dup();
        let mut i: usize = 0;
        while i < pairs.len()
            invariant
                i <= pairs.len(),
                ps == pairs.deep_view(),
                rows.deep_view() == grantors_noted(self@.data.role_membership_grantors, self@.data.roles, ps, i as nat, grantor@),
            decreases pairs.len() - i,
        {
            let member = &pairs[i].0;
            let parent = &pairs[i].1;
            assert(ps[i as int] == (member@, parent@));
            let of_pair = |row: &RoleMembershipGrantor| -> (b: bool)
                ensures
                    b == is_grant_of(row@, (member@, parent@)),
                { row.member.same(member) && row.role.same(parent) };
            let noted = vec_any(&rows, of_pair, Ghost(|row: RoleMembershipGrantorView| is_grant_of(row, (member@, parent@))));
            if !(self.is_member(member, parent) && noted) {
                let other = |row: &RoleMembershipGrantor| -> (b: bool)
                    ensures
                        b == !is_grant_of(row@, (member@, parent@)),
                    { !(row.member.same(member) && row.role.same(parent)) };
                rows = vec_filter(&rows, other, Ghost(|row: RoleMembershipGrantorView| !is_grant_of(row, (member@, parent@))));
                let ghost before = rows.deep_view();
                rows.push(RoleMembershipGrantor { member: member.dup(), role: parent.dup(), grantor: grantor.dup() });
                assert(rows.deep_view() =~= before.push(RoleMembershipGrantorView { member: member@, role: parent@, grantor: grantor@ }));
            }
            i = i + 1;
        }
        rows
    }

    /// The recorded grantors without those of lost memberships.
    pub(crate) fn leave_grantors(&self, pairs: &Vec<(ObjectId, ObjectId)>) -> (r: Vec<RoleMembershipGrantor>)
        ensures
            r.deep_view() == grantors_left(self@.data.role_membership_grantors, self@.data.roles, pairs.deep_view()),
    {
        let stays = |row: &RoleMembershipGrantor| -> (b: bool)
            ensures
                b == !(pairs.deep_view().contains((row@.member, row@.role)) && present(self@.data.roles, row@.member)),
            { !(vec_contains(pairs, &(row.member.dup(), row.role.dup())) && self.role_state(&row.member).is_some()) };
        let ghost roles = self@.data.roles;
        vec_filter(
            self.role_grantors(),
            stays,
            Ghost(|row: RoleMembershipGrantorView| !(pairs.deep_view().contains((row.member, row.role)) && present(roles, row.member))),
        )
    }

    fn role_keys(&self) -> (r: Ghost<Seq<ObjectIdView>>)
        ensures
            forall|k: ObjectIdView| #[trigger] self@.data.roles.dom().contains(k) ==> r@.contains(k),
    {
        proof {
            reveal(data_of);
        }
        let n = self.local.roles.len();
        let ghost items = self.local.roles.items();
        let ghost keys = items.map_values(|e: (ObjectIdView, Overlay<RoleStateView>)| e.0);
        proof {
            assert forall|k: ObjectIdView| #[trigger] self@.data.roles.dom().contains(k) implies keys.contains(k) by {
                let i = choose|i: int| 0 <= i < items.len() && items[i].0 == k;
                assert(keys[i] == k);
            }
        }
        Ghost(keys)
    }

    fn closes_cycle(&self, pairs: &Vec<(ObjectId, ObjectId)>, t: usize) -> (r: bool)
        requires
            t < pairs.len(),
        ensures
            r == closes_cycle(self@.data.roles, pairs.deep_view(), t as int),
    {
        let ghost roles = self@.data.roles;
        let ghost ps = pairs.deep_view();
        let earlier = first_pairs(pairs, t);
        let follow = |role: &ObjectId| -> (v: Vec<ObjectId>)
            ensures
                v.deep_view() == parents_of(self@.data.roles, pairs.deep_view(), t as nat, role@),
            {
                let mut v = match self.role_state(role) {
                    Some(state) => state.member_of.dup(),
                    None => Vec::new(),
                };
                let ghost held = v.deep_view();
                let of_role = |p: &(ObjectId, ObjectId)| -> (b: bool)
                    ensures
                        b == (p.deep_view().0 == role@),
                    { p.0.same(role) };
                let mine = vec_filter(&earlier, of_role, Ghost(|p: (ObjectIdView, ObjectIdView)| p.0 == role@));
                let parent = |p: &(ObjectId, ObjectId)| -> (x: ObjectId)
                    ensures
                        x@ == p.deep_view().1,
                    { p.1.dup() };
                let mut more = vec_map(&mine, parent, Ghost(|p: (ObjectIdView, ObjectIdView)| p.1));
                let ghost added = more.deep_view();
                v.append(&mut more);
                proof {
                    assert(v.deep_view() =~= held + added);
                    if !present(self@.data.roles, role@) {
                        assert(held =~= Seq::<ObjectIdView>::empty());
                    }
                }
                v
            };
        let keys = self.role_keys();
        let ghost next = |role: ObjectIdView| parents_of(roles, ps, t as nat, role);
        let ghost all = keys@ + ps.map_values(|p: (ObjectIdView, ObjectIdView)| p.0);
        proof {
            assert forall|role: ObjectIdView| #[trigger] next(role).len() > 0 implies all.contains(role) by {
                if present(roles, role) {
                    assert(roles.dom().contains(role));
                    let i = choose|i: int| 0 <= i < keys@.len() && keys@[i] == role;
                    assert(all[i] == role);
                } else {
                    let p = |p: (ObjectIdView, ObjectIdView)| p.0 == role;
                    let mine = ps.take(t as int).filter(p);
                    assert(mine.len() > 0);
                    lemma_filtered(ps.take(t as int), p);
                    assert(ps.take(t as int).contains(mine[0]) && p(mine[0]));
                    let i = choose|i: int| 0 <= i < ps.take(t as int).len() && ps.take(t as int)[i] == mine[0];
                    assert(all[keys@.len() + i] == role);
                }
            }
        }
        let mut roots: Vec<ObjectId> = Vec::new();
        roots.push(pairs[t].1.dup());
        proof {
            assert(ps[t as int] == pairs@[t as int].deep_view());
            assert(roots.deep_view() =~= seq![ps[t as int].1]);
        }
        let found = reach(roots, follow, Ghost(next), Ghost(all));
        found.contains(&pairs[t].0)
    }

    /// The first membership that would close a cycle.
    pub(crate) fn first_cycle(&self, pairs: &Vec<(ObjectId, ObjectId)>) -> (r: Option<usize>)
        ensures
            match r {
                Some(t) => t < pairs.len() && t == first_cycle(self@.data.roles, pairs.deep_view(), 0),
                None => first_cycle(self@.data.roles, pairs.deep_view(), 0) >= pairs.len(),
            },
    {
        let mut t: usize = 0;
        while t < pairs.len()
            invariant
                t <= pairs.len(),
                first_cycle(self@.data.roles, pairs.deep_view(), 0) == first_cycle(self@.data.roles, pairs.deep_view(), t as nat),
            decreases pairs.len() - t,
        {
            if self.closes_cycle(pairs, t) {
                return Some(t);
            }
            t = t + 1;
        }
        None
    }

    fn fallen(&self, roots: &Vec<ObjectId>) -> (r: Vec<(ObjectId, ObjectId)>)
        ensures
            r.deep_view() == fallen(self@.data, roots.deep_view()),
    {
        let ghost d = self@.data;
        let ghost rows = d.role_membership_grantors;
        let follow = |g: &ObjectId| -> (v: Vec<ObjectId>)
            ensures
                v.deep_view() == grantees_of(self@.data, g@),
            {
                let passed = |row: &RoleMembershipGrantor| -> (b: bool)
                    ensures
                        b == (row@.grantor == g@ && is_member(self@.data.roles, row@.member, row@.role)),
                    { row.grantor.same(g) && self.is_member(&row.member, &row.role) };
                let ghost roles = self@.data.roles;
                let mine = vec_filter(
                    self.role_grantors(),
                    passed,
                    Ghost(|row: RoleMembershipGrantorView| row.grantor == g@ && is_member(roles, row.member, row.role)),
                );
                let member = |row: &RoleMembershipGrantor| -> (x: ObjectId)
                    ensures
                        x@ == row@.member,
                    { row.member.dup() };
                vec_map(&mine, member, Ghost(|row: RoleMembershipGrantorView| row.member))
            };
        let ghost next = |g: ObjectIdView| grantees_of(d, g);
        let ghost keys = rows.map_values(|row: RoleMembershipGrantorView| row.grantor);
        proof {
            assert forall|g: ObjectIdView| #[trigger] next(g).len() > 0 implies keys.contains(g) by {
                let p = |row: RoleMembershipGrantorView| row.grantor == g && is_member(d.roles, row.member, row.role);
                let mine = rows.filter(p);
                assert(mine.len() > 0);
                lemma_filtered(rows, p);
                assert(rows.contains(mine[0]) && p(mine[0]));
                let i = choose|i: int| 0 <= i < rows.len() && rows[i] == mine[0];
                assert(keys[i] == g);
            }
        }
        let found = reach(roots.dup(), follow, Ghost(next), Ghost(keys));
        let ghost starts = roots.deep_view();
        let falls = |row: &RoleMembershipGrantor| -> (b: bool)
            ensures
                b == (is_member(self@.data.roles, row@.member, row@.role) && found@.contains(row@.grantor)),
            { self.is_member(&row.member, &row.role) && found.contains(&row.grantor) };
        let hits = vec_filter(
            self.role_grantors(),
            falls,
            Ghost(|row: RoleMembershipGrantorView| is_member(d.roles, row.member, row.role) && found@.contains(row.grantor)),
        );
        proof {
            lemma_filter_same(
                rows,
                |row: RoleMembershipGrantorView| is_member(d.roles, row.member, row.role) && found@.contains(row.grantor),
                |row: RoleMembershipGrantorView| membership_falls(d, starts, row),
            );
        }
        let pair = |row: &RoleMembershipGrantor| -> (x: (ObjectId, ObjectId))
            ensures
                x.deep_view() == (row@.member, row@.role),
            { (row.member.dup(), row.role.dup()) };
        vec_map(&hits, pair, Ghost(|row: RoleMembershipGrantorView| (row.member, row.role)))
    }

    /// Removes the memberships that depended on roles whose authority was
    /// withdrawn.
    pub(crate) fn cascade_role_memberships(&mut self, initial_grantors: &Vec<ObjectId>)
        ensures
            final(self)@.data == memberships_cascaded(old(self)@.data, initial_grantors.deep_view()),
            kept(old(self)@, final(self)@),
    {
        proof {
            reveal(memberships_cascaded);
        }
        let pairs = self.fallen(initial_grantors);
        let stays = |row: &RoleMembershipGrantor| -> (b: bool)
            ensures
                b == !pairs.deep_view().contains((row@.member, row@.role)),
            { !vec_contains(&pairs, &(row.member.dup(), row.role.dup())) };
        let rows = vec_filter(
            self.role_grantors(),
            stays,
            Ghost(|row: RoleMembershipGrantorView| !pairs.deep_view().contains((row.member, row.role))),
        );
        let complete = self.role_grantors_complete();
        let c = MembershipChange { join: false, leave: true, admin: Some(false), inherit: Some(false), set_role: Some(false) };
        self.change_members(&pairs, &c);
        self.set_role_grantors(rows, complete);
    }

    pub(crate) fn lacks_admin(&self, grantor: &Option<ObjectId>, parents: &Vec<ObjectId>) -> (r: bool)
        ensures
            r == lacks_admin(self@.data, grantor.deep_view(), parents.deep_view()),
    {
        match grantor {
            None => false,
            Some(g) => {
                if !self.roles_are_known() {
                    return false;
                }
                match self.present_role(&g.name) {
                    None => true,
                    Some(role) => {
                        let administers = |p: &ObjectId| -> (b: bool)
                            ensures
                                b == role@.can_administer_membership.contains(p@),
                            { vec_contains(&role.can_administer_membership, p) };
                        !(role.is_superuser || vec_all(
                            parents,
                            administers,
                            Ghost(|p: ObjectIdView| role@.can_administer_membership.contains(p)),
                        ))
                    },
                }
            },
        }
    }
}

pub(crate) fn has_public(roles: &Vec<ObjectId>) -> (r: bool)
    ensures
        r == names_public(roles.deep_view()),
{
    let is_public = |id: &ObjectId| -> (b: bool)
        ensures
            b == (id@.name == "public"@),
        { crate::text::text_eq(&id.name, "public") };
    vec_any(roles, is_public, Ghost(|id: ObjectIdView| id.name == "public"@))
}

fn first_pairs(pairs: &Vec<(ObjectId, ObjectId)>, t: usize) -> (r: Vec<(ObjectId, ObjectId)>)
    requires
        t <= pairs.len(),
    ensures
        r.deep_view() == pairs.deep_view().take(t as int),
{
    let mut r: Vec<(ObjectId, ObjectId)> = Vec::new();
    let mut i: usize = 0;
    while i < t
        invariant
            i <= t <= pairs.len(),
            r.len() == i,
            forall|j: int| 0 <= j < i ==> #[trigger] r@[j].deep_view() == pairs.deep_view()[j],
        decreases t - i,
    {
        r.push(pairs[i].dup());
        i = i + 1;
    }
    assert(r.deep_view() =~= pairs.deep_view().take(t as int));
    r
}

/// What is left of a list without one element.
pub(crate) proof fn lemma_without(list: Seq<ObjectIdView>, x: ObjectIdView, other: ObjectIdView)
    ensures
        without(list, x).contains(other) <==> list.contains(other) && other != x,
    decreases list.len(),
{
    reveal(Seq::filter);
    if list.len() > 0 {
        let rest = list.drop_last();
        lemma_without(rest, x, other);
        lemma_push_contains(rest, list.last(), other);
        lemma_push_contains(without(rest, x), list.last(), other);
        assert(list =~= rest.push(list.last()));
    }
}

/// A granted membership holds afterwards, where the role exists.
pub proof fn law_granted_membership_holds(role: RoleStateView, parent: ObjectIdView, c: MembershipChange)
    requires
        c.join,
        !c.leave,
    ensures
        member_changed(role, parent, c).member_of.contains(parent),
{
    if !role.member_of.contains(parent) {
        assert(role.member_of.push(parent)[role.member_of.len() as int] == parent);
    }
}

/// After a full removal a role has nothing of the other.
pub proof fn law_removed_membership_is_gone(role: RoleStateView, parent: ObjectIdView)
    ensures
        ({
            let after = member_changed(role, parent, full_removal());
            &&& !after.member_of.contains(parent)
            &&& !after.can_administer_membership.contains(parent)
            &&& !after.can_inherit_from.contains(parent)
            &&& !after.can_set_role_to.contains(parent)
        }),
{
    let p = |y: ObjectIdView| y != parent;
    lemma_filtered(role.member_of, p);
    lemma_filtered(role.can_administer_membership, p);
    lemma_filtered(role.can_inherit_from, p);
    lemma_filtered(role.can_set_role_to, p);
}

} // verus!
