//! Who may act for whom, and who may grant what.
use crate::collections::{Dup, Key, VecSet};
use crate::facts::{PrivilegeFact, PrivilegeSpec, RoleFact};
use crate::identifiers::{role_object, ObjectId, ObjectIdView};
use crate::model::privileges::{has_grant_option, has_privilege};
use crate::model::relation::{Privilege, RelationState, RelationStateView};
use crate::model::role::RoleStateView;
use crate::model::Overlay;
use crate::reach::{lemma_unvisited, reach, reachable, unvisited};
use crate::state::lookup::{role_identity, role_present, state_of};
use crate::state::{data_of, AnalysisState, StateData};
use vstd::prelude::*;

verus! {

pub open spec fn role_named(d: StateData, name: Seq<char>) -> RoleStateView {
    state_of(d.roles, role_object(name))
}

pub open spec fn id_names(ids: Seq<ObjectIdView>) -> Seq<Seq<char>> {
    ids.map_values(|id: ObjectIdView| id.name)
}

/// The roles that a role may directly switch to.
pub open spec fn settable_from(d: StateData, name: Seq<char>) -> Seq<Seq<char>> {
    if role_present(d, name) {
        id_names(role_named(d, name).can_set_role_to)
    } else {
        Seq::empty()
    }
}

/// Whether the session may switch to a role, where that is known: to itself,
/// as a superuser to any role, and else along the memberships that allow it.
pub open spec fn may_set_role(d: StateData, target: Seq<char>) -> Option<bool> {
    if !d.roles_known || !d.session_role_known {
        None
    } else if !role_present(d, target) {
        Some(false)
    } else if d.session_role == target {
        Some(true)
    } else if !role_present(d, d.session_role) {
        None
    } else if role_named(d, d.session_role).is_superuser {
        Some(true)
    } else {
        Some(reachable(|n: Seq<char>| settable_from(d, n), settable_from(d, d.session_role), target))
    }
}

/// Whether the login role may act as another session user.
pub open spec fn may_set_session(d: StateData, target: Seq<char>) -> Option<bool> {
    if !d.roles_known || !d.authenticated_role_known {
        None
    } else if !role_present(d, target) {
        Some(false)
    } else if d.authenticated_role == target {
        Some(true)
    } else {
        Some(role_present(d, d.authenticated_role) && role_named(d, d.authenticated_role).is_superuser)
    }
}

/// The role that a fact names, under the current and the session role.
pub open spec fn named_role(role: RoleFact, current_role: Seq<char>, session_role: Seq<char>) -> Option<ObjectIdView> {
    match role {
        RoleFact::Named { name, .. } => Some(role_object(name@)),
        RoleFact::CurrentUser => Some(role_object(current_role)),
        RoleFact::CurrentRole => Some(role_object(current_role)),
        RoleFact::SessionUser => Some(role_object(session_role)),
        RoleFact::Unknown => None,
    }
}

/// The role that a grant is recorded for: the one that it names, else the
/// current role where that is known.
pub open spec fn grantor_of(d: StateData, granted_by: Option<RoleFact>) -> Option<ObjectIdView> {
    let named = match granted_by {
        Some(fact) => match role_identity(d, fact) {
            Some(identity) => Some(role_object(identity.0)),
            None => None,
        },
        None => None,
    };
    if named is Some {
        named
    } else if d.current_role_known {
        Some(role_object(d.current_role))
    } else {
        None
    }
}

pub open spec fn direct_privilege(relation: RelationStateView, role: ObjectIdView, p: Privilege, grant_option: bool) -> bool {
    if grant_option {
        has_grant_option(relation.privileges.grants, role, p)
    } else {
        has_privilege(relation.privileges.grants, role, p)
    }
}

/// The roles whose privileges a role inherits directly.
pub open spec fn inherits_from(d: StateData, role: ObjectIdView) -> Seq<ObjectIdView> {
    if role_named(d, role.name).inherits {
        role_named(d, role.name).can_inherit_from
    } else {
        Seq::empty()
    }
}

/// What the search for a privilege finds within `n` steps: it looks at the
/// last pending role first, stops at a role that holds the privilege, and has
/// no answer at a role that is not known.
pub open spec fn privilege_search(
    d: StateData,
    relation: RelationStateView,
    p: Privilege,
    grant_option: bool,
    pending: Seq<ObjectIdView>,
    visited: Set<ObjectIdView>,
    n: nat,
) -> Option<Option<bool>>
    decreases n,
{
    if pending.len() == 0 {
        Some(Some(false))
    } else if n == 0 {
        None
    } else {
        let role = pending.last();
        let rest = pending.drop_last();
        if visited.contains(role) {
            privilege_search(d, relation, p, grant_option, rest, visited, (n - 1) as nat)
        } else if direct_privilege(relation, role, p, grant_option) {
            Some(Some(true))
        } else if !role_present(d, role.name) {
            Some(None)
        } else {
            privilege_search(d, relation, p, grant_option, rest + inherits_from(d, role), visited.insert(role), (n - 1) as nat)
        }
    }
}

/// Whether a role holds a privilege itself or through roles that it inherits
/// from, where the role catalog answers that.
pub open spec fn effective_privilege(d: StateData, relation: RelationStateView, role: ObjectIdView, p: Privilege, grant_option: bool) -> Option<
    bool,
> {
    if !d.roles_known {
        None
    } else {
        let n = choose|n: nat| #[trigger] privilege_search(d, relation, p, grant_option, seq![role], Set::empty(), n) is Some;
        privilege_search(d, relation, p, grant_option, seq![role], Set::empty(), n)->0
    }
}

/// A search that has ended stays as it ended.
pub proof fn lemma_search_ends(
    d: StateData,
    relation: RelationStateView,
    p: Privilege,
    grant_option: bool,
    pending: Seq<ObjectIdView>,
    visited: Set<ObjectIdView>,
    n: nat,
    m: nat,
)
    requires
        privilege_search(d, relation, p, grant_option, pending, visited, n) is Some,
        n <= m,
    ensures
        privilege_search(d, relation, p, grant_option, pending, visited, m) == privilege_search(
            d,
            relation,
            p,
            grant_option,
            pending,
            visited,
            n,
        ),
    decreases n,
{
    if pending.len() > 0 && n > 0 {
        let role = pending.last();
        let rest = pending.drop_last();
        if visited.contains(role) {
            lemma_search_ends(d, relation, p, grant_option, rest, visited, (n - 1) as nat, (m - 1) as nat);
        } else if !direct_privilege(relation, role, p, grant_option) && role_present(d, role.name) {
            lemma_search_ends(
                d,
                relation,
                p,
                grant_option,
                rest + inherits_from(d, role),
                visited.insert(role),
                (n - 1) as nat,
                (m - 1) as nat,
            );
        }
    }
}

proof fn lemma_effective(d: StateData, relation: RelationStateView, role: ObjectIdView, p: Privilege, grant_option: bool, n: nat, r: Option<bool>)
    requires
        d.roles_known,
        privilege_search(d, relation, p, grant_option, seq![role], Set::empty(), n) == Some(r),
    ensures
        effective_privilege(d, relation, role, p, grant_option) == r,
{
    let m = choose|n: nat| #[trigger] privilege_search(d, relation, p, grant_option, seq![role], Set::empty(), n) is Some;
    if n <= m {
        lemma_search_ends(d, relation, p, grant_option, seq![role], Set::empty(), n, m);
    } else {
        lemma_search_ends(d, relation, p, grant_option, seq![role], Set::empty(), m, n);
    }
}

/// Whether a role may grant privileges on a relation: superusers and the
/// owner may, others need the grant option of each.
pub open spec fn may_grant(d: StateData, relation: RelationStateView, privileges: Seq<Privilege>, grantor: Option<ObjectIdView>) -> Option<bool> {
    match grantor {
        None => None,
        Some(grantor) => if !role_present(d, grantor.name) {
            None
        } else if role_named(d, grantor.name).is_superuser || relation.owner == grantor {
            Some(true)
        } else {
            Some(forall|i: int| 0 <= i < privileges.len() ==> effective_privilege(d, relation, grantor, #[trigger] privileges[i], true) == Some(true))
        },
    }
}

pub open spec fn supports_maintain(d: StateData) -> bool {
    d.pg_version_num is Some && d.pg_version_num->0 >= 170_000
}

/// The table privilege that a fact names, if it names one.
pub open spec fn table_privilege(f: PrivilegeFact, maintain: bool) -> Option<Privilege> {
    match f {
        PrivilegeFact::Select => Some(Privilege::Select),
        PrivilegeFact::Insert => Some(Privilege::Insert),
        PrivilegeFact::Update => Some(Privilege::Update),
        PrivilegeFact::Delete => Some(Privilege::Delete),
        PrivilegeFact::Truncate => Some(Privilege::Truncate),
        PrivilegeFact::References => Some(Privilege::References),
        PrivilegeFact::Trigger => Some(Privilege::Trigger),
        PrivilegeFact::Maintain => if maintain {
            Some(Privilege::Maintain)
        } else {
            None
        },
        _ => None,
    }
}

pub open spec fn listed_privileges(list: Seq<PrivilegeFact>, maintain: bool) -> Seq<Privilege>
    decreases list.len(),
{
    if list.len() == 0 {
        Seq::empty()
    } else {
        let rest = listed_privileges(list.drop_last(), maintain);
        match table_privilege(list.last(), maintain) {
            Some(p) => rest.push(p),
            None => rest,
        }
    }
}

pub open spec fn basic_privileges() -> Seq<Privilege> {
    seq![
        Privilege::Select,
        Privilege::Insert,
        Privilege::Update,
        Privilege::Delete,
        Privilege::Truncate,
        Privilege::References,
        Privilege::Trigger,
    ]
}

/// The table privileges that a statement names.
pub open spec fn granted_privileges(d: StateData, spec: PrivilegeSpec) -> Seq<Privilege> {
    match spec {
        PrivilegeSpec::All => if supports_maintain(d) {
            basic_privileges().push(Privilege::Maintain)
        } else {
            basic_privileges()
        },
        PrivilegeSpec::List(list) => listed_privileges(list@, supports_maintain(d)),
    }
}

fn to_table_privilege(f: &PrivilegeFact, maintain: bool) -> (r: Option<Privilege>)
    ensures
        r == table_privilege(*f, maintain),
{
    match f {
        PrivilegeFact::Select => Some(Privilege::Select),
        PrivilegeFact::Insert => Some(Privilege::Insert),
        PrivilegeFact::Update => Some(Privilege::Update),
        PrivilegeFact::Delete => Some(Privilege::Delete),
        PrivilegeFact::Truncate => Some(Privilege::Truncate),
        PrivilegeFact::References => Some(Privilege::References),
        PrivilegeFact::Trigger => Some(Privilege::Trigger),
        PrivilegeFact::Maintain => if maintain {
            Some(Privilege::Maintain)
        } else {
            None
        },
        _ => None,
    }
}

/// Every role that some role inherits from.
spec fn all_inherited(items: Seq<(ObjectIdView, Overlay<RoleStateView>)>) -> Seq<ObjectIdView>
    decreases items.len(),
{
    if items.len() == 0 {
        Seq::empty()
    } else {
        all_inherited(items.drop_last()) + match items.last().1 {
            Overlay::Present(role) => role.can_inherit_from,
            Overlay::Dropped => Seq::empty(),
        }
    }
}

proof fn lemma_all_inherited(items: Seq<(ObjectIdView, Overlay<RoleStateView>)>, i: int, j: int)
    requires
        0 <= i < items.len(),
        items[i].1 is Present,
        0 <= j < items[i].1->Present_0.can_inherit_from.len(),
    ensures
        all_inherited(items).contains(items[i].1->Present_0.can_inherit_from[j]),
    decreases items.len(),
{
    let x = items[i].1->Present_0.can_inherit_from[j];
    let rest = all_inherited(items.drop_last());
    if i == items.len() - 1 {
        assert(all_inherited(items)[rest.len() + j] == x);
    } else {
        lemma_all_inherited(items.drop_last(), i, j);
        let k = choose|k: int| 0 <= k < rest.len() && rest[k] == x;
        assert(all_inherited(items)[k] == x);
    }
}

impl AnalysisState {
    pub(crate) fn resolve_role_name(role: &RoleFact, current_role: &String, session_role: &String) -> (r: Option<ObjectId>)
        ensures
            r.deep_view() == named_role(*role, current_role@, session_role@),
    {
        proof {
            reveal(data_of);
        }
        match role {
            RoleFact::Named { name, .. } => Some(ObjectId::new("", name)),
            RoleFact::CurrentUser => Some(ObjectId::new("", current_role)),
            RoleFact::CurrentRole => Some(ObjectId::new("", current_role)),
            RoleFact::SessionUser => Some(ObjectId::new("", session_role)),
            RoleFact::Unknown => None,
        }
    }

    fn settable_names(&self, name: &String) -> (r: Vec<String>)
        ensures
            r.deep_view() == settable_from(self@.data, name@),
    {
        proof {
            reveal(data_of);
        }
        match self.present_role(name) {
            None => {
                let r: Vec<String> = Vec::new();
                assert(r.deep_view() =~= Seq::<Seq<char>>::empty());
                r
            },
            Some(role) => {
                let name_of = |id: &ObjectId| -> (n: String)
                    ensures
                        n@ == id@.name,
                    { id.name.clone() };
                crate::collections::vec_map(&role.can_set_role_to, name_of, Ghost(|id: ObjectIdView| id.name))
            },
        }
    }

    /// Whether the session may switch to a role.
    pub(crate) fn can_set_role_to(&self, target: &String) -> (r: Option<bool>)
        ensures
            r == may_set_role(self@.data, target@),
    {
        proof {
            reveal(data_of);
        }
        if !self.local.roles_known || !self.local.session_role_known {
            return None;
        }
        if self.present_role(target).is_none() {
            return Some(false);
        }
        if self.local.session_role == *target {
            return Some(true);
        }
        match self.present_role(&self.local.session_role) {
            None => None,
            Some(session) => {
                if session.is_superuser {
                    return Some(true);
                }
                let ghost d = self@.data;
                let roots = self.settable_names(&self.local.session_role);
                let follow = |n: &String| -> (v: Vec<String>)
                    ensures
                        v.deep_view() == settable_from(self@.data, n@),
                    { self.settable_names(n) };
                let count = self.local.roles.len();
                let ghost items = self.local.roles.items();
                let ghost keys = items.map_values(|e: (ObjectIdView, Overlay<RoleStateView>)| e.0.name);
                let ghost next = |n: Seq<char>| settable_from(d, n);
                proof {
                    assert forall|n: Seq<char>| #[trigger] next(n).len() > 0 implies keys.contains(n) by {
                        assert(self.local.roles@.dom().contains(role_object(n)));
                        let i = choose|i: int| 0 <= i < items.len() && items[i].0 == role_object(n);
                        assert(keys[i] == n);
                    }
                }
                let found = reach(roots, follow, Ghost(next), Ghost(keys));
                Some(found.contains(target))
            },
        }
    }

    pub(crate) fn can_set_session_authorization_to(&self, target: &String) -> (r: Option<bool>)
        ensures
            r == may_set_session(self@.data, target@),
    {
        proof {
            reveal(data_of);
        }
        if !self.local.roles_known || !self.local.authenticated_role_known {
            return None;
        }
        if self.present_role(target).is_none() {
            return Some(false);
        }
        if self.local.authenticated_role == *target {
            return Some(true);
        }
        match self.present_role(&self.local.authenticated_role) {
            Some(role) => Some(role.is_superuser),
            None => Some(false),
        }
    }

    /// Whether a role holds a privilege on a relation, itself or by
    /// inheritance.
    pub(crate) fn effective_relation_privilege(&self, relation: &RelationState, role: &ObjectId, privilege: Privilege, grant_option: bool) -> (r:
        Option<bool>)
        ensures
            r == effective_privilege(self@.data, relation@, role@, privilege, grant_option),
    {
        proof {
            reveal(data_of);
        }
        if !self.local.roles_known {
            return None;
        }
        let ghost d = self@.data;
        let ghost rel = relation@;
        let count = self.local.roles.len();
        let ghost items = self.local.roles.items();
        let ghost keys = all_inherited(items).push(role@);
        let mut pending: Vec<ObjectId> = Vec::new();
        pending.push(role.dup());
        let mut visited: VecSet<ObjectId> = VecSet::new();
        let ghost mut done: nat = 0;
        let ghost root = seq![role@];
        let ghost none = Set::<ObjectIdView>::empty();
        proof {
            assert(pending.deep_view() =~= root);
            assert(keys.last() == role@);
            assert(keys.contains(pending.deep_view()[0]));
        }
        while pending.len() > 0
            invariant
                d == self@.data,
                d.roles_known,
                rel == relation@,
                items == self.local.roles.items(),
                self.local.roles@ == d.roles,
                keys == all_inherited(items).push(role@),
                forall|k: ObjectIdView| #[trigger] d.roles.dom().contains(k) ==> exists|i: int| 0 <= i < items.len() && items[i].0 == k,
                forall|i: int| 0 <= i < items.len() ==> d.roles.dom().contains(#[trigger] items[i].0) && d.roles[items[i].0] == items[i].1,
                root == seq![role@],
                none == Set::<ObjectIdView>::empty(),
                forall|i: int| 0 <= i < pending.deep_view().len() ==> keys.contains(#[trigger] pending.deep_view()[i]),
                forall|n: nat| #[trigger] privilege_search(d, rel, privilege, grant_option, root, none, (n + done) as nat) == privilege_search(
                    d,
                    rel,
                    privilege,
                    grant_option,
                    pending.deep_view(),
                    visited@,
                    n,
                ),
            decreases unvisited(keys, visited@), pending.len(),
        {
            let ghost before = pending.deep_view();
            let ghost seen = visited@;
            let ghost was = done;
            match pending.pop() {
                None => {
                    assert(false);
                },
                Some(candidate) => {
                    let ghost c = candidate@;
                    let ghost rest = pending.deep_view();
                    proof {
                        assert(before.last() == c);
                        assert(rest =~= before.drop_last());
                        assert(keys.contains(before[before.len() - 1]));
                        assert forall|i: int| 0 <= i < rest.len() implies keys.contains(#[trigger] rest[i]) by {
                            assert(before[i] == rest[i]);
                        }
                        done = done + 1;
                        lemma_unvisited(keys, seen, c);
                    }
                    if visited.contains(&candidate) {
                        proof {
                            assert forall|n: nat| #[trigger] privilege_search(d, rel, privilege, grant_option, root, none, (n + done) as nat)
                                == privilege_search(d, rel, privilege, grant_option, rest, visited@, n) by {
                                assert((n + done) as nat == ((n + 1) as nat + was) as nat);
                                assert(privilege_search(d, rel, privilege, grant_option, root, none, ((n + 1) as nat + was) as nat)
                                    == privilege_search(d, rel, privilege, grant_option, before, seen, (n + 1) as nat));
                            }
                        }
                    } else {
                        let direct = if grant_option {
                            relation.privileges.has_direct_grant_option(&candidate, privilege)
                        } else {
                            relation.privileges.has_direct_privilege(&candidate, privilege)
                        };
                        if direct {
                            proof {
                                assert(privilege_search(d, rel, privilege, grant_option, root, none, (1 + was) as nat) == privilege_search(
                                    d,
                                    rel,
                                    privilege,
                                    grant_option,
                                    before,
                                    seen,
                                    1,
                                ));
                                lemma_effective(d, rel, role@, privilege, grant_option, (1 + was) as nat, Some(true));
                            }
                            return Some(true);
                        }
                        match self.present_role(&candidate.name) {
                            None => {
                                proof {
                                    assert(privilege_search(d, rel, privilege, grant_option, root, none, (1 + was) as nat) == privilege_search(
                                        d,
                                        rel,
                                        privilege,
                                        grant_option,
                                        before,
                                        seen,
                                        1,
                                    ));
                                    lemma_effective(d, rel, role@, privilege, grant_option, (1 + was) as nat, None);
                                }
                                return None;
                            },
                            Some(state) => {
                                let ghost more = inherits_from(d, c);
                                visited.insert(candidate);
                                if state.inherits {
                                    let mut list = state.can_inherit_from.dup();
                                    pending.append(&mut list);
                                }
                                proof {
                                    assert(pending.deep_view() =~= rest + more);
                                    assert forall|i: int| 0 <= i < pending.deep_view().len() implies keys.contains(
                                        #[trigger] pending.deep_view()[i],
                                    ) by {
                                        if i < rest.len() {
                                            assert(rest[i] == pending.deep_view()[i]);
                                        } else {
                                            let k = choose|k: int| 0 <= k < items.len() && items[k].0 == role_object(c.name);
                                            lemma_all_inherited(items, k, i - rest.len());
                                            let all = all_inherited(items);
                                            let q = choose|q: int| 0 <= q < all.len() && all[q] == pending.deep_view()[i];
                                            assert(keys[q] == pending.deep_view()[i]);
                                        }
                                    }
                                    assert forall|n: nat| #[trigger] privilege_search(d, rel, privilege, grant_option, root, none, (n + done) as nat)
                                        == privilege_search(d, rel, privilege, grant_option, pending.deep_view(), visited@, n) by {
                                        assert((n + done) as nat == ((n + 1) as nat + was) as nat);
                                        assert(privilege_search(d, rel, privilege, grant_option, root, none, ((n + 1) as nat + was) as nat)
                                            == privilege_search(d, rel, privilege, grant_option, before, seen, (n + 1) as nat));
                                    }
                                }
                            },
                        }
                    }
                },
            }
        }
        proof {
            assert(privilege_search(d, rel, privilege, grant_option, root, none, (0 + done) as nat) == privilege_search(
                d,
                rel,
                privilege,
                grant_option,
                pending.deep_view(),
                visited@,
                0,
            ));
            lemma_effective(d, rel, role@, privilege, grant_option, (0 + done) as nat, Some(false));
        }
        Some(false)
    }

    pub(crate) fn grantor_identity(&self, granted_by: &Option<RoleFact>) -> (r: Option<ObjectId>)
        ensures
            r.deep_view() == grantor_of(self@.data, *granted_by),
    {
        proof {
            reveal(data_of);
        }
        if let Some(fact) = granted_by {
            if let Some(identity) = self.role_fact_identity(fact) {
                return Some(ObjectId::new("", &identity.0));
            }
        }
        if self.local.current_role_known {
            Some(ObjectId::new("", &self.local.current_role))
        } else {
            None
        }
    }

    pub(crate) fn authorize_relation_grant(&self, relation: &RelationState, privileges: &Vec<Privilege>, grantor: &Option<ObjectId>) -> (r: Option<
        bool,
    >)
        ensures
            r == may_grant(self@.data, relation@, privileges@, grantor.deep_view()),
    {
        proof {
            reveal(data_of);
        }
        match grantor {
            None => None,
            Some(who) => match self.present_role(&who.name) {
                None => None,
                Some(role) => {
                    if role.is_superuser || relation.owner.same(who) {
                        return Some(true);
                    }
                    let mut i: usize = 0;
                    while i < privileges.len()
                        invariant
                            i <= privileges.len(),
                            grantor.deep_view() == Some(who@),
                            role_present(self@.data, who@.name),
                            !role_named(self@.data, who@.name).is_superuser && relation@.owner != who@,
                            forall|j: int|
                                0 <= j < i ==> effective_privilege(self@.data, relation@, who@, #[trigger] privileges@[j], true) == Some(true),
                        decreases privileges.len() - i,
                    {
                        match self.effective_relation_privilege(relation, who, privileges[i], true) {
                            Some(true) => {},
                            _ => {
                                assert(effective_privilege(self@.data, relation@, who@, privileges@[i as int], true) != Some(true));
                                return Some(false);
                            },
                        }
                        i = i + 1;
                    }
                    Some(true)
                },
            },
        }
    }

    pub(crate) fn resolve_grant_privileges(&self, spec: &PrivilegeSpec) -> (r: Vec<Privilege>)
        ensures
            r@ == granted_privileges(self@.data, *spec),
    {
        proof {
            reveal(data_of);
        }
        let maintain = match self.pg_version_num {
            Some(version) => version >= 170_000,
            None => false,
        };
        let mut r: Vec<Privilege> = Vec::new();
        match spec {
            PrivilegeSpec::All => {
                r.push(Privilege::Select);
                r.push(Privilege::Insert);
                r.push(Privilege::Update);
                r.push(Privilege::Delete);
                r.push(Privilege::Truncate);
                r.push(Privilege::References);
                r.push(Privilege::Trigger);
                assert(r@ =~= basic_privileges());
                if maintain {
                    r.push(Privilege::Maintain);
                }
            },
            PrivilegeSpec::List(list) => {
                let mut i: usize = 0;
                assert(list@.take(0) =~= Seq::<PrivilegeFact>::empty());
                while i < list.len()
                    invariant
                        i <= list.len(),
                        r@ == listed_privileges(list@.take(i as int), maintain),
                    decreases list.len() - i,
                {
                    proof {
                        assert(list@.take(i + 1).drop_last() =~= list@.take(i as int));
                        assert(list@.take(i + 1).last() == list@[i as int]);
                    }
                    if let Some(p) = to_table_privilege(&list[i], maintain) {
                        r.push(p);
                    }
                    i = i + 1;
                }
                assert(list@.take(list.len() as int) =~= list@);
            },
        }
        r
    }
}

} // verus!
