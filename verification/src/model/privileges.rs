//! Privileges on relations.
use crate::collections::{lemma_filtered, vec_all, vec_any, vec_filter, vec_map, Dup, Key, VecSet};
use crate::identifiers::{ObjectId, ObjectIdView};
use crate::model::relation::{Privilege, PrivilegeGrant, PrivilegeGrantView, PrivilegeMatrix};
use crate::reach::{reach, reachable};
use vstd::prelude::*;

verus! {

pub open spec fn has_privilege(rows: Seq<PrivilegeGrantView>, role: ObjectIdView, p: Privilege) -> bool {
    exists|i: int| 0 <= i < rows.len() && row_holds(#[trigger] rows[i], role, p)
}

pub open spec fn row_holds(g: PrivilegeGrantView, role: ObjectIdView, p: Privilege) -> bool {
    g.grantee == role && g.privilege == p
}

pub open spec fn row_delegates(g: PrivilegeGrantView, role: ObjectIdView, p: Privilege) -> bool {
    row_holds(g, role, p) && g.grant_option
}

pub open spec fn has_grant_option(rows: Seq<PrivilegeGrantView>, role: ObjectIdView, p: Privilege) -> bool {
    exists|i: int| 0 <= i < rows.len() && row_delegates(#[trigger] rows[i], role, p)
}

pub open spec fn same_grant(g: PrivilegeGrantView, grantee: ObjectIdView, p: Privilege, grantor: Option<ObjectIdView>) -> bool {
    g.grantee == grantee && g.privilege == p && g.grantor == grantor
}

/// The rows after one privilege was granted. A grant that is there keeps its
/// place, and its grant option is only ever added.
pub open spec fn granted(
    rows: Seq<PrivilegeGrantView>,
    grantee: ObjectIdView,
    p: Privilege,
    grantor: Option<ObjectIdView>,
    grant_option: bool,
) -> Seq<PrivilegeGrantView> {
    if exists|i: int| 0 <= i < rows.len() && same_grant(#[trigger] rows[i], grantee, p, grantor) {
        rows.map_values(
            |g: PrivilegeGrantView|
                if same_grant(g, grantee, p, grantor) {
                    PrivilegeGrantView { grant_option: g.grant_option || grant_option, ..g }
                } else {
                    g
                },
        )
    } else {
        rows.push(PrivilegeGrantView { grantee, privilege: p, grantor, grant_option })
    }
}

/// The rows after the first `n` of several privileges were granted.
pub open spec fn granted_each(
    rows: Seq<PrivilegeGrantView>,
    grantee: ObjectIdView,
    privileges: Seq<Privilege>,
    n: nat,
    grantor: Option<ObjectIdView>,
    grant_option: bool,
) -> Seq<PrivilegeGrantView>
    decreases n,
{
    if n == 0 || n > privileges.len() {
        rows
    } else {
        granted(
            granted_each(rows, grantee, privileges, (n - 1) as nat, grantor, grant_option),
            grantee,
            privileges[n - 1],
            grantor,
            grant_option,
        )
    }
}

/// Whether a row is one that a `REVOKE` names: without a grantor it names the
/// grants of all grantors.
pub open spec fn revoke_names(
    g: PrivilegeGrantView,
    revokee: ObjectIdView,
    privileges: Seq<Privilege>,
    grantor: Option<ObjectIdView>,
) -> bool {
    g.grantee == revokee && privileges.contains(g.privilege) && (grantor is None || g.grantor == grantor)
}

pub open spec fn without_grant_option(
    rows: Seq<PrivilegeGrantView>,
    revokee: ObjectIdView,
    privileges: Seq<Privilege>,
    grantor: Option<ObjectIdView>,
) -> Seq<PrivilegeGrantView> {
    rows.map_values(
        |g: PrivilegeGrantView|
            if revoke_names(g, revokee, privileges, grantor) {
                PrivilegeGrantView { grant_option: false, ..g }
            } else {
                g
            },
    )
}

/// Those to whom a role passed on a privilege.
pub open spec fn grantees_of(rows: Seq<PrivilegeGrantView>, p: Privilege, grantor: ObjectIdView) -> Seq<ObjectIdView> {
    rows.filter(|g: PrivilegeGrantView| g.privilege == p && g.grantor == Some(grantor)).map_values(|g: PrivilegeGrantView| g.grantee)
}

/// Whether a privilege of `grantor` comes from `root`, directly or through
/// others.
pub open spec fn depends_on_grant(rows: Seq<PrivilegeGrantView>, p: Privilege, root: ObjectIdView, grantor: ObjectIdView) -> bool {
    reachable(|a: ObjectIdView| grantees_of(rows, p, a), seq![root], grantor)
}

/// Whether a `REVOKE ... CASCADE` takes a row along: it was granted by the
/// revokee, or by one whose privilege comes from the revokee.
pub open spec fn revoke_takes_along(
    rows: Seq<PrivilegeGrantView>,
    g: PrivilegeGrantView,
    revokee: ObjectIdView,
    privileges: Seq<Privilege>,
) -> bool {
    privileges.contains(g.privilege) && g.grantor is Some && depends_on_grant(rows, g.privilege, revokee, g.grantor->0)
}

pub open spec fn revoked(
    rows: Seq<PrivilegeGrantView>,
    revokee: ObjectIdView,
    privileges: Seq<Privilege>,
    grantor: Option<ObjectIdView>,
    cascade: bool,
) -> Seq<PrivilegeGrantView> {
    rows.filter(
        |g: PrivilegeGrantView|
            !revoke_names(g, revokee, privileges, grantor) && !(cascade && revoke_takes_along(rows, g, revokee, privileges)),
    )
}

/// Whether every grant that a `REVOKE` names has its grantor.
pub open spec fn revoke_provenance_known(rows: Seq<PrivilegeGrantView>, revokee: ObjectIdView, privileges: Seq<Privilege>) -> bool {
    forall|i: int| 0 <= i < rows.len() ==> provenance_known(#[trigger] rows[i], revokee, privileges)
}

pub open spec fn provenance_known(g: PrivilegeGrantView, revokee: ObjectIdView, privileges: Seq<Privilege>) -> bool {
    revoke_names(g, revokee, privileges, None) ==> g.grantor is Some
}

/// Whether every grant option that a `REVOKE` names has its grantor.
pub open spec fn option_provenance_known(rows: Seq<PrivilegeGrantView>, revokee: ObjectIdView, privileges: Seq<Privilege>) -> bool {
    forall|i: int| 0 <= i < rows.len() ==> option_row_known(#[trigger] rows[i], revokee, privileges)
}

pub open spec fn option_row_known(g: PrivilegeGrantView, revokee: ObjectIdView, privileges: Seq<Privilege>) -> bool {
    g.grant_option ==> provenance_known(g, revokee, privileges)
}

fn has_privilege_in(privileges: &Vec<Privilege>, p: Privilege) -> (r: bool)
    ensures
        r == privileges@.contains(p),
{
    let mut i: usize = 0;
    while i < privileges.len()
        invariant
            i <= privileges.len(),
            forall|j: int| 0 <= j < i ==> privileges@[j] != p,
        decreases privileges.len() - i,
    {
        if privileges[i] == p {
            assert(privileges@[i as int] == p);
            return true;
        }
        i = i + 1;
    }
    false
}

fn names(g: &PrivilegeGrant, revokee: &ObjectId, privileges: &Vec<Privilege>, grantor: &Option<ObjectId>) -> (r: bool)
    ensures
        r == revoke_names(g@, revokee@, privileges@, grantor.deep_view()),
{
    g.grantee.same(revokee) && has_privilege_in(privileges, g.privilege) && (grantor.is_none() || g.grantor.same(grantor))
}

impl PrivilegeMatrix {
    pub fn has_direct_privilege(&self, role: &ObjectId, privilege: Privilege) -> (r: bool)
        ensures
            r == has_privilege(self@.grants, role@, privilege),
    {
        let holds = |g: &PrivilegeGrant| -> (b: bool)
            ensures
                b == row_holds(g@, role@, privilege),
            { g.grantee.same(role) && g.privilege == privilege };
        vec_any(&self.grants, holds, Ghost(|g: PrivilegeGrantView| row_holds(g, role@, privilege)))
    }

    pub fn has_direct_grant_option(&self, role: &ObjectId, privilege: Privilege) -> (r: bool)
        ensures
            r == has_grant_option(self@.grants, role@, privilege),
    {
        let delegates = |g: &PrivilegeGrant| -> (b: bool)
            ensures
                b == row_delegates(g@, role@, privilege),
            { g.grantee.same(role) && g.privilege == privilege && g.grant_option };
        vec_any(&self.grants, delegates, Ghost(|g: PrivilegeGrantView| row_delegates(g, role@, privilege)))
    }

    fn grant_one(&mut self, grantee: &ObjectId, privilege: Privilege, grantor: &Option<ObjectId>, grant_option: bool)
        ensures
            final(self)@.grants == granted(old(self)@.grants, grantee@, privilege, grantor.deep_view(), grant_option),
    {
        let same = |g: &PrivilegeGrant| -> (b: bool)
            ensures
                b == same_grant(g@, grantee@, privilege, grantor.deep_view()),
            { g.grantee.same(grantee) && g.privilege == privilege && g.grantor.same(grantor) };
        if vec_any(&self.grants, same, Ghost(|g: PrivilegeGrantView| same_grant(g, grantee@, privilege, grantor.deep_view()))) {
            let extend = |g: &PrivilegeGrant| -> (r: PrivilegeGrant)
                ensures
                    r@ == (if same_grant(g@, grantee@, privilege, grantor.deep_view()) {
                        PrivilegeGrantView { grant_option: g@.grant_option || grant_option, ..g@ }
                    } else {
                        g@
                    }),
                {
                    let mut g = g.dup();
                    if g.grantee.same(grantee) && g.privilege == privilege && g.grantor.same(grantor) {
                        g.grant_option = g.grant_option || grant_option;
                    }
                    g
                };
            self.grants = vec_map(
                &self.grants,
                extend,
                Ghost(
                    |g: PrivilegeGrantView|
                        if same_grant(g, grantee@, privilege, grantor.deep_view()) {
                            PrivilegeGrantView { grant_option: g.grant_option || grant_option, ..g }
                        } else {
                            g
                        },
                ),
            );
        } else {
            let ghost before = self@.grants;
            self.grants.push(PrivilegeGrant { grantee: grantee.dup(), privilege, grantor: grantor.dup(), grant_option });
            assert(self@.grants =~= granted(before, grantee@, privilege, grantor.deep_view(), grant_option));
        }
    }

    /// Grants privileges to a role.
    pub fn grant_from(&mut self, grantee: &ObjectId, privileges: &Vec<Privilege>, grantor: &Option<ObjectId>, grant_option: bool)
        ensures
            final(self)@.grants == granted_each(
                old(self)@.grants,
                grantee@,
                privileges@,
                privileges@.len(),
                grantor.deep_view(),
                grant_option,
            ),
    {
        let mut i: usize = 0;
        while i < privileges.len()
            invariant
                i <= privileges.len(),
                self@.grants == granted_each(old(self)@.grants, grantee@, privileges@, i as nat, grantor.deep_view(), grant_option),
            decreases privileges.len() - i,
        {
            self.grant_one(grantee, privileges[i], grantor, grant_option);
            i = i + 1;
        }
    }

    /// Takes back the right to pass privileges on.
    pub fn revoke_grant_option_from(&mut self, revokee: &ObjectId, privileges: &Vec<Privilege>, grantor: &Option<ObjectId>)
        ensures
            final(self)@.grants == without_grant_option(old(self)@.grants, revokee@, privileges@, grantor.deep_view()),
    {
        let clear = |g: &PrivilegeGrant| -> (r: PrivilegeGrant)
            ensures
                r@ == (if revoke_names(g@, revokee@, privileges@, grantor.deep_view()) {
                    PrivilegeGrantView { grant_option: false, ..g@ }
                } else {
                    g@
                }),
            {
                let mut g = g.dup();
                if names(&g, revokee, privileges, grantor) {
                    g.grant_option = false;
                }
                g
            };
        self.grants = vec_map(
            &self.grants,
            clear,
            Ghost(
                |g: PrivilegeGrantView|
                    if revoke_names(g, revokee@, privileges@, grantor.deep_view()) {
                        PrivilegeGrantView { grant_option: false, ..g }
                    } else {
                        g
                    },
            ),
        );
    }

    /// Those whose privilege comes from `root`.
    fn dependents_of(&self, privilege: Privilege, root: &ObjectId) -> (r: VecSet<ObjectId>)
        ensures
            forall|a: ObjectIdView| #[trigger] r@.contains(a) <==> depends_on_grant(self@.grants, privilege, root@, a),
    {
        let mut roots: Vec<ObjectId> = Vec::new();
        roots.push(root.dup());
        assert(roots.deep_view() =~= seq![root@]);
        let ghost rows = self@.grants;
        let follow = |a: &ObjectId| -> (v: Vec<ObjectId>)
            ensures
                v.deep_view() == grantees_of(self@.grants, privilege, a@),
            {
                let passed = |g: &PrivilegeGrant| -> (b: bool)
                    ensures
                        b == (g@.privilege == privilege && g@.grantor == Some(a@)),
                    {
                        g.privilege == privilege && match &g.grantor {
                            Some(x) => x.same(a),
                            None => false,
                        }
                    };
                let list = vec_filter(&self.grants, passed, Ghost(|g: PrivilegeGrantView| g.privilege == privilege && g.grantor == Some(a@)));
                let to = |g: &PrivilegeGrant| -> (x: ObjectId)
                    ensures
                        x@ == g@.grantee,
                    { g.grantee.dup() };
                vec_map(&list, to, Ghost(|g: PrivilegeGrantView| g.grantee))
            };
        let ghost keys = rows.map_values(
            |g: PrivilegeGrantView|
                match g.grantor {
                    Some(x) => x,
                    None => g.grantee,
                },
        );
        proof {
            assert forall|a: ObjectIdView| #[trigger] grantees_of(rows, privilege, a).len() > 0 implies keys.contains(a) by {
                let p = |g: PrivilegeGrantView| g.privilege == privilege && g.grantor == Some(a);
                let hits = rows.filter(p);
                assert(hits.len() > 0);
                lemma_filtered(rows, p);
                assert(rows.contains(hits[0]) && p(hits[0]));
                let i = choose|i: int| 0 <= i < rows.len() && rows[i] == hits[0];
                assert(keys[i] == a);
            }
        }
        let ghost next = |a: ObjectIdView| grantees_of(rows, privilege, a);
        assert forall|a: ObjectIdView| #[trigger] next(a).len() > 0 implies keys.contains(a) by {
            assert(grantees_of(rows, privilege, a).len() > 0);
        }
        reach(roots, follow, Ghost(next), Ghost(keys))
    }

    fn taken_along(&self, g: &PrivilegeGrant, revokee: &ObjectId, privileges: &Vec<Privilege>) -> (r: bool)
        ensures
            r == revoke_takes_along(self@.grants, g@, revokee@, privileges@),
    {
        if !has_privilege_in(privileges, g.privilege) {
            return false;
        }
        match &g.grantor {
            None => false,
            Some(grantor) => self.dependents_of(g.privilege, revokee).contains(grantor),
        }
    }

    /// Takes privileges back, with `cascade` also from those who have them
    /// through the revokee.
    pub fn revoke_from_cascade(&mut self, revokee: &ObjectId, privileges: &Vec<Privilege>, grantor: &Option<ObjectId>, cascade: bool)
        ensures
            final(self)@.grants == revoked(old(self)@.grants, revokee@, privileges@, grantor.deep_view(), cascade),
    {
        let matrix: &PrivilegeMatrix = self;
        let stays = |g: &PrivilegeGrant| -> (b: bool)
            ensures
                b == (!revoke_names(g@, revokee@, privileges@, grantor.deep_view()) && !(cascade && revoke_takes_along(
                    matrix@.grants,
                    g@,
                    revokee@,
                    privileges@,
                ))),
            { !names(g, revokee, privileges, grantor) && !(cascade && matrix.taken_along(g, revokee, privileges)) };
        let ghost rows = matrix@.grants;
        let kept = vec_filter(
            &matrix.grants,
            stays,
            Ghost(
                |g: PrivilegeGrantView|
                    !revoke_names(g, revokee@, privileges@, grantor.deep_view()) && !(cascade && revoke_takes_along(rows, g, revokee@, privileges@)),
            ),
        );
        self.grants = kept;
    }

    pub fn targeted_revoke_provenance_is_known(&self, revokee: &ObjectId, privileges: &Vec<Privilege>) -> (r: bool)
        ensures
            r == revoke_provenance_known(self@.grants, revokee@, privileges@),
    {
        let any: Option<ObjectId> = None;
        let known = |g: &PrivilegeGrant| -> (b: bool)
            ensures
                b == provenance_known(g@, revokee@, privileges@),
            { !names(g, revokee, privileges, &any) || g.grantor.is_some() };
        vec_all(&self.grants, known, Ghost(|g: PrivilegeGrantView| provenance_known(g, revokee@, privileges@)))
    }

    pub fn targeted_grant_option_revoke_provenance_is_known(&self, revokee: &ObjectId, privileges: &Vec<Privilege>) -> (r: bool)
        ensures
            r == option_provenance_known(self@.grants, revokee@, privileges@),
    {
        let any: Option<ObjectId> = None;
        let known = |g: &PrivilegeGrant| -> (b: bool)
            ensures
                b == option_row_known(g@, revokee@, privileges@),
            { !g.grant_option || !names(g, revokee, privileges, &any) || g.grantor.is_some() };
        vec_all(&self.grants, known, Ghost(|g: PrivilegeGrantView| option_row_known(g, revokee@, privileges@)))
    }
}

/// A grant holds afterwards, and takes no privilege from anyone.
pub proof fn law_grant_adds(
    rows: Seq<PrivilegeGrantView>,
    grantee: ObjectIdView,
    p: Privilege,
    grantor: Option<ObjectIdView>,
    grant_option: bool,
    role: ObjectIdView,
    q: Privilege,
)
    ensures
        has_privilege(granted(rows, grantee, p, grantor, grant_option), grantee, p),
        has_privilege(rows, role, q) ==> has_privilege(granted(rows, grantee, p, grantor, grant_option), role, q),
{
    let after = granted(rows, grantee, p, grantor, grant_option);
    if exists|i: int| 0 <= i < rows.len() && same_grant(#[trigger] rows[i], grantee, p, grantor) {
        let i = choose|i: int| 0 <= i < rows.len() && same_grant(#[trigger] rows[i], grantee, p, grantor);
        assert(row_holds(after[i], grantee, p));
        if has_privilege(rows, role, q) {
            let j = choose|j: int| 0 <= j < rows.len() && row_holds(#[trigger] rows[j], role, q);
            assert(row_holds(after[j], role, q));
        }
    } else {
        assert(row_holds(after[rows.len() as int], grantee, p));
        if has_privilege(rows, role, q) {
            let j = choose|j: int| 0 <= j < rows.len() && row_holds(#[trigger] rows[j], role, q);
            assert(row_holds(after[j], role, q));
        }
    }
}

/// After a revoke of all grantors' grants the revokee holds none of the
/// privileges directly.
pub proof fn law_revoke_removes(
    rows: Seq<PrivilegeGrantView>,
    revokee: ObjectIdView,
    privileges: Seq<Privilege>,
    cascade: bool,
    p: Privilege,
)
    requires
        privileges.contains(p),
    ensures
        !has_privilege(revoked(rows, revokee, privileges, None, cascade), revokee, p),
{
    let keep = |g: PrivilegeGrantView|
        !revoke_names(g, revokee, privileges, None) && !(cascade && revoke_takes_along(rows, g, revokee, privileges));
    let after = rows.filter(keep);
    lemma_filtered(rows, keep);
    assert(after == revoked(rows, revokee, privileges, None, cascade));
    assert forall|i: int| 0 <= i < after.len() implies !row_holds(#[trigger] after[i], revokee, p) by {
        assert(keep(after[i]));
    }
}

} // verus!
