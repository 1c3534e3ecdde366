//! `GRANT` and `REVOKE` on tables: who holds what afterwards.
use crate::collections::lemma_filtered;
use crate::facts::{PrivilegeFact, PrivilegeSpec, RoleFact};
use crate::identifiers::ObjectIdView;
use crate::laws::constraints::role_meant;
use crate::laws::{at, lemma_on_others};
use crate::model::privileges::{granted, granted_each, revoke_names, revoke_takes_along, same_grant, without_grant_option};
use crate::model::relation::{Privilege, PrivilegeGrantView, RelationStateView};
use crate::mutations::{GrantMutation, Mutation, ResolvedGrantTarget, RevokeMutation};
use crate::state::apply::{applied, other_effect};
use crate::state::apply_grant::{grant_change, objects_changed, revoke_change};
use crate::state::apply_privileges::{
    coverage_gap, grant_prelude, grantor_checked, rows_changed, rows_changed_for, table_changed, tables_changed, PrivilegeChangeView,
};
use crate::state::apply_role::{facts_checked, facts_resolved, grant_targets_checked, role_reference};
use crate::state::authority::listed_privileges;
use crate::state::cascade::CascadeView;
use crate::state::journal::tainted_if;
use crate::state::{AnalysisStateView, MutationResultView, StateData};
use crate::text::ascii_lowercase;
use vstd::prelude::*;

verus! {

// ---------------------------------------------------------------------------
// What a statement names
// ---------------------------------------------------------------------------

/// Whether a statement names a table privilege. `MAINTAIN` is one from version 17
/// on.
pub open spec fn names_privilege(d: StateData, spec: PrivilegeSpec, p: Privilege) -> bool {
    &&& p is Maintain ==> d.pg_version_num is Some && d.pg_version_num->0 >= 170_000
    &&& match spec {
        PrivilegeSpec::All => true,
        PrivilegeSpec::List(list) => exists|i: int| 0 <= i < list@.len() && means_privilege(#[trigger] list@[i], p),
    }
}

pub open spec fn means_privilege(f: PrivilegeFact, p: Privilege) -> bool {
    match p {
        Privilege::Select => f is Select,
        Privilege::Insert => f is Insert,
        Privilege::Update => f is Update,
        Privilege::Delete => f is Delete,
        Privilege::Truncate => f is Truncate,
        Privilege::References => f is References,
        Privilege::Trigger => f is Trigger,
        Privilege::Maintain => f is Maintain,
    }
}

/// The role that a statement grants to: `public` in any case stands for all.
pub open spec fn grantee_meant(d: StateData, fact: RoleFact) -> Option<ObjectIdView> {
    match role_meant(d, fact) {
        Some(name) => Some(
            ObjectIdView {
                schema: ""@,
                name: if ascii_lowercase(name) == "public"@ {
                    "public"@
                } else {
                    name
                },
            },
        ),
        None => None,
    }
}

/// Whether one of the facts means a role.
pub open spec fn names_role(d: StateData, facts: Seq<RoleFact>, role: ObjectIdView) -> bool {
    exists|i: int| 0 <= i < facts.len() && grantee_meant(d, #[trigger] facts[i]) == Some(role)
}

/// Who is recorded as the grantor: the role that is written, else the current
/// one, where it is known.
pub open spec fn grantor_meant(d: StateData, granted_by: Option<RoleFact>) -> Option<ObjectIdView> {
    if granted_by is Some && role_meant(d, granted_by->0) is Some {
        Some(ObjectIdView { schema: ""@, name: role_meant(d, granted_by->0)->0 })
    } else if d.current_role_known {
        Some(ObjectIdView { schema: ""@, name: d.current_role })
    } else {
        None
    }
}

proof fn lemma_listed(list: Seq<PrivilegeFact>, maintain: bool, p: Privilege)
    ensures
        listed_privileges(list, maintain).contains(p) <==> (p is Maintain ==> maintain) && exists|i: int|
            0 <= i < list.len() && means_privilege(#[trigger] list[i], p),
    decreases list.len(),
{
    if list.len() > 0 {
        let shorter = list.drop_last();
        lemma_listed(shorter, maintain, p);
        let rest = listed_privileges(shorter, maintain);
        let q = crate::state::authority::table_privilege(list.last(), maintain);
        if q is Some {
            crate::collections::lemma_push_contains(rest, q->0, p);
        }
        assert(q == Some(p) <==> means_privilege(list.last(), p) && (p is Maintain ==> maintain));
        if exists|i: int| 0 <= i < list.len() && means_privilege(#[trigger] list[i], p) {
            let i = choose|i: int| 0 <= i < list.len() && means_privilege(#[trigger] list[i], p);
            if i < shorter.len() {
                assert(means_privilege(shorter[i], p));
            }
        }
        if exists|i: int| 0 <= i < shorter.len() && means_privilege(#[trigger] shorter[i], p) {
            let i = choose|i: int| 0 <= i < shorter.len() && means_privilege(#[trigger] shorter[i], p);
            assert(means_privilege(list[i], p));
        }
        if means_privilege(list.last(), p) {
            assert(means_privilege(list[list.len() - 1], p));
        }
    }
}

proof fn lemma_named(d: StateData, spec: PrivilegeSpec, p: Privilege)
    ensures
        crate::state::authority::granted_privileges(d, spec).contains(p) <==> names_privilege(d, spec, p),
{
    match spec {
        PrivilegeSpec::All => {
            let basic = crate::state::authority::basic_privileges();
            assert(basic[0] is Select && basic[1] is Insert && basic[2] is Update && basic[3] is Delete && basic[4] is Truncate && basic[5] is References
                && basic[6] is Trigger);
            let all = basic.push(Privilege::Maintain);
            assert(all[7] is Maintain);
            assert(all[0] is Select && all[1] is Insert && all[2] is Update && all[3] is Delete && all[4] is Truncate && all[5] is References && all[6] is Trigger);
        },
        PrivilegeSpec::List(list) => {
            lemma_listed(list@, crate::state::authority::supports_maintain(d), p);
        },
    }
}

// ---------------------------------------------------------------------------
// Rows
// ---------------------------------------------------------------------------

/// Whether the rows hold a grant, with at least its grant option.
pub open spec fn holds(rows: Seq<PrivilegeGrantView>, g: PrivilegeGrantView) -> bool {
    exists|i: int| 0 <= i < rows.len() && is_as_good(#[trigger] rows[i], g)
}

pub open spec fn is_as_good(row: PrivilegeGrantView, g: PrivilegeGrantView) -> bool {
    row.grantee == g.grantee && row.privilege == g.privilege && row.grantor == g.grantor && (g.grant_option ==> row.grant_option)
}

/// Whether the rows after a grant are right: what was held is held, and every
/// row was there or is one of the grant.
pub open spec fn only_granted(before: Seq<PrivilegeGrantView>, after: Seq<PrivilegeGrantView>, roles: Seq<ObjectIdView>, privileges: Seq<Privilege>, grantor: Option<ObjectIdView>) -> bool {
    &&& forall|g: PrivilegeGrantView| #[trigger] holds(before, g) ==> holds(after, g)
    &&& forall|k: int|
        0 <= k < after.len() ==> before.contains(#[trigger] after[k]) || (roles.contains(after[k].grantee) && privileges.contains(after[k].privilege)
            && after[k].grantor == grantor)
}

/// Whether all of the privileges are granted to all of the roles.
pub open spec fn all_granted(rows: Seq<PrivilegeGrantView>, roles: Seq<ObjectIdView>, privileges: Seq<Privilege>, grantor: Option<ObjectIdView>, grant_option: bool) -> bool {
    forall|role: ObjectIdView, privilege: Privilege|
        roles.contains(role) && privileges.contains(privilege) ==> #[trigger] holds(
            rows,
            PrivilegeGrantView { grantee: role, privilege, grantor, grant_option },
        )
}

proof fn lemma_granted_one(rows: Seq<PrivilegeGrantView>, grantee: ObjectIdView, p: Privilege, grantor: Option<ObjectIdView>, grant_option: bool)
    ensures
        ({
            let after = granted(rows, grantee, p, grantor, grant_option);
            &&& holds(after, PrivilegeGrantView { grantee, privilege: p, grantor, grant_option })
            &&& only_granted(rows, after, seq![grantee], seq![p], grantor)
        }),
{
    let after = granted(rows, grantee, p, grantor, grant_option);
    let g = PrivilegeGrantView { grantee, privilege: p, grantor, grant_option };
    assert(seq![grantee][0] == grantee);
    assert(seq![p][0] == p);
    if exists|i: int| 0 <= i < rows.len() && same_grant(#[trigger] rows[i], grantee, p, grantor) {
        let i = choose|i: int| 0 <= i < rows.len() && same_grant(#[trigger] rows[i], grantee, p, grantor);
        assert(is_as_good(after[i], g));
    } else {
        assert(is_as_good(after[rows.len() as int], g));
    }
    assert forall|x: PrivilegeGrantView| #[trigger] holds(rows, x) implies holds(after, x) by {
        let i = choose|i: int| 0 <= i < rows.len() && is_as_good(#[trigger] rows[i], x);
        assert(is_as_good(after[i], x));
    }
    assert forall|k: int| 0 <= k < after.len() implies rows.contains(#[trigger] after[k]) || (seq![grantee].contains(after[k].grantee) && seq![p].contains(
        after[k].privilege,
    ) && after[k].grantor == grantor) by {
        if k < rows.len() && !same_grant(rows[k], grantee, p, grantor) {
            assert(after[k] == rows[k]);
        }
    }
}

proof fn lemma_wider(
    before: Seq<PrivilegeGrantView>,
    between: Seq<PrivilegeGrantView>,
    after: Seq<PrivilegeGrantView>,
    few_roles: Seq<ObjectIdView>,
    few: Seq<Privilege>,
    roles: Seq<ObjectIdView>,
    privileges: Seq<Privilege>,
    grantor: Option<ObjectIdView>,
)
    requires
        only_granted(before, between, roles, privileges, grantor),
        only_granted(between, after, few_roles, few, grantor),
        forall|x: ObjectIdView| #[trigger] few_roles.contains(x) ==> roles.contains(x),
        forall|p: Privilege| #[trigger] few.contains(p) ==> privileges.contains(p),
    ensures
        only_granted(before, after, roles, privileges, grantor),
{
    assert forall|k: int| 0 <= k < after.len() implies before.contains(#[trigger] after[k]) || (roles.contains(after[k].grantee) && privileges.contains(
        after[k].privilege,
    ) && after[k].grantor == grantor) by {
        if between.contains(after[k]) {
            let j = choose|j: int| 0 <= j < between.len() && between[j] == after[k];
            assert(before.contains(between[j]) || (roles.contains(between[j].grantee) && privileges.contains(between[j].privilege)
                && between[j].grantor == grantor));
        }
    }
}

proof fn lemma_granted_each(rows: Seq<PrivilegeGrantView>, grantee: ObjectIdView, privileges: Seq<Privilege>, n: nat, grantor: Option<ObjectIdView>, grant_option: bool)
    requires
        n <= privileges.len(),
    ensures
        ({
            let after = granted_each(rows, grantee, privileges, n, grantor, grant_option);
            &&& forall|k: int|
                0 <= k < n ==> holds(after, PrivilegeGrantView { grantee, privilege: #[trigger] privileges[k], grantor, grant_option })
            &&& only_granted(rows, after, seq![grantee], privileges, grantor)
        }),
    decreases n,
{
    if n > 0 {
        lemma_granted_each(rows, grantee, privileges, (n - 1) as nat, grantor, grant_option);
        let between = granted_each(rows, grantee, privileges, (n - 1) as nat, grantor, grant_option);
        let p = privileges[n - 1];
        lemma_granted_one(between, grantee, p, grantor, grant_option);
        let after = granted(between, grantee, p, grantor, grant_option);
        assert forall|q: Privilege| #[trigger] seq![p].contains(q) implies privileges.contains(q) by {
            assert(privileges[n - 1] == q);
        }
        lemma_wider(rows, between, after, seq![grantee], seq![p], seq![grantee], privileges, grantor);
    }
}

proof fn lemma_rows_granted(rows: Seq<PrivilegeGrantView>, c: PrivilegeChangeView, n: nat)
    requires
        !c.revoke,
        n <= c.roles.len(),
    ensures
        only_granted(rows, rows_changed(rows, c, n), c.roles, c.privileges, c.grantor),
        all_granted(rows_changed(rows, c, n), c.roles.take(n as int), c.privileges, c.grantor, c.option),
    decreases n,
{
    if n > 0 {
        lemma_rows_granted(rows, c, (n - 1) as nat);
        let between = rows_changed(rows, c, (n - 1) as nat);
        let role = c.roles[n - 1];
        let after = rows_changed_for(between, c, role);
        lemma_granted_each(between, role, c.privileges, c.privileges.len(), c.grantor, c.option);
        assert forall|x: ObjectIdView| #[trigger] seq![role].contains(x) implies c.roles.contains(x) by {
            assert(c.roles[n - 1] == x);
        }
        lemma_wider(rows, between, after, seq![role], c.privileges, c.roles, c.privileges, c.grantor);
        assert forall|x: ObjectIdView, p: Privilege| c.roles.take(n as int).contains(x) && c.privileges.contains(p) implies #[trigger] holds(
            after,
            PrivilegeGrantView { grantee: x, privilege: p, grantor: c.grantor, grant_option: c.option },
        ) by {
            let i = choose|i: int| 0 <= i < n && c.roles.take(n as int)[i] == x;
            if i < n - 1 {
                assert(c.roles.take(n - 1)[i] == x);
                assert(holds(between, PrivilegeGrantView { grantee: x, privilege: p, grantor: c.grantor, grant_option: c.option }));
            } else {
                let k = choose|k: int| 0 <= k < c.privileges.len() && c.privileges[k] == p;
                assert(holds(after, PrivilegeGrantView { grantee: role, privilege: c.privileges[k], grantor: c.grantor, grant_option: c.option }));
            }
        }
    }
}

/// Whether a row is one that a revoke names.
pub open spec fn is_revoked(g: PrivilegeGrantView, roles: Seq<ObjectIdView>, privileges: Seq<Privilege>, grantor: Option<ObjectIdView>) -> bool {
    roles.contains(g.grantee) && privileges.contains(g.privilege) && (grantor is None || g.grantor == grantor)
}

/// Whether the rows after a revoke are right: none that it names is left, none is
/// new, and without `CASCADE` every other one stays. With `CASCADE` those stay
/// that are about another privilege, and none stays that a revokee granted.
pub open spec fn rows_are_revoked(
    before: Seq<PrivilegeGrantView>,
    after: Seq<PrivilegeGrantView>,
    roles: Seq<ObjectIdView>,
    privileges: Seq<Privilege>,
    grantor: Option<ObjectIdView>,
    cascade: bool,
    done: Seq<ObjectIdView>,
) -> bool {
    &&& forall|k: int| 0 <= k < after.len() ==> before.contains(#[trigger] after[k]) && !is_revoked(after[k], done, privileges, grantor)
    &&& forall|k: int|
        0 <= k < before.len() && !is_revoked(#[trigger] before[k], roles, privileges, grantor) && (!cascade || !privileges.contains(before[k].privilege)
            || before[k].grantor is None) ==> after.contains(before[k])
    &&& cascade ==> forall|k: int|
        0 <= k < after.len() && privileges.contains((#[trigger] after[k]).privilege) ==> after[k].grantor is None || !done.contains(after[k].grantor->0)
}

proof fn lemma_rows_revoked(rows: Seq<PrivilegeGrantView>, c: PrivilegeChangeView, n: nat)
    requires
        c.revoke,
        !c.option,
        n <= c.roles.len(),
    ensures
        rows_are_revoked(rows, rows_changed(rows, c, n), c.roles, c.privileges, c.grantor, c.cascade, c.roles.take(n as int)),
    decreases n,
{
    if n > 0 {
        lemma_rows_revoked(rows, c, (n - 1) as nat);
        let between = rows_changed(rows, c, (n - 1) as nat);
        let role = c.roles[n - 1];
        let keep = |g: PrivilegeGrantView|
            !revoke_names(g, role, c.privileges, c.grantor) && !(c.cascade && revoke_takes_along(between, g, role, c.privileges));
        let after = rows_changed_for(between, c, role);
        assert(after == between.filter(keep));
        lemma_filtered(between, keep);
        let earlier = c.roles.take(n - 1);
        let done = c.roles.take(n as int);
        assert(c.roles.contains(role));
        assert forall|x: ObjectIdView| done.contains(x) <==> earlier.contains(x) || x == role by {
            if done.contains(x) {
                let i = choose|i: int| 0 <= i < done.len() && done[i] == x;
                if i < n - 1 {
                    assert(earlier[i] == x);
                }
            }
            if earlier.contains(x) {
                let i = choose|i: int| 0 <= i < earlier.len() && earlier[i] == x;
                assert(done[i] == x);
            }
            assert(done[n - 1] == role);
        }
        assert forall|k: int| 0 <= k < after.len() implies rows.contains(#[trigger] after[k]) && !is_revoked(after[k], done, c.privileges, c.grantor) && keep(
            after[k],
        ) && between.contains(after[k]) by {
            assert(after.contains(after[k]));
            assert(between.contains(after[k]));
            let j = choose|j: int| 0 <= j < between.len() && between[j] == after[k];
            assert(rows.contains(between[j]));
        }
        assert forall|k: int|
            0 <= k < rows.len() && !is_revoked(#[trigger] rows[k], c.roles, c.privileges, c.grantor) && (!c.cascade || !c.privileges.contains(
                rows[k].privilege,
            ) || rows[k].grantor is None) implies after.contains(rows[k]) by {
            assert(between.contains(rows[k]));
            assert(keep(rows[k]));
        }
        if c.cascade {
            assert forall|k: int| 0 <= k < after.len() && c.privileges.contains((#[trigger] after[k]).privilege) implies after[k].grantor is None
                || !done.contains(after[k].grantor->0) by {
                assert(between.contains(after[k]) && keep(after[k]));
                let j = choose|j: int| 0 <= j < between.len() && between[j] == after[k];
                assert(between[j].grantor is None || !earlier.contains(between[j].grantor->0));
                if after[k].grantor == Some(role) {
                    lemma_own_grants_go(between, after[k].privilege, role);
                    assert(revoke_takes_along(between, after[k], role, c.privileges));
                }
            }
        }
    } else {
        assert(c.roles.take(0) =~= Seq::<ObjectIdView>::empty());
    }
}

proof fn lemma_own_grants_go(rows: Seq<PrivilegeGrantView>, p: Privilege, role: ObjectIdView)
    ensures
        crate::model::privileges::depends_on_grant(rows, p, role, role),
{
    crate::reach::lemma_roots_reachable(|a: ObjectIdView| crate::model::privileges::grantees_of(rows, p, a), seq![role], 0);
}

/// Whether the rows after a revoke of the grant option are right: the same rows,
/// of which those that are named bear no grant option.
pub open spec fn options_are_revoked(
    before: Seq<PrivilegeGrantView>,
    after: Seq<PrivilegeGrantView>,
    roles: Seq<ObjectIdView>,
    privileges: Seq<Privilege>,
    grantor: Option<ObjectIdView>,
) -> bool {
    &&& after.len() == before.len()
    &&& forall|k: int|
        0 <= k < after.len() ==> #[trigger] after[k] == (if is_revoked(before[k], roles, privileges, grantor) {
            PrivilegeGrantView { grant_option: false, ..before[k] }
        } else {
            before[k]
        })
}

proof fn lemma_options_revoked(rows: Seq<PrivilegeGrantView>, c: PrivilegeChangeView, n: nat)
    requires
        c.revoke,
        c.option,
        n <= c.roles.len(),
    ensures
        options_are_revoked(rows, rows_changed(rows, c, n), c.roles.take(n as int), c.privileges, c.grantor),
    decreases n,
{
    let done = c.roles.take(n as int);
    if n > 0 {
        lemma_options_revoked(rows, c, (n - 1) as nat);
        let between = rows_changed(rows, c, (n - 1) as nat);
        let role = c.roles[n - 1];
        let after = without_grant_option(between, role, c.privileges, c.grantor);
        let earlier = c.roles.take(n - 1);
        assert forall|x: ObjectIdView| done.contains(x) <==> earlier.contains(x) || x == role by {
            if done.contains(x) {
                let i = choose|i: int| 0 <= i < done.len() && done[i] == x;
                if i < n - 1 {
                    assert(earlier[i] == x);
                }
            }
            if earlier.contains(x) {
                let i = choose|i: int| 0 <= i < earlier.len() && earlier[i] == x;
                assert(done[i] == x);
            }
            assert(done[n - 1] == role);
        }
        assert forall|k: int| 0 <= k < after.len() implies #[trigger] after[k] == (if is_revoked(rows[k], done, c.privileges, c.grantor) {
            PrivilegeGrantView { grant_option: false, ..rows[k] }
        } else {
            rows[k]
        }) by {
            assert(between[k] == (if is_revoked(rows[k], earlier, c.privileges, c.grantor) {
                PrivilegeGrantView { grant_option: false, ..rows[k] }
            } else {
                rows[k]
            }));
        }
    }
}

/// Whether the rows after a change are right.
pub open spec fn rows_are_right(before: Seq<PrivilegeGrantView>, after: Seq<PrivilegeGrantView>, c: PrivilegeChangeView) -> bool {
    if !c.revoke {
        only_granted(before, after, c.roles, c.privileges, c.grantor) && all_granted(after, c.roles, c.privileges, c.grantor, c.option)
    } else if c.option {
        options_are_revoked(before, after, c.roles, c.privileges, c.grantor)
    } else {
        rows_are_revoked(before, after, c.roles, c.privileges, c.grantor, c.cascade, c.roles)
    }
}

proof fn lemma_rows_right(rows: Seq<PrivilegeGrantView>, c: PrivilegeChangeView)
    ensures
        rows_are_right(rows, rows_changed(rows, c, c.roles.len()), c),
{
    assert(c.roles.take(c.roles.len() as int) =~= c.roles);
    if !c.revoke {
        lemma_rows_granted(rows, c, c.roles.len());
    } else if c.option {
        lemma_options_revoked(rows, c, c.roles.len());
    } else {
        lemma_rows_revoked(rows, c, c.roles.len());
    }
}

proof fn lemma_right_again(a: Seq<PrivilegeGrantView>, b: Seq<PrivilegeGrantView>, e: Seq<PrivilegeGrantView>, c: PrivilegeChangeView)
    requires
        rows_are_right(a, b, c),
        rows_are_right(b, e, c),
    ensures
        rows_are_right(a, e, c),
{
    if !c.revoke {
        lemma_wider(a, b, e, c.roles, c.privileges, c.roles, c.privileges, c.grantor);
    } else if !c.option {
        assert forall|k: int| 0 <= k < e.len() implies a.contains(#[trigger] e[k]) by {
            assert(b.contains(e[k]));
            let j = choose|j: int| 0 <= j < b.len() && b[j] == e[k];
            assert(a.contains(b[j]));
        }
        assert forall|k: int|
            0 <= k < a.len() && !is_revoked(#[trigger] a[k], c.roles, c.privileges, c.grantor) && (!c.cascade || !c.privileges.contains(a[k].privilege)
                || a[k].grantor is None) implies e.contains(a[k]) by {
            assert(b.contains(a[k]));
            let j = choose|j: int| 0 <= j < b.len() && b[j] == a[k];
            assert(e.contains(b[j]));
        }
    } else {
        assert forall|k: int| 0 <= k < e.len() implies #[trigger] e[k] == (if is_revoked(a[k], c.roles, c.privileges, c.grantor) {
            PrivilegeGrantView { grant_option: false, ..a[k] }
        } else {
            a[k]
        }) by {
            assert(b[k] == (if is_revoked(a[k], c.roles, c.privileges, c.grantor) {
                PrivilegeGrantView { grant_option: false, ..a[k] }
            } else {
                a[k]
            }));
        }
    }
}

// ---------------------------------------------------------------------------
// Tables
// ---------------------------------------------------------------------------

/// Whether a relation is right after a change that reaches it or not.
pub open spec fn relation_is_right(before: Option<RelationStateView>, after: Option<RelationStateView>, c: PrivilegeChangeView, reached: bool) -> bool {
    if before is Some && reached {
        &&& after is Some
        &&& after->0 == (RelationStateView { privileges: after->0.privileges, ..before->0 })
        &&& rows_are_right(before->0.privileges.grants, after->0.privileges.grants, c)
    } else {
        after == before
    }
}

proof fn lemma_tables_changed(d: StateData, ids: Seq<ObjectIdView>, c: PrivilegeChangeView, id: ObjectIdView)
    requires
        tables_changed(d, ids, c).1 is Applied,
    ensures
        ({
            let e = tables_changed(d, ids, c).0;
            &&& relation_is_right(at(d.relations, id), at(e.relations, id), c, ids.contains(id))
            &&& e == (StateData { relations: e.relations, evidence: e.evidence, confidence: e.confidence, ..d })
        }),
    decreases ids.len(),
{
    if ids.len() > 0 {
        let d1 = table_changed(d, ids[0], c);
        let rest = ids.drop_first();
        lemma_tables_changed(d1, rest, c, id);
        lemma_only_evidence(d, ids[0], c);
        let e = tables_changed(d, ids, c).0;
        assert(ids.contains(id) <==> ids[0] == id || rest.contains(id)) by {
            if ids.contains(id) {
                let i = choose|i: int| 0 <= i < ids.len() && ids[i] == id;
                if i > 0 {
                    assert(rest[i - 1] == id);
                }
            }
            if rest.contains(id) {
                let i = choose|i: int| 0 <= i < rest.len() && rest[i] == id;
                assert(ids[i + 1] == id);
            }
        }
        if ids[0] == id && at(d.relations, id) is Some {
            let rows = at(d.relations, id)->0.privileges.grants;
            lemma_rows_right(rows, c);
            if rest.contains(id) {
                lemma_right_again(rows, rows_changed(rows, c, c.roles.len()), at(e.relations, id)->0.privileges.grants, c);
            }
        }
    }
}

proof fn lemma_only_evidence(d: StateData, id: ObjectIdView, c: PrivilegeChangeView)
    ensures
        ({
            let e = table_changed(d, id, c);
            &&& e == (StateData { relations: e.relations, evidence: e.evidence, confidence: e.confidence, ..d })
            &&& e.relations == crate::state::apply_privileges::with_privileges(d.relations, id, c)
        }),
{
    reveal(tainted_if);
}

pub(crate) proof fn lemma_gap_only(d: StateData, gap: bool)
    ensures
        ({
            let e = coverage_gap(d, gap);
            e == (StateData { evidence: e.evidence, confidence: e.confidence, ..d })
        }),
{
    reveal(tainted_if);
}

proof fn lemma_checked_only(d: StateData, facts: Seq<RoleFact>)
    ensures
        ({
            let e = facts_checked(d, facts);
            e == (StateData { evidence: e.evidence, confidence: e.confidence, ..d })
        }),
{
    reveal(facts_checked);
    reveal(tainted_if);
}

proof fn lemma_no_bad(d: StateData, facts: Seq<RoleFact>, from: nat, i: int)
    requires
        from <= i < facts.len(),
        crate::state::apply_role::first_bad_reference(d, facts, from) >= facts.len(),
    ensures
        !crate::state::apply_role::is_bad_reference(role_reference(d, facts[i])),
    decreases i - from,
{
    if from < i {
        lemma_no_bad(d, facts, from + 1, i);
    }
}

pub(crate) proof fn lemma_roles_named(d: StateData, facts: Seq<RoleFact>, role: ObjectIdView)
    requires
        facts_resolved(d, facts) is Ok,
    ensures
        facts_resolved(d, facts)->Ok_0.contains(role) <==> names_role(d, facts, role),
{
    reveal(facts_resolved);
    let roles = facts_resolved(d, facts)->Ok_0;
    assert forall|i: int| 0 <= i < facts.len() implies grantee_meant(d, #[trigger] facts[i]) == Some(roles[i]) by {
        lemma_no_bad(d, facts, 0, i);
    }
    if roles.contains(role) {
        let i = choose|i: int| 0 <= i < roles.len() && roles[i] == role;
        assert(grantee_meant(d, facts[i]) == Some(role));
    }
    if names_role(d, facts, role) {
        let i = choose|i: int| 0 <= i < facts.len() && grantee_meant(d, #[trigger] facts[i]) == Some(role);
        assert(roles[i] == role);
    }
}

proof fn lemma_unchecked(d: StateData, target: ResolvedGrantTarget, i: nat)
    ensures
        ({
            let (e, refused) = grant_targets_checked(d, target, i);
            refused is Some ==> !(refused->0 is Applied)
        }),
    decreases crate::state::apply_role::target_count(target) - i,
{
    if i < crate::state::apply_role::target_count(target) {
        lemma_unchecked(d, target, i + 1);
    }
}

/// What was found out before a grant or a revoke is made.
pub(crate) proof fn lemma_prelude(d: StateData, target: ResolvedGrantTarget, roles: Seq<RoleFact>, granted_by: Option<RoleFact>, option: bool)
    ensures
        ({
            let (e, checked) = grant_prelude(d, target, roles, granted_by, option);
            &&& checked is Err ==> !(checked->Err_0 is Applied)
            &&& checked is Ok ==> e == (StateData { evidence: e.evidence, confidence: e.confidence, ..d }) && facts_resolved(d, roles) is Ok && checked->Ok_0
                == facts_resolved(d, roles)->Ok_0
        }),
{
    lemma_unchecked(d, target, 0);
    lemma_checked_only(d, roles);
    let d2 = facts_checked(d, roles);
    lemma_gap_only(d2, option);
    lemma_errors(d, roles);
    if granted_by is Some {
        lemma_checked_only(d2, seq![granted_by->0]);
        lemma_gap_only(facts_checked(d2, seq![granted_by->0]), option);
        lemma_errors(d2, seq![granted_by->0]);
    }
}

proof fn lemma_errors(d: StateData, facts: Seq<RoleFact>)
    ensures
        facts_resolved(d, facts) is Err ==> !(facts_resolved(d, facts)->Err_0 is Applied),
{
    reveal(facts_resolved);
}

/// What a change of object privileges does to a relation.
proof fn lemma_objects_changed(d: StateData, target: ResolvedGrantTarget, explicit: bool, c: PrivilegeChangeView, id: ObjectIdView)
    requires
        objects_changed(d, target, explicit, c).1 is Applied,
        !(target is Roles),
    ensures
        ({
            let e = objects_changed(d, target, explicit, c).0;
            &&& relation_is_right(at(d.relations, id), at(e.relations, id), c, reaches(target, id))
            &&& e == (StateData { relations: e.relations, evidence: e.evidence, confidence: e.confidence, ..d })
        }),
{
    lemma_gap_only(d, explicit && (c.grantor is None || !d.current_role_known));
    let d1 = grantor_checked(d, explicit, c.grantor).0;
    match target {
        ResolvedGrantTarget::Tables(ids) => {
            lemma_tables_changed(d1, ids.deep_view(), c, id);
        },
        ResolvedGrantTarget::AllTablesInSchema(schemas) => {
            let names = schemas.deep_view();
            lemma_gap_only(d1, true);
            reveal(tainted_if);
            if at(d1.relations, id) is Some {
                lemma_rows_right(at(d1.relations, id)->0.privileges.grants, c);
            }
        },
        _ => {},
    }
}

/// Whether a statement is about a relation.
pub open spec fn reaches(target: ResolvedGrantTarget, id: ObjectIdView) -> bool {
    match target {
        ResolvedGrantTarget::Tables(ids) => ids.deep_view().contains(id),
        ResolvedGrantTarget::AllTablesInSchema(schemas) => schemas.deep_view().contains(id.schema),
        _ => false,
    }
}

/// `GRANT` on tables gives each role that is named each privilege that is named
/// on each table that is named, with the grant option where that is written. It
/// takes nothing from anyone, gives nothing to anyone else, and leaves other
/// tables alone.
pub proof fn law_grant_gives(
    s: AnalysisStateView,
    grant: GrantMutation,
    c: Option<CascadeView>,
    t: AnalysisStateView,
    r: MutationResultView,
    id: ObjectIdView,
    role: ObjectIdView,
    p: Privilege,
    k: int,
    j: int,
)
    requires
        applied(s, Mutation::Grant(grant), c, t, r),
        r is Applied,
        !(grant.target is Roles),
    ensures
        ({
            let before = at(s.data.relations, id);
            let after = at(t.data.relations, id);
            let rows = after->0.privileges.grants;
            let grantor = grantor_meant(s.data, grant.granted_by);
            &&& before is Some && reaches(grant.target, id) ==> {
                &&& after is Some
                &&& after->0 == (RelationStateView { privileges: after->0.privileges, ..before->0 })
                &&& names_role(s.data, grant.grantees@, role) && names_privilege(s.data, grant.privileges, p) ==> holds(
                    rows,
                    PrivilegeGrantView { grantee: role, privilege: p, grantor, grant_option: grant.with_grant_option },
                )
                &&& 0 <= j < before->0.privileges.grants.len() ==> holds(rows, before->0.privileges.grants[j])
                &&& 0 <= k < rows.len() ==> before->0.privileges.grants.contains(rows[k]) || (names_role(s.data, grant.grantees@, rows[k].grantee)
                    && names_privilege(s.data, grant.privileges, rows[k].privilege) && rows[k].grantor == grantor)
            }
            &&& !(before is Some && reaches(grant.target, id)) ==> after == before
        }),
        t.data.roles == s.data.roles,
        t.data.graph == s.data.graph,
{
    lemma_on_others(s, Mutation::Grant(grant), c, t, r);
    reveal(other_effect);
    let d = s.data;
    lemma_prelude(d, grant.target, grant.grantees@, grant.granted_by, grant.with_grant_option);
    let (d1, checked) = grant_prelude(d, grant.target, grant.grantees@, grant.granted_by, grant.with_grant_option);
    let roles = checked->Ok_0;
    let change = grant_change(d1, grant, roles);
    lemma_objects_changed(d1, grant.target, grant.granted_by is Some, change, id);
    lemma_roles_named(d, grant.grantees@, role);
    lemma_named(d1, grant.privileges, p);
    let rows = at(t.data.relations, id)->0.privileges.grants;
    if at(d.relations, id) is Some && reaches(grant.target, id) {
        let old_rows = at(d.relations, id)->0.privileges.grants;
        if 0 <= j < old_rows.len() {
            assert(is_as_good(old_rows[j], old_rows[j]));
            assert(holds(old_rows, old_rows[j]));
        }
        if 0 <= k < rows.len() {
            lemma_roles_named(d, grant.grantees@, rows[k].grantee);
            lemma_named(d1, grant.privileges, rows[k].privilege);
        }
        if names_role(d, grant.grantees@, role) && names_privilege(d, grant.privileges, p) {
            assert(holds(rows, PrivilegeGrantView { grantee: role, privilege: p, grantor: change.grantor, grant_option: grant.with_grant_option }));
        }
    }
}

/// `REVOKE` on tables leaves none of the named roles a named privilege on a named
/// table, as far as the grantor gave it. It gives nothing to anyone. Without
/// `CASCADE` all other grants stay; with it none stays that a revokee made.
pub proof fn law_revoke_takes(
    s: AnalysisStateView,
    revoke: RevokeMutation,
    c: Option<CascadeView>,
    t: AnalysisStateView,
    r: MutationResultView,
    id: ObjectIdView,
    k: int,
    j: int,
)
    requires
        applied(s, Mutation::Revoke(revoke), c, t, r),
        r is Applied,
        !(revoke.target is Roles),
        !revoke.grant_option_only,
    ensures
        ({
            let before = at(s.data.relations, id);
            let after = at(t.data.relations, id);
            let rows = after->0.privileges.grants;
            let old_rows = before->0.privileges.grants;
            let grantor = grantor_meant(s.data, revoke.granted_by);
            &&& before is Some && reaches(revoke.target, id) ==> {
                &&& after is Some
                &&& after->0 == (RelationStateView { privileges: after->0.privileges, ..before->0 })
                &&& 0 <= k < rows.len() ==> old_rows.contains(rows[k]) && !(names_role(s.data, revoke.revokees@, rows[k].grantee) && names_privilege(
                    s.data,
                    revoke.privileges,
                    rows[k].privilege,
                ) && (grantor is None || rows[k].grantor == grantor))
                &&& revoke.cascade && 0 <= k < rows.len() && names_privilege(s.data, revoke.privileges, rows[k].privilege) ==> rows[k].grantor is None
                    || !names_role(s.data, revoke.revokees@, rows[k].grantor->0)
                &&& 0 <= j < old_rows.len() && !(names_role(s.data, revoke.revokees@, old_rows[j].grantee) && names_privilege(
                    s.data,
                    revoke.privileges,
                    old_rows[j].privilege,
                ) && (grantor is None || old_rows[j].grantor == grantor)) && (!revoke.cascade || !names_privilege(
                    s.data,
                    revoke.privileges,
                    old_rows[j].privilege,
                )) ==> rows.contains(old_rows[j])
            }
            &&& !(before is Some && reaches(revoke.target, id)) ==> after == before
        }),
        t.data.roles == s.data.roles,
        t.data.graph == s.data.graph,
{
    lemma_on_others(s, Mutation::Revoke(revoke), c, t, r);
    reveal(other_effect);
    let d = s.data;
    lemma_prelude(d, revoke.target, revoke.revokees@, revoke.granted_by, revoke.grant_option_only);
    let (d1, checked) = grant_prelude(d, revoke.target, revoke.revokees@, revoke.granted_by, revoke.grant_option_only);
    let roles = checked->Ok_0;
    let change = revoke_change(d1, revoke, roles);
    lemma_objects_changed(d1, revoke.target, revoke.granted_by is Some, change, id);
    let rows = at(t.data.relations, id)->0.privileges.grants;
    let old_rows = at(d.relations, id)->0.privileges.grants;
    if at(d.relations, id) is Some && reaches(revoke.target, id) {
        if 0 <= k < rows.len() {
            lemma_roles_named(d, revoke.revokees@, rows[k].grantee);
            lemma_named(d1, revoke.privileges, rows[k].privilege);
            if rows[k].grantor is Some {
                lemma_roles_named(d, revoke.revokees@, rows[k].grantor->0);
            }
        }
        if 0 <= j < old_rows.len() {
            lemma_roles_named(d, revoke.revokees@, old_rows[j].grantee);
            lemma_named(d1, revoke.privileges, old_rows[j].privilege);
        }
    }
}

/// `REVOKE GRANT OPTION FOR` takes the grant option from what it names, and
/// leaves every privilege in place.
pub proof fn law_grant_option_is_taken(
    s: AnalysisStateView,
    revoke: RevokeMutation,
    c: Option<CascadeView>,
    t: AnalysisStateView,
    r: MutationResultView,
    id: ObjectIdView,
    k: int,
)
    requires
        applied(s, Mutation::Revoke(revoke), c, t, r),
        r is Applied,
        !(revoke.target is Roles),
        revoke.grant_option_only,
    ensures
        ({
            let before = at(s.data.relations, id);
            let after = at(t.data.relations, id);
            let rows = after->0.privileges.grants;
            let old_rows = before->0.privileges.grants;
            let grantor = grantor_meant(s.data, revoke.granted_by);
            &&& before is Some && reaches(revoke.target, id) ==> {
                &&& after is Some
                &&& rows.len() == old_rows.len()
                &&& 0 <= k < rows.len() ==> rows[k] == (if names_role(s.data, revoke.revokees@, old_rows[k].grantee) && names_privilege(
                    s.data,
                    revoke.privileges,
                    old_rows[k].privilege,
                ) && (grantor is None || old_rows[k].grantor == grantor) {
                    PrivilegeGrantView { grant_option: false, ..old_rows[k] }
                } else {
                    old_rows[k]
                })
            }
            &&& !(before is Some && reaches(revoke.target, id)) ==> after == before
        }),
{
    lemma_on_others(s, Mutation::Revoke(revoke), c, t, r);
    reveal(other_effect);
    let d = s.data;
    lemma_prelude(d, revoke.target, revoke.revokees@, revoke.granted_by, revoke.grant_option_only);
    let (d1, checked) = grant_prelude(d, revoke.target, revoke.revokees@, revoke.granted_by, revoke.grant_option_only);
    let roles = checked->Ok_0;
    let change = revoke_change(d1, revoke, roles);
    lemma_objects_changed(d1, revoke.target, revoke.granted_by is Some, change, id);
    let old_rows = at(d.relations, id)->0.privileges.grants;
    if at(d.relations, id) is Some && reaches(revoke.target, id) && 0 <= k < old_rows.len() {
        lemma_roles_named(d, revoke.revokees@, old_rows[k].grantee);
        lemma_named(d1, revoke.privileges, old_rows[k].privilege);
    }
}

} // verus!
