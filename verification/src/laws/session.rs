//! The session: its search path, its timeouts, its roles.
use crate::cache::CatalogFamily;
use crate::facts::{ResetSettingTarget, RoleFact, SearchPathTarget, TimeoutSetting, TimeoutSettingValue};
use crate::identifiers::ObjectIdView;
use crate::laws::constraints::role_meant;
use crate::laws::{at, lemma_on_others, same_but};
use crate::model::role::RoleStateView;
use crate::mutations::{AlterRoleMutation, CreateRoleMutation, DropRoleMutation, Mutation, SearchPathChange, TimeoutSettingChange};
use crate::settings::ScopedSetting;
use crate::state::apply::{applied, other_effect};
use crate::state::apply_role::{existing_roles, first_stop};
use crate::state::cascade::CascadeView;
use crate::state::journal::tainted_if;
use crate::state::lookup::role_present;
use crate::state::search_path::{effective_path, entry_schema, refreshed, schema_is_usable};
use crate::state::{AnalysisStateView, MutationResultView, StateData};
use vstd::prelude::*;

verus! {

// ---------------------------------------------------------------------------
// The search path
// ---------------------------------------------------------------------------

/// Whether an entry of the template means a schema: `$user` means the one that
/// bears the name of the current role.
pub open spec fn means(d: StateData, entry: Seq<char>, schema: Seq<char>) -> bool {
    if entry == "$user"@ {
        d.current_role_known && schema == d.current_role
    } else {
        schema == entry
    }
}

/// Whether a schema is known not to exist.
pub open spec fn is_known_absent(d: StateData, schema: Seq<char>) -> bool {
    at(d.schemas, schema) is None && (d.schemas.dom().contains(schema) || (d.baseline_available && d.baseline_coverage.families.contains(
        CatalogFamily::Schemas,
    ) && (d.baseline_schemas is None || d.baseline_schemas->0.contains(schema))))
}

/// Whether the path is what its template means: the schemas that the entries
/// mean and that are not known to be absent, each once, in the order in which
/// they are first meant.
pub open spec fn path_follows_template(d: StateData) -> bool {
    &&& d.search_path.no_duplicates()
    &&& forall|a: int, schema: Seq<char>|
        0 <= a < d.search_path_template.len() && #[trigger] means(d, d.search_path_template[a], schema) && !is_known_absent(d, schema)
            ==> d.search_path.contains(schema)
    &&& forall|i: int| 0 <= i < d.search_path.len() ==> is_meant(d, d.search_path_template.len() as int, #[trigger] d.search_path[i]) && !is_known_absent(d, d.search_path[i])
    &&& forall|i: int, j: int|
        0 <= i < j < d.search_path.len() ==> is_meant_before(
            d,
            d.search_path_template.len() as int,
            #[trigger] d.search_path[i],
            #[trigger] d.search_path[j],
        )
}

/// Whether one of the first `n` entries means a schema.
pub open spec fn is_meant(d: StateData, n: int, schema: Seq<char>) -> bool {
    exists|a: int| 0 <= a < n && #[trigger] means(d, d.search_path_template[a], schema)
}

/// Whether a schema is meant before another one is.
pub open spec fn is_meant_before(d: StateData, n: int, first: Seq<char>, second: Seq<char>) -> bool {
    exists|a: int|
        0 <= a < n && #[trigger] means(d, d.search_path_template[a], first) && forall|b: int|
            0 <= b < n && #[trigger] means(d, d.search_path_template[b], second) ==> a < b
}

proof fn lemma_path(d: StateData, n: nat)
    requires
        n <= d.search_path_template.len(),
    ensures
        ({
            let path = effective_path(d, n);
            &&& path.no_duplicates()
            &&& forall|a: int, schema: Seq<char>|
                0 <= a < n && #[trigger] means(d, d.search_path_template[a], schema) && !is_known_absent(d, schema) ==> path.contains(schema)
            &&& forall|i: int| 0 <= i < path.len() ==> is_meant(d, n as int, #[trigger] path[i]) && !is_known_absent(d, path[i])
            &&& forall|i: int, j: int| 0 <= i < j < path.len() ==> is_meant_before(d, n as int, #[trigger] path[i], #[trigger] path[j])
        }),
    decreases n,
{
    if n > 0 {
        let m = (n - 1) as nat;
        lemma_path(d, m);
        let rest = effective_path(d, m);
        let path = effective_path(d, n);
        let entry = d.search_path_template[n - 1];
        assert forall|schema: Seq<char>| means(d, entry, schema) == (entry_schema(d, entry) == Some(schema)) by {}
        assert forall|schema: Seq<char>| is_known_absent(d, schema) == !schema_is_usable(d, schema) by {}
        assert forall|x: Seq<char>| rest.contains(x) implies path.contains(x) by {
            let i = choose|i: int| 0 <= i < rest.len() && rest[i] == x;
            assert(path[i] == x);
        }
        assert forall|a: int, schema: Seq<char>|
            0 <= a < n && #[trigger] means(d, d.search_path_template[a], schema) && !is_known_absent(d, schema) implies path.contains(schema) by {
            if a == n - 1 && !rest.contains(schema) {
                assert(path[rest.len() as int] == schema);
            }
        }
        assert forall|i: int| 0 <= i < path.len() implies is_meant(d, n as int, #[trigger] path[i]) && !is_known_absent(d, path[i]) by {
            if i < rest.len() {
                assert(path[i] == rest[i]);
                assert(is_meant(d, m as int, rest[i]));
            } else {
                assert(means(d, d.search_path_template[n - 1], path[i]));
            }
        }
        assert forall|i: int, j: int| 0 <= i < j < path.len() implies is_meant_before(d, n as int, #[trigger] path[i], #[trigger] path[j]) by {
            assert(path[i] == rest[i]);
            if j < rest.len() {
                assert(path[j] == rest[j]);
                assert(is_meant_before(d, m as int, rest[i], rest[j]));
                let a = choose|a: int|
                    0 <= a < m && #[trigger] means(d, d.search_path_template[a], rest[i]) && forall|b: int|
                        0 <= b < m && #[trigger] means(d, d.search_path_template[b], rest[j]) ==> a < b;
                assert(means(d, d.search_path_template[a], path[i]));
            } else {
                assert(is_meant(d, m as int, rest[i]));
                let a = choose|a: int| 0 <= a < m && #[trigger] means(d, d.search_path_template[a], rest[i]);
                assert(means(d, d.search_path_template[a], path[i]));
                assert forall|b: int| 0 <= b < n && #[trigger] means(d, d.search_path_template[b], path[j]) implies a < b by {
                    if b < m {
                        assert(rest.contains(path[j]));
                    }
                }
            }
        }
    }
}

proof fn lemma_template_reads_same(d: StateData, e: StateData)
    requires
        e.search_path_template == d.search_path_template,
        e.schemas == d.schemas,
        e.baseline_available == d.baseline_available,
        e.baseline_coverage == d.baseline_coverage,
        e.baseline_schemas == d.baseline_schemas,
        e.current_role == d.current_role,
        e.current_role_known == d.current_role_known,
    ensures
        forall|a: int, schema: Seq<char>| means(d, d.search_path_template[a], schema) == #[trigger] means(e, e.search_path_template[a], schema),
        forall|schema: Seq<char>| is_known_absent(d, schema) == #[trigger] is_known_absent(e, schema),
        forall|n: int, schema: Seq<char>| is_meant(d, n, schema) ==> #[trigger] is_meant(e, n, schema),
        forall|n: int, first: Seq<char>, second: Seq<char>| is_meant_before(d, n, first, second) ==> #[trigger] is_meant_before(e, n, first, second),
{
    assert forall|n: int, schema: Seq<char>| is_meant(d, n, schema) implies #[trigger] is_meant(e, n, schema) by {
        let a = choose|a: int| 0 <= a < n && #[trigger] means(d, d.search_path_template[a], schema);
        assert(means(e, e.search_path_template[a], schema));
    }
    assert forall|n: int, first: Seq<char>, second: Seq<char>| is_meant_before(d, n, first, second) implies #[trigger] is_meant_before(e, n, first, second) by {
        let a = choose|a: int|
            0 <= a < n && #[trigger] means(d, d.search_path_template[a], first) && forall|b: int|
                0 <= b < n && #[trigger] means(d, d.search_path_template[b], second) ==> a < b;
        assert(means(e, e.search_path_template[a], first));
        assert forall|b: int| 0 <= b < n && #[trigger] means(e, e.search_path_template[b], second) implies a < b by {
            assert(means(d, d.search_path_template[b], second));
        }
    }
}

/// What computing the path anew gives: nothing but the path and the evidence
/// differs, and the path follows its template.
pub(crate) proof fn lemma_refreshed(d: StateData)
    ensures
        ({
            let e = refreshed(d);
            &&& e == (StateData { search_path: e.search_path, evidence: e.evidence, confidence: e.confidence, ..d })
            &&& path_follows_template(e)
        }),
{
    reveal(refreshed);
    reveal(tainted_if);
    let n = d.search_path_template.len();
    let e = refreshed(d);
    lemma_path(d, n);
    assert(e.search_path == effective_path(d, n));
    lemma_template_reads_same(d, e);
    assert forall|a: int, schema: Seq<char>|
        0 <= a < e.search_path_template.len() && #[trigger] means(e, e.search_path_template[a], schema) && !is_known_absent(e, schema) implies e.search_path.contains(
        schema,
    ) by {
        assert(means(d, d.search_path_template[a], schema));
    }
}

/// `SET search_path` puts the path into force that is written, or the default
/// one. A local change needs a transaction and leaves what the session keeps;
/// any other is kept by the session.
pub proof fn law_search_path_is_set(s: AnalysisStateView, change: SearchPathChange, c: Option<CascadeView>, t: AnalysisStateView, r: MutationResultView)
    requires
        applied(s, Mutation::SearchPath(change), c, t, r),
        !s.aborted,
    ensures
        change.local && s.frames.len() == 0 ==> r is Skipped && t.data == s.data,
        !(change.local && s.frames.len() == 0) ==> r is Applied && path_follows_template(t.data) && t.data.search_path_template == (match change.target {
            SearchPathTarget::Schemas(schemas) => schemas.deep_view(),
            SearchPathTarget::Default => s.data.default_search_path_template,
        }),
        change.local ==> t.data.session_search_path_template == s.data.session_search_path_template,
        !change.local ==> t.data.session_search_path_template == t.data.search_path_template,
        t.data == (StateData {
            search_path: t.data.search_path,
            search_path_template: t.data.search_path_template,
            session_search_path_template: t.data.session_search_path_template,
            evidence: t.data.evidence,
            confidence: t.data.confidence,
            ..s.data
        }),
{
    lemma_on_others(s, Mutation::SearchPath(change), c, t, r);
    reveal(other_effect);
    let template = crate::state::apply_settings::path_template(s.data, change.target);
    lemma_refreshed(
        StateData {
            search_path_template: template,
            session_search_path_template: if change.local {
                s.data.session_search_path_template
            } else {
                template
            },
            ..s.data
        },
    );
}

// ---------------------------------------------------------------------------
// Timeouts
// ---------------------------------------------------------------------------

/// A timeout of the session.
pub open spec fn timeout(d: StateData, setting: TimeoutSetting) -> ScopedSetting<Option<u64>> {
    match setting {
        TimeoutSetting::Lock => d.lock_timeout,
        TimeoutSetting::Statement => d.statement_timeout,
    }
}

/// `SET lock_timeout` and `SET statement_timeout` put the value that is written
/// into force, and leave the other timeout alone. A local change needs a
/// transaction and leaves what the session keeps. A value that is no timeout is
/// a conflict that changes nothing.
pub proof fn law_timeout_is_set(s: AnalysisStateView, change: TimeoutSettingChange, c: Option<CascadeView>, t: AnalysisStateView, r: MutationResultView, other: TimeoutSetting)
    requires
        applied(s, Mutation::TimeoutSetting(change), c, t, r),
        !s.aborted,
    ensures
        t.data == (StateData { lock_timeout: t.data.lock_timeout, statement_timeout: t.data.statement_timeout, ..s.data }),
        other != change.setting ==> timeout(t.data, other) == timeout(s.data, other),
        timeout(t.data, change.setting).default == timeout(s.data, change.setting).default,
        change.local && s.frames.len() == 0 ==> r is Skipped && t.data == s.data,
        !(change.local && s.frames.len() == 0) ==> match change.value {
            TimeoutSettingValue::Invalid(_) => r is Conflict && t.data == s.data,
            TimeoutSettingValue::Milliseconds(ms) => r is Applied && timeout(t.data, change.setting).effective == Some(ms),
            TimeoutSettingValue::Default => r is Applied && timeout(t.data, change.setting).effective == timeout(s.data, change.setting).default,
            TimeoutSettingValue::Current => r is Applied && timeout(t.data, change.setting).effective == timeout(s.data, change.setting).effective,
        },
        change.local ==> timeout(t.data, change.setting).session == timeout(s.data, change.setting).session,
        !change.local && r is Applied ==> timeout(t.data, change.setting).session == timeout(t.data, change.setting).effective,
{
    lemma_on_others(s, Mutation::TimeoutSetting(change), c, t, r);
    reveal(other_effect);
}

/// `RESET` gives the named settings their defaults, for the session too, and
/// leaves the others alone.
pub proof fn law_settings_are_reset(s: AnalysisStateView, target: ResetSettingTarget, c: Option<CascadeView>, t: AnalysisStateView, r: MutationResultView, setting: TimeoutSetting)
    requires
        applied(s, Mutation::ResetSettings(target), c, t, r),
        !s.aborted,
    ensures
        r is Applied,
        ({
            let named = target is All || (target is LockTimeout && setting is Lock) || (target is StatementTimeout && setting is Statement);
            let before = timeout(s.data, setting);
            let after = timeout(t.data, setting);
            &&& named ==> after.effective == before.default && after.session == before.default && after.default == before.default
            &&& !named ==> after == before
        }),
        target is All || target is SearchPath ==> t.data.search_path_template == s.data.default_search_path_template
            && t.data.session_search_path_template == s.data.default_search_path_template && path_follows_template(t.data),
        !(target is All || target is SearchPath) ==> t.data.search_path_template == s.data.search_path_template && t.data.search_path
            == s.data.search_path && t.data.session_search_path_template == s.data.session_search_path_template,
        t.data.relations == s.data.relations,
        t.data.graph == s.data.graph,
        t.data.current_role == s.data.current_role,
{
    lemma_on_others(s, Mutation::ResetSettings(target), c, t, r);
    reveal(other_effect);
    let d = StateData {
        search_path_template: s.data.default_search_path_template,
        session_search_path_template: s.data.default_search_path_template,
        ..s.data
    };
    lemma_refreshed(d);
    if target is All || target is SearchPath {
        lemma_template_reads_same(refreshed(d), t.data);
        assert forall|a: int, schema: Seq<char>|
            0 <= a < t.data.search_path_template.len() && #[trigger] means(t.data, t.data.search_path_template[a], schema) && !is_known_absent(
                t.data,
                schema,
            ) implies t.data.search_path.contains(schema) by {
            assert(means(refreshed(d), refreshed(d).search_path_template[a], schema));
        }
    }
}

// ---------------------------------------------------------------------------
// Roles
// ---------------------------------------------------------------------------

/// `SET ROLE` makes the role that is meant the current one, and `SET SESSION
/// AUTHORIZATION` makes it the session's too. `NONE` gives the session's role
/// back, `DEFAULT` the one that logged in. What is local leaves the roles that
/// outlive the transaction alone.
pub proof fn law_role_is_switched(
    s: AnalysisStateView,
    role: Option<RoleFact>,
    local: bool,
    is_session_auth: bool,
    c: Option<CascadeView>,
    t: AnalysisStateView,
    r: MutationResultView,
)
    requires
        applied(s, Mutation::SwitchRole { role, local, is_session_auth }, c, t, r),
        r is Applied,
    ensures
        local ==> s.frames.len() > 0,
        role is Some ==> role_meant(s.data, role->0) == Some(t.data.current_role),
        role is None && is_session_auth ==> t.data.current_role == s.data.authenticated_role,
        role is None && !is_session_auth ==> t.data.current_role == s.data.session_role,
        is_session_auth ==> t.data.session_role == t.data.current_role,
        !is_session_auth ==> t.data.session_role == s.data.session_role,
        t.data.authenticated_role == s.data.authenticated_role,
        local ==> t.data.persistent_current_role == s.data.persistent_current_role && t.data.persistent_session_role == s.data.persistent_session_role,
        !local && is_session_auth ==> t.data.persistent_session_role == t.data.current_role && t.data.persistent_current_role == t.data.current_role,
        !local && !is_session_auth ==> t.data.persistent_session_role == s.data.persistent_session_role && t.data.persistent_current_role == (if role is Some {
            t.data.current_role
        } else {
            s.data.persistent_session_role
        }),
        path_follows_template(t.data),
        t.data.search_path_template == s.data.search_path_template,
        t.data.relations == s.data.relations,
        t.data.roles == s.data.roles,
{
    lemma_on_others(s, Mutation::SwitchRole { role, local, is_session_auth }, c, t, r);
    reveal(other_effect);
    reveal(tainted_if);
    let d = s.data;
    let target = crate::state::apply_settings::switch_target(d, role, is_session_auth)->0;
    let allowed = crate::state::apply_settings::switch_allowed(d, role, target.0, is_session_auth);
    let d1 = tainted_if(d, allowed is None, crate::evidence::EvidenceCode::CatalogCoverageIncomplete, crate::evidence::EvidenceScope::Chain);
    lemma_refreshed(
        crate::state::journal::with_role_context(
            d1,
            crate::state::apply_settings::switched(d, target.0, target.1, role, local, is_session_auth),
        ),
    );
}

/// Where the role catalog is known, a role that does not exist is not switched
/// to, and a session that is no superuser acts as another session user only as
/// itself. A role that exists can be switched to by itself and by a superuser.
pub proof fn law_switch_is_allowed(
    s: AnalysisStateView,
    name: RoleFact,
    local: bool,
    is_session_auth: bool,
    c: Option<CascadeView>,
    t: AnalysisStateView,
    r: MutationResultView,
)
    requires
        applied(s, Mutation::SwitchRole { role: Some(name), local, is_session_auth }, c, t, r),
        !s.aborted,
        name is Named,
        s.data.roles_known,
        is_session_auth ==> s.data.authenticated_role_known,
        !is_session_auth ==> s.data.session_role_known,
        local ==> s.frames.len() > 0,
    ensures
        ({
            let target = role_meant(s.data, name)->0;
            let from = if is_session_auth {
                s.data.authenticated_role
            } else {
                s.data.session_role
            };
            let there = at(s.data.roles, ObjectIdView { schema: ""@, name: target });
            let own = at(s.data.roles, ObjectIdView { schema: ""@, name: from });
            &&& there is None ==> r is Conflict
            &&& there is Some && target == from ==> r is Applied
            &&& there is Some && own is Some && own->0.is_superuser ==> r is Applied
            &&& is_session_auth && target != from && !(own is Some && own->0.is_superuser) ==> r is Conflict
            &&& !(r is Applied) ==> t.data == s.data
        }),
{
    lemma_on_others(s, Mutation::SwitchRole { role: Some(name), local, is_session_auth }, c, t, r);
    reveal(other_effect);
}

/// `CREATE ROLE` makes a new role as it is written, that is no superuser and a
/// member of nothing.
pub proof fn law_role_is_created(s: AnalysisStateView, create: CreateRoleMutation, c: Option<CascadeView>, t: AnalysisStateView, r: MutationResultView)
    requires
        applied(s, Mutation::CreateRole(create), c, t, r),
        !s.aborted,
    ensures
        ({
            let id = ObjectIdView { schema: ""@, name: create.name@ };
            &&& r is Applied <==> at(s.data.roles, id) is None
            &&& !(r is Applied) ==> r is Conflict && t.data == s.data
            &&& r is Applied ==> {
                let role = at(t.data.roles, id);
                &&& role is Some
                &&& role->0.id == id
                &&& role->0.inherits == create.inherits
                &&& role->0.can_login == create.can_login
                &&& !role->0.is_superuser
                &&& role->0.member_of.len() == 0
                &&& role->0.can_administer_membership.len() == 0
                &&& role->0.can_inherit_from.len() == 0
                &&& role->0.can_set_role_to.len() == 0
            }
            &&& same_but(s.data.roles, t.data.roles, id)
            &&& t.data.relations == s.data.relations
            &&& t.data.graph == s.data.graph
        }),
{
    lemma_on_others(s, Mutation::CreateRole(create), c, t, r);
    reveal(other_effect);
    reveal(tainted_if);
}

/// `ALTER ROLE` changes of a role that it names whether it inherits, where that is
/// written, and nothing else.
pub proof fn law_role_is_altered(s: AnalysisStateView, alter: AlterRoleMutation, c: Option<CascadeView>, t: AnalysisStateView, r: MutationResultView)
    requires
        applied(s, Mutation::AlterRole(alter), c, t, r),
        r is Applied,
    ensures
        role_meant(s.data, alter.name) is Some,
        ({
            let id = ObjectIdView { schema: ""@, name: role_meant(s.data, alter.name)->0 };
            let before = at(s.data.roles, id);
            &&& before is Some
            &&& at(t.data.roles, id) == Some(
                RoleStateView {
                    inherits: if alter.inherits is Some {
                        alter.inherits->0
                    } else {
                        before->0.inherits
                    },
                    ..before->0
                },
            )
            &&& same_but(s.data.roles, t.data.roles, id)
            &&& t.data.relations == s.data.relations
        }),
{
    lemma_on_others(s, Mutation::AlterRole(alter), c, t, r);
    reveal(other_effect);
}

proof fn lemma_no_stop(d: StateData, names: Seq<Seq<char>>, if_exists: bool, from: nat, i: int)
    requires
        from <= i < names.len(),
        first_stop(d, names, if_exists, from) >= names.len(),
    ensures
        !crate::state::apply_role::drop_stops_at(d, names[i], if_exists),
    decreases i - from,
{
    if from < i {
        lemma_no_stop(d, names, if_exists, from + 1, i);
    }
}

/// After `DROP ROLE` none of the roles is there, and every other role is as it
/// was. Without `IF EXISTS` each was there.
pub proof fn law_roles_are_dropped(s: AnalysisStateView, drop: DropRoleMutation, c: Option<CascadeView>, t: AnalysisStateView, r: MutationResultView, name: Seq<char>, other: ObjectIdView)
    requires
        applied(s, Mutation::DropRole(drop), c, t, r),
        r is Applied,
    ensures
        drop.names.deep_view().contains(name) ==> at(t.data.roles, ObjectIdView { schema: ""@, name }) is None,
        drop.names.deep_view().contains(name) && !drop.if_exists ==> at(s.data.roles, ObjectIdView { schema: ""@, name }) is Some,
        !(other.schema == ""@ && drop.names.deep_view().contains(other.name)) ==> at(t.data.roles, other) == at(s.data.roles, other),
        t.data == (StateData { roles: t.data.roles, ..s.data }),
{
    lemma_on_others(s, Mutation::DropRole(drop), c, t, r);
    reveal(other_effect);
    let d = s.data;
    let names = drop.names.deep_view();
    let p = |n: Seq<char>| role_present(d, n);
    let found = existing_roles(d, names);
    crate::collections::lemma_filtered(names, p);
    if names.contains(name) {
        let i = choose|i: int| 0 <= i < names.len() && names[i] == name;
        lemma_no_stop(d, names, drop.if_exists, 0, i);
        if role_present(d, name) {
            assert(names.filter(p).contains(name));
            let k = choose|k: int| 0 <= k < names.filter(p).len() && names.filter(p)[k] == name;
            assert(found[k] == crate::identifiers::role_object(name));
        }
    }
    if found.contains(other) {
        let k = choose|k: int| 0 <= k < found.len() && found[k] == other;
        assert(names.filter(p).contains(names.filter(p)[k]));
        assert(names.contains(other.name));
    }
}

} // verus!
