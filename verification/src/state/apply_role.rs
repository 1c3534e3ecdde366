//! Roles, and the checks that grants and revokes share.
use crate::collections::{with_each, Dup};
use crate::evidence::{EvidenceCode, EvidenceScope};
use crate::facts::RoleFact;
use crate::identifiers::{role_object, ObjectId, ObjectIdView};
use crate::model::role::{RoleState, RoleStateView};
use crate::model::Overlay;
use crate::mutations::{AlterRoleMutation, CreateRoleMutation, DropRoleMutation, ResolvedGrantTarget};
use crate::state::authority::named_role;
use crate::state::journal::{group_kept, kept, tainted, tainted_if};
use crate::state::lookup::{
    conflict,
    conflict_with,
    present,
    relation_target_checked,
    role_identity,
    role_lookup,
    role_present,
    schema_target_checked,
    state_of,
    RelationFilter,
};
use crate::state::{data_of, AnalysisState, MutationResult, MutationResultView, ObjectLookup, StateData};
use crate::text::{ascii_lowercase, eq_ignore_ascii_case, join3};
use vstd::prelude::*;

verus! {

broadcast use group_kept;

pub open spec fn role_missing(name: Seq<char>) -> MutationResultView {
    conflict("role '"@ + name + "' does not exist"@)
}

pub open spec fn new_role(name: Seq<char>, inherits: bool, can_login: bool) -> RoleStateView {
    RoleStateView {
        id: role_object(name),
        can_login,
        is_superuser: false,
        inherits,
        member_of: Seq::empty(),
        can_administer_membership: Seq::empty(),
        can_inherit_from: Seq::empty(),
        can_set_role_to: Seq::empty(),
    }
}

/// `CREATE ROLE`.
pub open spec fn role_created(d: StateData, name: Seq<char>, inherits: bool, can_login: bool) -> (StateData, MutationResultView) {
    let lookup = role_lookup(d, role_object(name));
    if lookup == ObjectLookup::Present {
        (d, conflict("role '"@ + name + "' already exists"@))
    } else {
        let d1 = tainted_if(d, lookup == ObjectLookup::Unknown, EvidenceCode::UnknownObjectState, EvidenceScope::Chain);
        (
            StateData {
                roles: d.roles.insert(role_object(name), Overlay::Present(new_role(name, inherits, can_login))),
                generation_counter: (d.generation_counter + 1) as u64,
                ..d1
            },
            MutationResultView::Applied,
        )
    }
}

/// `ALTER ROLE`.
pub open spec fn role_altered(d: StateData, role: RoleFact, inherits: Option<bool>) -> (StateData, MutationResultView) {
    match named_role(role, d.current_role, d.session_role) {
        None => (d, MutationResultView::Skipped),
        Some(id) => match role_lookup(d, id) {
            ObjectLookup::Present => (
                StateData {
                    roles: match inherits {
                        Some(b) => d.roles.insert(id, Overlay::Present(RoleStateView { inherits: b, ..state_of(d.roles, id) })),
                        None => d.roles,
                    },
                    generation_counter: (d.generation_counter + 1) as u64,
                    ..d
                },
                MutationResultView::Applied,
            ),
            ObjectLookup::Unknown => (tainted(d, EvidenceCode::UnknownObjectState, EvidenceScope::Chain), MutationResultView::Skipped),
            _ => (d, role_missing(id.name)),
        },
    }
}

/// Whether `DROP ROLE` stops at a name.
pub open spec fn drop_stops_at(d: StateData, name: Seq<char>, if_exists: bool) -> bool {
    let lookup = role_lookup(d, role_object(name));
    lookup == ObjectLookup::Unknown || (lookup != ObjectLookup::Present && !if_exists)
}

/// The first name from `i` on that `DROP ROLE` stops at, or the end.
pub open spec fn first_stop(d: StateData, names: Seq<Seq<char>>, if_exists: bool, i: nat) -> nat
    decreases names.len() - i,
{
    if i >= names.len() || drop_stops_at(d, names[i as int], if_exists) {
        i
    } else {
        first_stop(d, names, if_exists, i + 1)
    }
}

/// The identities of the named roles that exist.
pub open spec fn existing_roles(d: StateData, names: Seq<Seq<char>>) -> Seq<ObjectIdView> {
    names.filter(|n: Seq<char>| role_present(d, n)).map_values(|n: Seq<char>| role_object(n))
}

/// `DROP ROLE`. What depends on a role is not modeled, so that with a complete
/// role catalog the drop is left open.
pub open spec fn roles_dropped(d: StateData, names: Seq<Seq<char>>, if_exists: bool) -> (StateData, MutationResultView) {
    let stop = first_stop(d, names, if_exists, 0);
    if stop < names.len() {
        if role_lookup(d, role_object(names[stop as int])) == ObjectLookup::Unknown {
            (tainted(d, EvidenceCode::UnknownObjectState, EvidenceScope::Chain), MutationResultView::Skipped)
        } else {
            (d, role_missing(names[stop as int]))
        }
    } else if d.roles_known && existing_roles(d, names).len() > 0 {
        (tainted(d, EvidenceCode::UnmodeledState, EvidenceScope::Chain), MutationResultView::Skipped)
    } else {
        (StateData { roles: with_each(d.roles, existing_roles(d, names), Overlay::Dropped), ..d }, MutationResultView::Applied)
    }
}

pub open spec fn grant_relation_missing(id: ObjectIdView) -> Seq<char> {
    "grant target relation '"@ + id.shown() + "' does not exist"@
}

pub open spec fn grant_relation_wrong(id: ObjectIdView) -> Seq<char> {
    "grant target '"@ + id.shown() + "' is not grantable"@
}

pub open spec fn role_target_checked(d: StateData, id: ObjectIdView) -> (StateData, Option<MutationResultView>) {
    match role_lookup(d, id) {
        ObjectLookup::Present => (d, None),
        ObjectLookup::Unknown => (
            tainted(d, EvidenceCode::UnknownObjectState, EvidenceScope::Chain),
            Some(MutationResultView::Skipped),
        ),
        _ => (d, Some(role_missing(id.name))),
    }
}

/// What checking one target of a grant leads to.
pub open spec fn grant_target_checked(d: StateData, target: ResolvedGrantTarget, i: int) -> (StateData, Option<MutationResultView>) {
    match target {
        ResolvedGrantTarget::Tables(ids) => {
            let id = ids.deep_view()[i];
            relation_target_checked(d, id, RelationFilter::Any, grant_relation_missing(id), grant_relation_wrong(id))
        },
        ResolvedGrantTarget::AllTablesInSchema(schemas) => schema_target_checked(d, schemas.deep_view()[i]),
        ResolvedGrantTarget::Roles(roles) => role_target_checked(d, roles.deep_view()[i]),
    }
}

pub open spec fn target_count(target: ResolvedGrantTarget) -> nat {
    match target {
        ResolvedGrantTarget::Tables(ids) => ids@.len(),
        ResolvedGrantTarget::AllTablesInSchema(schemas) => schemas@.len(),
        ResolvedGrantTarget::Roles(roles) => roles@.len(),
    }
}

/// What checking the targets from `i` on leads to: the first bad one decides.
pub open spec fn grant_targets_checked(d: StateData, target: ResolvedGrantTarget, i: nat) -> (StateData, Option<MutationResultView>)
    decreases target_count(target) - i,
{
    if i >= target_count(target) {
        (d, None)
    } else if grant_target_checked(d, target, i as int).1 is Some {
        grant_target_checked(d, target, i as int)
    } else {
        grant_targets_checked(d, target, i + 1)
    }
}

/// What a role fact of a grant denotes.
pub enum RoleReference {
    /// The fact names no role.
    Unresolved,
    /// The role does not exist.
    Missing(Seq<char>),
    /// The role exists, or is the pseudo-role `public`.
    Known(ObjectIdView),
    /// The role catalog does not say.
    Uncertain(ObjectIdView),
}

pub open spec fn role_reference(d: StateData, fact: RoleFact) -> RoleReference {
    match role_identity(d, fact) {
        None => RoleReference::Unresolved,
        Some(identity) => if ascii_lowercase(identity.0) == "public"@ {
            RoleReference::Known(role_object("public"@))
        } else {
            match role_lookup(d, role_object(identity.0)) {
                ObjectLookup::Present => RoleReference::Known(role_object(identity.0)),
                ObjectLookup::Unknown => RoleReference::Uncertain(role_object(identity.0)),
                _ => RoleReference::Missing(identity.0),
            }
        },
    }
}

pub open spec fn is_bad_reference(r: RoleReference) -> bool {
    r is Unresolved || r is Missing
}

pub open spec fn referenced_role(r: RoleReference) -> ObjectIdView {
    match r {
        RoleReference::Known(id) => id,
        RoleReference::Uncertain(id) => id,
        _ => role_object(""@),
    }
}

/// The first fact from `i` on that denotes no role, or the end.
pub open spec fn first_bad_reference(d: StateData, facts: Seq<RoleFact>, i: nat) -> nat
    decreases facts.len() - i,
{
    if i >= facts.len() || is_bad_reference(role_reference(d, facts[i as int])) {
        i
    } else {
        first_bad_reference(d, facts, i + 1)
    }
}

pub open spec fn uncertain_before(d: StateData, facts: Seq<RoleFact>, n: nat) -> bool {
    exists|i: int| 0 <= i < n && role_reference(d, #[trigger] facts[i]) is Uncertain
}

/// The roles that the first `n` facts denote.
pub open spec fn referenced_roles(d: StateData, facts: Seq<RoleFact>, n: nat) -> Seq<ObjectIdView> {
    Seq::new(n, |i: int| referenced_role(role_reference(d, facts[i])))
}

/// The data after role facts were checked: an uncertain role is a gap, and so
/// is a fact that names no role.
#[verifier::opaque]
pub open spec fn facts_checked(d: StateData, facts: Seq<RoleFact>) -> StateData {
    let stop = first_bad_reference(d, facts, 0);
    tainted_if(
        tainted_if(d, uncertain_before(d, facts, stop), EvidenceCode::CatalogCoverageIncomplete, EvidenceScope::Chain),
        stop < facts.len() && role_reference(d, facts[stop as int]) is Unresolved,
        EvidenceCode::UnresolvedReference,
        EvidenceScope::Chain,
    )
}

/// The roles that facts denote, or what a bad fact leads to.
#[verifier::opaque]
pub open spec fn facts_resolved(d: StateData, facts: Seq<RoleFact>) -> Result<Seq<ObjectIdView>, MutationResultView> {
    let stop = first_bad_reference(d, facts, 0);
    if stop >= facts.len() {
        Ok(referenced_roles(d, facts, facts.len()))
    } else {
        match role_reference(d, facts[stop as int]) {
            RoleReference::Missing(name) => Err(role_missing(name)),
            _ => Err(MutationResultView::Skipped),
        }
    }
}

/// A reference as verified code holds it.
pub enum FoundRole {
    Unresolved,
    Missing(String),
    Known(ObjectId),
    Uncertain(ObjectId),
}

impl FoundRole {
    pub open spec fn reference(self) -> RoleReference {
        match self {
            FoundRole::Unresolved => RoleReference::Unresolved,
            FoundRole::Missing(name) => RoleReference::Missing(name@),
            FoundRole::Known(id) => RoleReference::Known(id@),
            FoundRole::Uncertain(id) => RoleReference::Uncertain(id@),
        }
    }
}

impl AnalysisState {
    pub(crate) fn apply_create_role(&mut self, role: &CreateRoleMutation) -> (r: MutationResult)
        requires
            old(self)@.data.generation_counter < u64::MAX,
        ensures
            (final(self)@.data, r@) == role_created(old(self)@.data, role.name@, role.inherits, role.can_login),
            kept(old(self)@, final(self)@),
    {
        proof {
            reveal(tainted);
            reveal(tainted_if);
        }
        let id = ObjectId::new("", &role.name);
        let lookup = self.role_lookup(&id);
        if lookup == ObjectLookup::Present {
            return conflict_with(join3("role '", &role.name, "' already exists"));
        }
        self.taint_if(lookup == ObjectLookup::Unknown, EvidenceCode::UnknownObjectState, EvidenceScope::Chain);
        self.bump_generation();
        let state = RoleState {
            id: id.dup(),
            can_login: role.can_login,
            is_superuser: false,
            inherits: role.inherits,
            member_of: Vec::new(),
            can_administer_membership: Vec::new(),
            can_inherit_from: Vec::new(),
            can_set_role_to: Vec::new(),
        };
        assert(state@ =~= new_role(role.name@, role.inherits, role.can_login));
        self.put_role(&id, Overlay::Present(state));
        MutationResult::Applied
    }

    fn role_named_by(&self, role: &RoleFact) -> (r: Option<ObjectId>)
        ensures
            r.deep_view() == named_role(*role, self@.data.current_role, self@.data.session_role),
    {
        proof {
            reveal(data_of);
        }
        Self::resolve_role_name(role, &self.local.current_role, &self.local.session_role)
    }

    /// The state of a role that is present.
    pub(crate) fn role_state(&self, id: &ObjectId) -> (r: Option<&RoleState>)
        ensures
            match r {
                Some(role) => present(self@.data.roles, id@) && role@ == state_of(self@.data.roles, id@),
                None => !present(self@.data.roles, id@),
            },
    {
        proof {
            reveal(data_of);
        }
        match self.local.roles.get(id) {
            Some(Overlay::Present(role)) => Some(role),
            _ => None,
        }
    }

    pub(crate) fn apply_alter_role(&mut self, role: &AlterRoleMutation) -> (r: MutationResult)
        requires
            old(self)@.data.generation_counter < u64::MAX,
        ensures
            (final(self)@.data, r@) == role_altered(old(self)@.data, role.name, role.inherits),
            kept(old(self)@, final(self)@),
    {
        match self.role_named_by(&role.name) {
            None => MutationResult::Skipped,
            Some(id) => match self.role_lookup(&id) {
                ObjectLookup::Present => {
                    if let Some(inherits) = role.inherits {
                        if let Some(state) = self.role_state(&id) {
                            let mut state = state.dup();
                            state.inherits = inherits;
                            self.put_role(&id, Overlay::Present(state));
                        }
                    }
                    self.bump_generation();
                    MutationResult::Applied
                },
                ObjectLookup::Unknown => {
                    self.taint(EvidenceCode::UnknownObjectState, EvidenceScope::Chain);
                    MutationResult::Skipped
                },
                _ => conflict_with(join3("role '", &id.name, "' does not exist")),
            },
        }
    }

    pub(crate) fn apply_drop_role(&mut self, role: &DropRoleMutation) -> (r: MutationResult)
        ensures
            (final(self)@.data, r@) == roles_dropped(old(self)@.data, role.names.deep_view(), role.if_exists),
            kept(old(self)@, final(self)@),
    {
        let ghost d = self@.data;
        let ghost names = role.names.deep_view();
        let mut found: Vec<ObjectId> = Vec::new();
        let mut i: usize = 0;
        proof {
            reveal(Seq::filter);
            assert(names.take(0) =~= Seq::<Seq<char>>::empty());
            assert(found.deep_view() =~= existing_roles(d, names.take(0)));
        }
        while i < role.names.len()
            invariant
                i <= role.names.len(),
                names == role.names.deep_view(),
                d == self@.data,
                self@ == old(self)@,
                first_stop(d, names, role.if_exists, 0) == first_stop(d, names, role.if_exists, i as nat),
                found.deep_view() == existing_roles(d, names.take(i as int)),
            decreases role.names.len() - i,
        {
            let name = &role.names[i];
            let id = ObjectId::new("", name);
            let ghost before = found.deep_view();
            proof {
                assert(names[i as int] == name@);
                assert(names.take(i + 1).drop_last() =~= names.take(i as int));
                assert(names.take(i + 1).last() == name@);
                reveal(Seq::filter);
                let p = |n: Seq<char>| role_present(d, n);
                assert(existing_roles(d, names.take(i + 1)) =~= (if role_present(d, name@) {
                    before.push(role_object(name@))
                } else {
                    before
                }));
            }
            match self.role_lookup(&id) {
                ObjectLookup::Present => {
                    found.push(id);
                    assert(found.deep_view() =~= before.push(role_object(name@)));
                },
                ObjectLookup::Unknown => {
                    self.taint(EvidenceCode::UnknownObjectState, EvidenceScope::Chain);
                    return MutationResult::Skipped;
                },
                _ => {
                    if !role.if_exists {
                        return conflict_with(join3("role '", name, "' does not exist"));
                    }
                },
            }
            i = i + 1;
        }
        assert(names.take(names.len() as int) =~= names);
        if self.roles_are_known() && found.len() > 0 {
            self.taint(EvidenceCode::UnmodeledState, EvidenceScope::Chain);
            return MutationResult::Skipped;
        }
        self.drop_roles(&found);
        MutationResult::Applied
    }

    pub(crate) fn roles_are_known(&self) -> (r: bool)
        ensures
            r == self@.data.roles_known,
    {
        proof {
            reveal(data_of);
        }
        self.local.roles_known
    }

    fn validate_grant_target(&mut self, target: &ResolvedGrantTarget, i: usize) -> (r: Result<(), MutationResult>)
        requires
            i < target_count(*target),
        ensures
            ({
                let (data, outcome) = grant_target_checked(old(self)@.data, *target, i as int);
                &&& final(self)@.data == data
                &&& match r {
                    Ok(_) => outcome is None && final(self)@ == old(self)@,
                    Err(result) => outcome == Some(result@),
                }
            }),
            kept(old(self)@, final(self)@),
    {
        match target {
            ResolvedGrantTarget::Tables(ids) => {
                let id = &ids[i];
                assert(ids.deep_view()[i as int] == id@);
                let shown = id.show();
                let missing = join3("grant target relation '", &shown, "' does not exist");
                let wrong = join3("grant target '", &shown, "' is not grantable");
                self.ensure_relation_target(id, RelationFilter::Any, missing, wrong)
            },
            ResolvedGrantTarget::AllTablesInSchema(schemas) => {
                assert(schemas.deep_view()[i as int] == schemas@[i as int]@);
                self.ensure_schema_target(&schemas[i])
            },
            ResolvedGrantTarget::Roles(roles) => {
                let id = &roles[i];
                assert(roles.deep_view()[i as int] == id@);
                match self.role_lookup(id) {
                    ObjectLookup::Present => Ok(()),
                    ObjectLookup::Unknown => {
                        self.taint(EvidenceCode::UnknownObjectState, EvidenceScope::Chain);
                        Err(MutationResult::Skipped)
                    },
                    _ => Err(conflict_with(join3("role '", &id.name, "' does not exist"))),
                }
            },
        }
    }

    pub(crate) fn validate_grant_targets(&mut self, target: &ResolvedGrantTarget) -> (r: Result<(), MutationResult>)
        ensures
            ({
                let (data, outcome) = grant_targets_checked(old(self)@.data, *target, 0);
                &&& final(self)@.data == data
                &&& match r {
                    Ok(_) => outcome is None && final(self)@ == old(self)@,
                    Err(result) => outcome == Some(result@),
                }
            }),
            kept(old(self)@, final(self)@),
    {
        let n = match target {
            ResolvedGrantTarget::Tables(ids) => ids.len(),
            ResolvedGrantTarget::AllTablesInSchema(schemas) => schemas.len(),
            ResolvedGrantTarget::Roles(roles) => roles.len(),
        };
        let mut i: usize = 0;
        while i < n
            invariant
                i <= n,
                n == target_count(*target),
                self@ == old(self)@,
                grant_targets_checked(old(self)@.data, *target, 0) == grant_targets_checked(old(self)@.data, *target, i as nat),
            decreases n - i,
        {
            let checked = self.validate_grant_target(target, i);
            if checked.is_err() {
                return checked;
            }
            i = i + 1;
        }
        Ok(())
    }

    pub(crate) fn find_role(&self, fact: &RoleFact) -> (r: FoundRole)
        ensures
            r.reference() == role_reference(self@.data, *fact),
    {
        match self.role_fact_identity(fact) {
            None => FoundRole::Unresolved,
            Some((name, _)) => {
                if is_public(&name) {
                    return FoundRole::Known(ObjectId::new("", "public"));
                }
                let id = ObjectId::new("", &name);
                match self.role_lookup(&id) {
                    ObjectLookup::Present => FoundRole::Known(id),
                    ObjectLookup::Unknown => FoundRole::Uncertain(id),
                    _ => FoundRole::Missing(name),
                }
            },
        }
    }

    /// The roles that facts denote up to the first that denotes none, whether
    /// one of them is uncertain, and that first fact.
    fn scan_roles(&self, facts: &[RoleFact]) -> (r: (Vec<ObjectId>, bool, Option<FoundRole>))
        ensures
            ({
                let d = self@.data;
                let stop = first_bad_reference(d, facts@, 0);
                &&& r.1 == uncertain_before(d, facts@, stop)
                &&& match r.2 {
                    Some(found) => stop < facts@.len() && found.reference() == role_reference(d, facts@[stop as int]),
                    None => stop >= facts@.len() && r.0.deep_view() == referenced_roles(d, facts@, facts@.len()),
                }
            }),
    {
        let ghost d = self@.data;
        let mut ids: Vec<ObjectId> = Vec::new();
        let mut uncertain = false;
        let mut i: usize = 0;
        assert(ids.deep_view() =~= referenced_roles(d, facts@, 0));
        while i < facts.len()
            invariant
                i <= facts.len(),
                d == self@.data,
                first_bad_reference(d, facts@, 0) == first_bad_reference(d, facts@, i as nat),
                uncertain == uncertain_before(d, facts@, i as nat),
                ids.deep_view() == referenced_roles(d, facts@, i as nat),
            decreases facts.len() - i,
        {
            let ghost before = ids.deep_view();
            proof {
                assert(referenced_roles(d, facts@, (i + 1) as nat) =~= before.push(referenced_role(role_reference(d, facts@[i as int]))));
                assert(uncertain_before(d, facts@, (i + 1) as nat) == (uncertain || role_reference(d, facts@[i as int]) is Uncertain)) by {
                    if uncertain_before(d, facts@, (i + 1) as nat) && !(role_reference(d, facts@[i as int]) is Uncertain) {
                        let j = choose|j: int| 0 <= j < i + 1 && role_reference(d, #[trigger] facts@[j]) is Uncertain;
                        assert(role_reference(d, facts@[j]) is Uncertain);
                    }
                }
            }
            match self.find_role(&facts[i]) {
                FoundRole::Known(id) => {
                    let ghost added = id@;
                    ids.push(id);
                    assert(ids.deep_view() =~= before.push(added));
                },
                FoundRole::Uncertain(id) => {
                    let ghost added = id@;
                    uncertain = true;
                    ids.push(id);
                    assert(ids.deep_view() =~= before.push(added));
                },
                found => {
                    return (ids, uncertain, Some(found));
                },
            }
            i = i + 1;
        }
        (ids, uncertain, None)
    }

    /// Resolves the roles that a statement names.
    pub(crate) fn validate_role_facts(&mut self, facts: &[RoleFact]) -> (r: Result<Vec<ObjectId>, MutationResult>)
        ensures
            final(self)@.data == facts_checked(old(self)@.data, facts@),
            match r {
                Ok(ids) => facts_resolved(old(self)@.data, facts@) == Ok::<Seq<ObjectIdView>, MutationResultView>(ids.deep_view()),
                Err(result) => facts_resolved(old(self)@.data, facts@) == Err::<Seq<ObjectIdView>, MutationResultView>(result@),
            },
            kept(old(self)@, final(self)@),
    {
        proof {
            reveal(facts_checked);
            reveal(facts_resolved);
        }
        let (ids, uncertain, bad) = self.scan_roles(facts);
        let unresolved = match &bad {
            Some(FoundRole::Unresolved) => true,
            _ => false,
        };
        self.taint_if(uncertain, EvidenceCode::CatalogCoverageIncomplete, EvidenceScope::Chain);
        self.taint_if(unresolved, EvidenceCode::UnresolvedReference, EvidenceScope::Chain);
        match bad {
            None => Ok(ids),
            Some(FoundRole::Missing(name)) => Err(conflict_with(join3("role '", &name, "' does not exist"))),
            Some(_) => Err(MutationResult::Skipped),
        }
    }
}

/// Whether a name denotes the pseudo-role `public`.
fn is_public(name: &String) -> (r: bool)
    ensures
        r == (ascii_lowercase(name@) == "public"@),
{
    proof {
        reveal_strlit("public");
        assert(ascii_lowercase("public"@) =~= "public"@);
    }
    eq_ignore_ascii_case(name, "public")
}

/// Checked facts give one role each.
pub proof fn law_each_fact_gives_a_role(d: StateData, facts: Seq<RoleFact>)
    requires
        facts_resolved(d, facts) is Ok,
    ensures
        facts_resolved(d, facts)->Ok_0.len() == facts.len(),
{
    reveal(facts_resolved);
}

} // verus!
