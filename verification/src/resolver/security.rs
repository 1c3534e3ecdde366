//! Statements on roles, privileges and databases.
use crate::collections::{vec_map, Dup};
use crate::facts::{
    AlterDatabaseFact, AlterRoleFact, CreateDatabaseFact, CreateRoleFact, DropDatabaseFact, DropRoleFact, GrantFact, GrantTarget, RevokeFact, RoleFact,
};
use crate::identifiers::{object, role_object, ObjectId};
use crate::mutations::{
    AlterDatabaseMutation, AlterDatabaseMutationView, AlterRoleMutation, AlterRoleMutationView, CreateDatabaseMutation, CreateDatabaseMutationView,
    CreateRoleMutation, CreateRoleMutationView, DropDatabaseMutation, DropDatabaseMutationView, DropRoleMutation, DropRoleMutationView, GrantMutation,
    GrantMutationView, Mutation, MutationView, ResolvedGrantTarget, ResolvedGrantTargetView, RevokeMutation, RevokeMutationView,
};
use crate::resolver::marks::{grant_marks, marks, marks_in, target_marks};
use crate::resolver::{found_ids, Among, Resolver};
use crate::state::{AnalysisState, StateData};
use vstd::prelude::*;

verus! {

pub open spec fn resolved_target(d: StateData, among: Among, target: GrantTarget) -> ResolvedGrantTargetView {
    match target {
        GrantTarget::Tables(names) => ResolvedGrantTargetView::Tables(found_ids(d, among, names.deep_view())),
        GrantTarget::AllTablesInSchema(schemas) => ResolvedGrantTargetView::AllTablesInSchema(schemas.deep_view()),
        GrantTarget::Roles(names) => ResolvedGrantTargetView::Roles(names.deep_view().map_values(|n: Seq<char>| role_object(n))),
    }
}

pub open spec fn resolved_create_role(f: CreateRoleFact) -> MutationView {
    MutationView::CreateRole(CreateRoleMutationView { name: f.name@, inherits: f.inherits, can_login: f.can_login })
}

pub open spec fn resolved_alter_role(f: AlterRoleFact) -> MutationView {
    MutationView::AlterRole(AlterRoleMutationView { name: f.name@, inherits: f.inherits })
}

pub open spec fn resolved_drop_role(f: DropRoleFact) -> MutationView {
    MutationView::DropRole(DropRoleMutationView { names: f.names.deep_view(), if_exists: f.if_exists })
}

pub open spec fn resolved_grant(d: StateData, among: Among, f: GrantFact) -> MutationView {
    MutationView::Grant(
        GrantMutationView {
            privileges: f.privileges@,
            target: resolved_target(d, among, f.target),
            grantees: f.grantees.deep_view(),
            with_grant_option: f.with_grant_option,
            role_options: f.role_options.deep_view(),
            granted_by: f.granted_by.deep_view(),
        },
    )
}

pub open spec fn resolved_revoke(d: StateData, among: Among, f: RevokeFact) -> MutationView {
    MutationView::Revoke(
        RevokeMutationView {
            grant_option_only: f.grant_option_only,
            role_option: f.role_option.deep_view(),
            privileges: f.privileges@,
            target: resolved_target(d, among, f.target),
            revokees: f.revokees.deep_view(),
            granted_by: f.granted_by.deep_view(),
            cascade: f.cascade,
        },
    )
}

pub open spec fn resolved_create_database(f: CreateDatabaseFact) -> MutationView {
    MutationView::CreateDatabase(CreateDatabaseMutationView { name: f.name@, options: f.options.deep_view() })
}

/// A database lies outside of schemas.
pub open spec fn resolved_alter_database(f: AlterDatabaseFact) -> MutationView {
    MutationView::AlterDatabase(AlterDatabaseMutationView { id: object(""@, f.name@.name.resolved()), action: f.action@ })
}

pub open spec fn resolved_drop_database(f: DropDatabaseFact) -> MutationView {
    MutationView::DropDatabase(DropDatabaseMutationView { id: object(""@, f.name@.name.resolved()), if_exists: f.if_exists })
}

pub open spec fn resolved_set_role(role: Option<RoleFact>, local: bool, is_session_auth: bool) -> MutationView {
    MutationView::SwitchRole { role: role.deep_view(), local, is_session_auth }
}

impl Resolver {
    fn resolve_grant_target(target: &GrantTarget, among: Among, state: &AnalysisState) -> (r: ResolvedGrantTarget)
        ensures
            r@ == resolved_target(state@.data, among, *target),
            target_marks(r) == grant_marks(*target),
    {
        match target {
            GrantTarget::Tables(names) => ResolvedGrantTarget::Tables(Resolver::find_names(names, among, state)),
            GrantTarget::AllTablesInSchema(schemas) => ResolvedGrantTarget::AllTablesInSchema(schemas.dup()),
            GrantTarget::Roles(names) => {
                let f = |n: &String| -> (x: ObjectId)
                    ensures
                        x@ == role_object(n@),
                        !x.inferred_schema,
                    { ObjectId::new("", n) };
                let roles = vec_map(names, f, Ghost(|n: Seq<char>| role_object(n)));
                assert(marks_in(roles@) =~= names@.map_values(|n: String| false));
                ResolvedGrantTarget::Roles(roles)
            },
        }
    }

    pub fn resolve_create_role(fact: &CreateRoleFact) -> (r: Mutation)
        ensures
            r@ == resolved_create_role(*fact),
            marks(r) == Seq::<bool>::empty(),
    {
        Mutation::CreateRole(CreateRoleMutation { name: fact.name.clone(), inherits: fact.inherits, can_login: fact.can_login })
    }

    pub fn resolve_alter_role(fact: &AlterRoleFact) -> (r: Mutation)
        ensures
            r@ == resolved_alter_role(*fact),
            marks(r) == Seq::<bool>::empty(),
    {
        Mutation::AlterRole(AlterRoleMutation { name: fact.name.dup(), inherits: fact.inherits })
    }

    pub fn resolve_drop_role(fact: &DropRoleFact) -> (r: Mutation)
        ensures
            r@ == resolved_drop_role(*fact),
            marks(r) == Seq::<bool>::empty(),
    {
        Mutation::DropRole(DropRoleMutation { names: fact.names.dup(), if_exists: fact.if_exists })
    }

    pub(crate) fn grant(fact: &GrantFact, among: Among, state: &AnalysisState) -> (r: Mutation)
        ensures
            r@ == resolved_grant(state@.data, among, *fact),
            marks(r) == grant_marks(fact.target),
    {
        Mutation::Grant(
            GrantMutation {
                privileges: fact.privileges.dup(),
                target: Resolver::resolve_grant_target(&fact.target, among, state),
                grantees: fact.grantees.dup(),
                with_grant_option: fact.with_grant_option,
                role_options: fact.role_options.dup(),
                granted_by: fact.granted_by.dup(),
            },
        )
    }

    pub fn resolve_grant(fact: &GrantFact, state: &AnalysisState) -> (r: Mutation)
        ensures
            r@ == resolved_grant(state@.data, Among::Relations, *fact),
            marks(r) == grant_marks(fact.target),
    {
        Resolver::grant(fact, Among::Relations, state)
    }

    pub(crate) fn revoke(fact: &RevokeFact, among: Among, state: &AnalysisState) -> (r: Mutation)
        ensures
            r@ == resolved_revoke(state@.data, among, *fact),
            marks(r) == grant_marks(fact.target),
    {
        Mutation::Revoke(
            RevokeMutation {
                grant_option_only: fact.grant_option_only,
                role_option: fact.role_option.dup(),
                privileges: fact.privileges.dup(),
                target: Resolver::resolve_grant_target(&fact.target, among, state),
                revokees: fact.revokees.dup(),
                granted_by: fact.granted_by.dup(),
                cascade: fact.cascade,
            },
        )
    }

    pub fn resolve_revoke(fact: &RevokeFact, state: &AnalysisState) -> (r: Mutation)
        ensures
            r@ == resolved_revoke(state@.data, Among::Relations, *fact),
            marks(r) == grant_marks(fact.target),
    {
        Resolver::revoke(fact, Among::Relations, state)
    }

    pub fn resolve_create_database(fact: &CreateDatabaseFact) -> (r: Mutation)
        ensures
            r@ == resolved_create_database(*fact),
            marks(r) == Seq::<bool>::empty(),
    {
        Mutation::CreateDatabase(CreateDatabaseMutation { name: fact.name.clone(), options: fact.options.dup() })
    }

    pub fn resolve_alter_database(fact: &AlterDatabaseFact) -> (r: Mutation)
        ensures
            r@ == resolved_alter_database(*fact),
            marks(r) == seq![false],
    {
        Mutation::AlterDatabase(AlterDatabaseMutation { id: ObjectId::new("", &fact.name.name.resolve()), action: fact.action.dup() })
    }

    pub fn resolve_drop_database(fact: &DropDatabaseFact) -> (r: Mutation)
        ensures
            r@ == resolved_drop_database(*fact),
            marks(r) == seq![false],
    {
        Mutation::DropDatabase(DropDatabaseMutation { id: ObjectId::new("", &fact.name.name.resolve()), if_exists: fact.if_exists })
    }

    pub fn resolve_set_role(role: &Option<RoleFact>, local: bool, is_session_auth: bool) -> (r: Mutation)
        ensures
            r@ == resolved_set_role(*role, local, is_session_auth),
            marks(r) == Seq::<bool>::empty(),
    {
        Mutation::SwitchRole { role: role.dup(), local, is_session_auth }
    }
}

} // verus!
