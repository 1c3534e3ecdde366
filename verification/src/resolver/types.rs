//! Statements on types and domains.
use crate::collections::{each, Dup};
use crate::facts::{AlterDomainActionFact, AlterTypeActionFact, AlterTypeFact, CreateTypeFact, TypeCreationKind};
use crate::identifiers::{object, ObjectId, ObjectIdView, QualifiedName, QualifiedNameView};
use crate::model::types::{TypeKind, TypeKindView};
use crate::mutations::{
    AlterDomainMutation, AlterDomainMutationView, AlterTypeActionMutation, AlterTypeActionMutationView, AlterTypeMutation, AlterTypeMutationView,
    CreateDomainMutation, CreateDomainMutationView, CreateTypeMutation, CreateTypeMutationView, DropDomainMutation, DropDomainMutationView, DropTypeMutation,
    DropTypeMutationView, Mutation, MutationView, Rename, RenameView,
};
use crate::resolver::marks::{all_marks, bare_names, is_bare, marks, type_action_marks};
use crate::resolver::{created_id, type_id, type_ids, Resolver};
use crate::state::{AnalysisState, StateData};
use vstd::prelude::*;

verus! {

pub open spec fn resolved_kind(k: TypeCreationKind) -> TypeKindView {
    match k {
        TypeCreationKind::Enum { variants } => TypeKindView::Enum { variants: variants.deep_view() },
        TypeCreationKind::Range => TypeKindView::Range,
        TypeCreationKind::Composite => TypeKindView::Composite,
        TypeCreationKind::Base => TypeKindView::Base,
    }
}

pub open spec fn resolved_create_type(d: StateData, f: CreateTypeFact) -> MutationView {
    MutationView::CreateType(CreateTypeMutationView { id: created_id(d, f.name@), kind: resolved_kind(f.kind) })
}

pub open spec fn resolved_type_action(id: ObjectIdView, a: AlterTypeActionFact) -> MutationView {
    match a {
        AlterTypeActionFact::RenameTo { new_name } => MutationView::RenameType(
            RenameView { old_id: id, new_id: object(id.schema, new_name@.resolved()) },
        ),
        AlterTypeActionFact::SetSchema { new_schema } => MutationView::RenameType(RenameView { old_id: id, new_id: object(new_schema@, id.name) }),
        AlterTypeActionFact::AddValue { new_value, neighbor, before } => MutationView::AlterType(
            AlterTypeMutationView {
                id,
                action: AlterTypeActionMutationView::AddValue { new_value: new_value@, neighbor: neighbor.deep_view(), before },
            },
        ),
        AlterTypeActionFact::RenameValue { old_value, new_value } => MutationView::AlterType(
            AlterTypeMutationView { id, action: AlterTypeActionMutationView::RenameValue { old_value: old_value@, new_value: new_value@ } },
        ),
    }
}

pub open spec fn resolved_type_actions(id: ObjectIdView, actions: Seq<AlterTypeActionFact>) -> Seq<MutationView> {
    actions.map_values(|a: AlterTypeActionFact| resolved_type_action(id, a))
}

pub open spec fn resolved_alter_type(d: StateData, f: AlterTypeFact) -> Seq<MutationView> {
    resolved_type_actions(type_id(d, f.name@), f.actions@)
}

pub open spec fn resolved_create_domain(d: StateData, name: QualifiedNameView, base_type: Seq<char>) -> MutationView {
    MutationView::CreateDomain(CreateDomainMutationView { id: created_id(d, name), base_type })
}

pub open spec fn resolved_alter_domain(d: StateData, name: QualifiedNameView, action: Option<AlterDomainActionFact>) -> MutationView {
    MutationView::AlterDomain(AlterDomainMutationView { id: type_id(d, name), action })
}

pub open spec fn resolved_drop_domain(d: StateData, names: Seq<QualifiedNameView>, if_exists: bool, cascade: bool) -> MutationView {
    MutationView::DropDomain(DropDomainMutationView { ids: type_ids(d, names), if_exists, cascade })
}

pub open spec fn resolved_drop_type(d: StateData, names: Seq<QualifiedNameView>, if_exists: bool, cascade: bool) -> MutationView {
    MutationView::DropType(DropTypeMutationView { ids: type_ids(d, names), if_exists, cascade })
}

impl Resolver {
    pub fn resolve_create_type(fact: &CreateTypeFact, state: &AnalysisState) -> (r: Mutation)
        ensures
            r@ == resolved_create_type(state@.data, *fact),
            marks(r) == seq![false],
    {
        let kind = match &fact.kind {
            TypeCreationKind::Enum { variants } => TypeKind::Enum { variants: variants.dup() },
            TypeCreationKind::Range => TypeKind::Range,
            TypeCreationKind::Composite => TypeKind::Composite,
            TypeCreationKind::Base => TypeKind::Base,
        };
        Mutation::CreateType(CreateTypeMutation { id: Resolver::resolve_creation_name(&fact.name, state), kind })
    }

    fn resolve_type_action(id: &ObjectId, action: &AlterTypeActionFact) -> (r: Mutation)
        ensures
            r@ == resolved_type_action(id@, *action),
            marks(r) == type_action_marks(id.inferred_schema, *action),
    {
        match action {
            AlterTypeActionFact::RenameTo { new_name } => Mutation::RenameType(
                Rename { old_id: id.dup(), new_id: Resolver::renamed(id, new_name) },
            ),
            AlterTypeActionFact::SetSchema { new_schema } => Mutation::RenameType(
                Rename { old_id: id.dup(), new_id: ObjectId::new(new_schema, &id.name) },
            ),
            AlterTypeActionFact::AddValue { new_value, neighbor, before } => Mutation::AlterType(
                AlterTypeMutation {
                    id: id.dup(),
                    action: AlterTypeActionMutation::AddValue { new_value: new_value.clone(), neighbor: neighbor.dup(), before: *before },
                },
            ),
            AlterTypeActionFact::RenameValue { old_value, new_value } => Mutation::AlterType(
                AlterTypeMutation {
                    id: id.dup(),
                    action: AlterTypeActionMutation::RenameValue { old_value: old_value.clone(), new_value: new_value.clone() },
                },
            ),
        }
    }

    pub(crate) fn type_actions(id: &ObjectId, actions: &Vec<AlterTypeActionFact>) -> (r: Vec<Mutation>)
        ensures
            r.deep_view() == resolved_type_actions(id@, actions@),
            all_marks(r@) == actions@.map_values(|a: AlterTypeActionFact| type_action_marks(id.inferred_schema, a)),
    {
        let f = |a: &AlterTypeActionFact| -> (x: Mutation)
            ensures
                x@ == resolved_type_action(id@, *a),
                marks(x) == type_action_marks(id.inferred_schema, *a),
            { Resolver::resolve_type_action(id, a) };
        let r = each(actions, f, Ghost(|a: AlterTypeActionFact| resolved_type_action(id@, a)));
        assert(all_marks(r@) =~= actions@.map_values(|a: AlterTypeActionFact| type_action_marks(id.inferred_schema, a)));
        r
    }

    pub fn resolve_alter_type(fact: &AlterTypeFact, state: &AnalysisState) -> (r: Vec<Mutation>)
        ensures
            r.deep_view() == resolved_alter_type(state@.data, *fact),
            all_marks(r@) == fact.actions@.map_values(|a: AlterTypeActionFact| type_action_marks(is_bare(fact.name@), a)),
    {
        let id = Resolver::resolve_type_lookup_name(&fact.name, state);
        let r = Resolver::type_actions(&id, &fact.actions);
        assert(all_marks(r@) =~= fact.actions@.map_values(|a: AlterTypeActionFact| type_action_marks(is_bare(fact.name@), a)));
        r
    }

    pub fn resolve_create_domain(name: &QualifiedName, base_type: &String, state: &AnalysisState) -> (r: Mutation)
        ensures
            r@ == resolved_create_domain(state@.data, name@, base_type@),
            marks(r) == seq![false],
    {
        Mutation::CreateDomain(CreateDomainMutation { id: Resolver::resolve_creation_name(name, state), base_type: base_type.clone() })
    }

    pub fn resolve_alter_domain(name: &QualifiedName, action: &Option<AlterDomainActionFact>, state: &AnalysisState) -> (r: Mutation)
        ensures
            r@ == resolved_alter_domain(state@.data, name@, *action),
            marks(r) == seq![is_bare(name@)],
    {
        let action = match action {
            Some(action) => Some(action.dup()),
            None => None,
        };
        Mutation::AlterDomain(AlterDomainMutation { id: Resolver::resolve_type_lookup_name(name, state), action })
    }

    pub fn resolve_drop_domain(names: &Vec<QualifiedName>, if_exists: bool, cascade: bool, state: &AnalysisState) -> (r: Mutation)
        ensures
            r@ == resolved_drop_domain(state@.data, names.deep_view(), if_exists, cascade),
            marks(r) == bare_names(names.deep_view()),
    {
        Mutation::DropDomain(DropDomainMutation { ids: Resolver::type_lookup_names(names, state), if_exists, cascade })
    }

    pub fn resolve_drop_type(names: &Vec<QualifiedName>, if_exists: bool, cascade: bool, state: &AnalysisState) -> (r: Mutation)
        ensures
            r@ == resolved_drop_type(state@.data, names.deep_view(), if_exists, cascade),
            marks(r) == bare_names(names.deep_view()),
    {
        Mutation::DropType(DropTypeMutation { ids: Resolver::type_lookup_names(names, state), if_exists, cascade })
    }
}

} // verus!
