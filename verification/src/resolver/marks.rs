//! Which of the objects that a mutation speaks of were looked up under a name
//! without a schema.
use crate::facts::{AlterIndexActionFact, AlterTableActionFact, AlterTypeActionFact, AlterViewAction, FkFact, GrantTarget, StatementFact};
use crate::identifiers::{Ident, ObjectId, QualifiedName, QualifiedNameView};
use crate::mutations::{AlterSequenceActionMutation, AlterTableActionMutation, FkMutation, Mutation, ResolvedGrantTarget};
use crate::resolver::statement::missing_target;
use crate::state::StateData;
use vstd::prelude::*;

verus! {

pub open spec fn marks_in(ids: Seq<ObjectId>) -> Seq<bool> {
    ids.map_values(|id: ObjectId| id.inferred_schema)
}

pub open spec fn mark_if(id: Option<ObjectId>) -> Seq<bool> {
    match id {
        Some(id) => seq![id.inferred_schema],
        None => Seq::empty(),
    }
}

pub open spec fn owner_mark(owned_by: Option<(ObjectId, String)>) -> Seq<bool> {
    match owned_by {
        Some((table, _)) => seq![table.inferred_schema],
        None => Seq::empty(),
    }
}

pub open spec fn action_marks(action: AlterTableActionMutation) -> Seq<bool> {
    match action {
        AlterTableActionMutation::AddForeignKey { to_table, .. } => seq![to_table.inferred_schema],
        AlterTableActionMutation::AttachPartition { child, .. } => seq![child.inferred_schema],
        AlterTableActionMutation::DetachPartition { child } => seq![child.inferred_schema],
        AlterTableActionMutation::AddUniqueConstraint { using_index, .. } => mark_if(using_index),
        AlterTableActionMutation::AddPrimaryKeyConstraint { using_index, .. } => mark_if(using_index),
        _ => Seq::empty(),
    }
}

pub open spec fn target_marks(target: ResolvedGrantTarget) -> Seq<bool> {
    match target {
        ResolvedGrantTarget::Tables(ids) => marks_in(ids@),
        ResolvedGrantTarget::Roles(ids) => marks_in(ids@),
        ResolvedGrantTarget::AllTablesInSchema(_) => Seq::empty(),
    }
}

/// The marks of the objects of a mutation, in the order of its fields.
pub open spec fn marks(m: Mutation) -> Seq<bool> {
    match m {
        Mutation::CreateTable(x) => seq![x.id.inferred_schema] + x.foreign_keys@.map_values(|k: FkMutation| k.to_table.inferred_schema) + mark_if(
            x.partition_of,
        ),
        Mutation::CreateView(x) => seq![x.id.inferred_schema] + marks_in(x.depends_on@),
        Mutation::CreateMaterializedView(x) => seq![x.id.inferred_schema] + marks_in(x.depends_on@),
        Mutation::RefreshMaterializedView(x) => seq![x.id.inferred_schema],
        Mutation::CreateIndex(x) => seq![x.id.inferred_schema, x.table.inferred_schema],
        Mutation::CreatePolicy(x) => seq![x.table.inferred_schema],
        Mutation::DropPolicy(x) => seq![x.table.inferred_schema],
        Mutation::CreateTrigger(x) => seq![x.table.inferred_schema, x.function_id.inferred_schema],
        Mutation::DropTrigger(x) => seq![x.table.inferred_schema],
        Mutation::AlterTable(x) => seq![x.id.inferred_schema] + action_marks(x.action),
        Mutation::CreateType(x) => seq![x.id.inferred_schema],
        Mutation::AlterType(x) => seq![x.id.inferred_schema],
        Mutation::RenameType(x) => seq![x.old_id.inferred_schema, x.new_id.inferred_schema],
        Mutation::CreateDomain(x) => seq![x.id.inferred_schema],
        Mutation::AlterDomain(x) => seq![x.id.inferred_schema],
        Mutation::DropDomain(x) => marks_in(x.ids@),
        Mutation::DropType(x) => marks_in(x.ids@),
        Mutation::CreateSequence(x) => seq![x.id.inferred_schema] + owner_mark(x.owned_by),
        Mutation::AlterSequence(x) => seq![x.id.inferred_schema] + match x.action {
            AlterSequenceActionMutation::OwnedBy(owned_by) => owner_mark(owned_by),
            _ => Seq::empty(),
        },
        Mutation::DropSequence(x) => marks_in(x.ids@),
        Mutation::Rename(x) => seq![x.old_id.inferred_schema, x.new_id.inferred_schema],
        Mutation::DropTable(x) => marks_in(x.ids@),
        Mutation::DropView(x) => marks_in(x.ids@),
        Mutation::DropMaterializedView(x) => marks_in(x.ids@),
        Mutation::DropIndex(x) => marks_in(x.ids@),
        Mutation::Vacuum { table_id, .. } => mark_if(table_id),
        Mutation::CreateFunction(x) => seq![x.id.inferred_schema],
        Mutation::AlterFunction(x) => seq![x.id.inferred_schema],
        Mutation::CreateProcedure(x) => seq![x.id.inferred_schema],
        Mutation::AlterProcedure(x) => seq![x.id.inferred_schema],
        Mutation::Grant(x) => target_marks(x.target),
        Mutation::Revoke(x) => target_marks(x.target),
        Mutation::AlterDatabase(x) => seq![x.id.inferred_schema],
        Mutation::DropDatabase(x) => seq![x.id.inferred_schema],
        _ => Seq::empty(),
    }
}

pub open spec fn all_marks(list: Seq<Mutation>) -> Seq<Seq<bool>> {
    list.map_values(|m: Mutation| marks(m))
}

/// Whether a name is written without a schema.
pub open spec fn is_bare(name: QualifiedNameView) -> bool {
    name.schema is None
}

pub open spec fn bare_names(names: Seq<QualifiedNameView>) -> Seq<bool> {
    names.map_values(|n: QualifiedNameView| is_bare(n))
}

pub open spec fn bare_if(name: Option<QualifiedName>) -> Seq<bool> {
    match name {
        Some(name) => seq![is_bare(name@)],
        None => Seq::empty(),
    }
}

pub open spec fn function_mark(function: Option<QualifiedName>) -> bool {
    match function {
        Some(name) => is_bare(name@),
        None => false,
    }
}

pub open spec fn bare_owner(owned_by: Option<(QualifiedName, String)>) -> Seq<bool> {
    match owned_by {
        Some((table, _)) => seq![is_bare(table@)],
        None => Seq::empty(),
    }
}

/// The object is the first one that an action speaks of. What a constraint
/// takes for its index lies in the schema of the table.
pub open spec fn table_action_marks(bare: bool, a: AlterTableActionFact) -> Seq<bool> {
    match a {
        AlterTableActionFact::RenameTo { .. } => seq![bare, bare],
        AlterTableActionFact::SetSchema { .. } => seq![bare, false],
        AlterTableActionFact::AddForeignKey { references, .. } => seq![bare, is_bare(references@)],
        AlterTableActionFact::AttachPartition { child, .. } => seq![bare, is_bare(child@)],
        AlterTableActionFact::DetachPartition { child } => seq![bare, is_bare(child@)],
        AlterTableActionFact::AddUniqueConstraint { using_index: Some(_), .. } => seq![bare, false],
        AlterTableActionFact::AddPrimaryKeyConstraint { using_index: Some(_), .. } => seq![bare, false],
        _ => seq![bare],
    }
}

pub open spec fn type_action_marks(bare: bool, a: AlterTypeActionFact) -> Seq<bool> {
    match a {
        AlterTypeActionFact::RenameTo { .. } => seq![bare, bare],
        AlterTypeActionFact::SetSchema { .. } => seq![bare, false],
        _ => seq![bare],
    }
}

pub open spec fn grant_marks(target: GrantTarget) -> Seq<bool> {
    match target {
        GrantTarget::Tables(names) => bare_names(names.deep_view()),
        GrantTarget::Roles(names) => names@.map_values(|n: String| false),
        GrantTarget::AllTablesInSchema(_) => Seq::empty(),
    }
}

pub open spec fn table_marks(foreign_keys: Seq<FkFact>, partition_of: Option<QualifiedName>) -> Seq<bool> {
    seq![false] + foreign_keys.map_values(|k: FkFact| is_bare(k.references@)) + bare_if(partition_of)
}

pub open spec fn rename_marks(name: QualifiedNameView, new_name: Option<Ident>) -> Seq<Seq<bool>> {
    match new_name {
        Some(_) => seq![seq![is_bare(name), is_bare(name)]],
        None => Seq::empty(),
    }
}

/// A table that is moved to another schema by a statement is not renamed.
pub open spec fn statement_action_marks(bare: bool, a: AlterTableActionFact) -> Seq<bool> {
    match a {
        AlterTableActionFact::SetSchema { .. } => seq![bare],
        _ => table_action_marks(bare, a),
    }
}

pub open spec fn alter_marks(d: StateData, bare: bool, actions: Seq<AlterTableActionFact>) -> Seq<Seq<bool>> {
    if missing_target(d, actions, 0) is Some {
        seq![Seq::empty()]
    } else {
        actions.map_values(|a: AlterTableActionFact| statement_action_marks(bare, a))
    }
}

/// The marks of a statement on schemas, relations, types, sequences, policies
/// and triggers. What a statement creates is not looked up.
pub open spec fn definition_marks(d: StateData, f: StatementFact) -> Seq<Seq<bool>> {
    match f {
        StatementFact::CreateSchema { .. } => seq![Seq::empty()],
        StatementFact::AlterSchema { name, new_name } => rename_marks(name@, new_name),
        StatementFact::DropSchema { .. } => seq![Seq::empty()],
        StatementFact::CreateTable { foreign_keys, partition_of, .. } => seq![table_marks(foreign_keys@, partition_of)],
        StatementFact::CreateView { depends_on, .. } => seq![seq![false] + bare_names(depends_on.deep_view())],
        StatementFact::AlterView { name, action } => match action {
            AlterViewAction::RenameTo { new_name } => rename_marks(name@, Some(new_name)),
            _ => Seq::empty(),
        },
        StatementFact::CreateMaterializedView { depends_on, .. } => seq![seq![false] + bare_names(depends_on.deep_view())],
        StatementFact::AlterMaterializedView { name, new_name } => rename_marks(name@, new_name),
        StatementFact::RefreshMaterializedView { name, .. } => seq![seq![is_bare(name@)]],
        StatementFact::CreateIndex { relation, .. } => seq![seq![false, is_bare(relation@)]],
        StatementFact::CreatePolicy { table, .. } => seq![seq![is_bare(table@)]],
        StatementFact::DropPolicy { table, .. } => seq![seq![is_bare(table@)]],
        StatementFact::CreateTrigger { table, function, .. } => seq![
            seq![is_bare(table@), function_mark(function)],
        ],
        StatementFact::DropTrigger { table, .. } => seq![seq![is_bare(table@)]],
        StatementFact::AlterTable { name, actions } => alter_marks(d, is_bare(name@), actions@),
        StatementFact::AlterIndex { name, actions } => actions@.map_values(|a: AlterIndexActionFact| seq![is_bare(name@), is_bare(name@)]),
        StatementFact::CreateType(_) => seq![seq![false]],
        StatementFact::AlterType(x) => x.actions@.map_values(|a: AlterTypeActionFact| type_action_marks(is_bare(x.name@), a)),
        StatementFact::CreateDomain { .. } => seq![seq![false]],
        StatementFact::AlterDomain { name, .. } => seq![seq![is_bare(name@)]],
        StatementFact::DropDomain { names, .. } => seq![bare_names(names.deep_view())],
        StatementFact::DropType { names, .. } => seq![bare_names(names.deep_view())],
        StatementFact::CreateSequence { owned_by, .. } => seq![seq![false] + bare_owner(owned_by)],
        StatementFact::AlterSequence { name, owned_by } => seq![seq![is_bare(name@)] + bare_owner(owned_by)],
        StatementFact::DropSequence { names, .. } => seq![bare_names(names.deep_view())],
        StatementFact::DropTable { name, .. } => seq![bare_names(seq![name@])],
        StatementFact::DropView { name, .. } => seq![bare_names(seq![name@])],
        StatementFact::DropMaterializedView { names, .. } => seq![bare_names(names.deep_view())],
        StatementFact::DropIndex { names, .. } => names.deep_view().map_values(|n: QualifiedNameView| seq![is_bare(n)]),
        _ => Seq::empty(),
    }
}

/// The marks of a statement that controls the session or the transaction.
pub open spec fn control_marks(f: StatementFact) -> Seq<Seq<bool>> {
    match f {
        StatementFact::SetSearchPath { .. } | StatementFact::BeginTransaction | StatementFact::CommitTransaction | StatementFact::CommitAndChain
        | StatementFact::RollbackTransaction | StatementFact::RollbackAndChain | StatementFact::RollbackToSavepoint { .. }
        | StatementFact::Savepoint { .. } | StatementFact::ReleaseSavepoint { .. } | StatementFact::PrepareTransaction { .. }
        | StatementFact::SetTransaction | StatementFact::SetConstraints | StatementFact::OpaqueBlock | StatementFact::Execute
        | StatementFact::SetRole { .. } => seq![Seq::empty()],
        StatementFact::Vacuum { relation, .. } => seq![bare_if(relation)],
        _ => Seq::empty(),
    }
}

/// The marks of any other statement.
pub open spec fn other_marks(f: StatementFact) -> Seq<Seq<bool>> {
    match f {
        StatementFact::CreateFunction(_) | StatementFact::CreateProcedure(_) => seq![seq![false]],
        StatementFact::AlterFunction(x) => seq![seq![is_bare(x.name@)]],
        StatementFact::AlterProcedure(x) => seq![seq![is_bare(x.name@)]],
        StatementFact::Grant(x) => seq![grant_marks(x.target)],
        StatementFact::Revoke(x) => seq![grant_marks(x.target)],
        StatementFact::AlterDatabase(x) => seq![seq![is_bare(x.name@)]],
        StatementFact::DropDatabase(x) => seq![seq![is_bare(x.name@)]],
        StatementFact::DropFunction(_) | StatementFact::DropProcedure(_) | StatementFact::CreatePublication(_) | StatementFact::AlterPublication(_)
        | StatementFact::DropPublication(_) | StatementFact::CreateSubscription(_) | StatementFact::AlterSubscription(_)
        | StatementFact::DropSubscription(_) | StatementFact::CreateRole(_) | StatementFact::AlterRole(_) | StatementFact::DropRole(_)
        | StatementFact::CreateDatabase(_) => seq![Seq::empty()],
        _ => Seq::empty(),
    }
}

pub open spec fn statement_marks(d: StateData, f: StatementFact) -> Seq<Seq<bool>> {
    definition_marks(d, f) + control_marks(f) + other_marks(f)
}

} // verus!
