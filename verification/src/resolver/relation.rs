//! Statements on relations.
use crate::collections::{vec_map, Dup};
use crate::facts::{
    AlterTableActionFact, ColumnFact, ColumnFactView, FkFact, PersistenceFact, TableConstraintFact,
};
use crate::identifiers::{object, ObjectId, ObjectIdView, QualifiedName, QualifiedNameView};
use crate::mutations::{
    AlterTable, AlterTableActionMutation, AlterTableActionMutationView, AlterTableView, ColumnMutation, ColumnMutationView, CreateTable, CreateTableView, DropIndex,
    DropIndexView, DropMaterializedViewMutation, DropMaterializedViewMutationView, DropTable, DropTableView, DropViewMutation, DropViewMutationView, FkMutation,
    FkMutationView, Mutation, MutationView, PersistenceMutation, Rename, RenameView,
};
use crate::resolver::marks::{all_marks, bare_names, is_bare, marks, table_action_marks, table_marks};
use crate::resolver::{constraint_index_id, created_id, found_id, found_ids, relation_ids, Among, Resolver};
use crate::state::lookup::relation_id;
use crate::state::{AnalysisState, StateData};
use vstd::prelude::*;

verus! {

pub open spec fn resolved_persistence(p: PersistenceFact) -> PersistenceMutation {
    match p {
        PersistenceFact::Permanent => PersistenceMutation::Permanent,
        PersistenceFact::Temporary => PersistenceMutation::Temporary,
        PersistenceFact::Unlogged => PersistenceMutation::Unlogged,
    }
}

pub open spec fn resolved_column(c: ColumnFactView) -> ColumnMutationView {
    ColumnMutationView {
        name: c.name,
        ty: c.ty,
        not_null: c.not_null,
        is_primary_key: c.is_primary_key,
        primary_key_constraint_name: c.primary_key_constraint_name,
        is_unique: c.is_unique,
        unique_constraint_name: c.unique_constraint_name,
        default: c.default,
        generation: c.generation,
    }
}

pub open spec fn resolved_key(d: StateData, among: Among, k: FkFact) -> FkMutationView {
    FkMutationView {
        constraint_name: k.constraint_name.deep_view(),
        to_table: found_id(d, among, k.references@),
        from_columns: k.from_columns.deep_view(),
        to_columns: k.to_columns.deep_view(),
    }
}

pub open spec fn resolved_parent(d: StateData, among: Among, parent: Option<QualifiedName>) -> Option<ObjectIdView> {
    match parent {
        Some(name) => Some(found_id(d, among, name@)),
        None => None,
    }
}

/// A table that a statement creates, with the names it refers to resolved.
pub open spec fn resolved_create_table(
    d: StateData,
    among: Among,
    name: QualifiedNameView,
    if_not_exists: bool,
    as_select: bool,
    persistence: PersistenceFact,
    columns: Vec<ColumnFact>,
    foreign_keys: Vec<FkFact>,
    table_constraints: Vec<TableConstraintFact>,
    partition_by: Option<String>,
    partition_of: Option<QualifiedName>,
    partition_type: Option<String>,
) -> MutationView {
    MutationView::CreateTable(
        CreateTableView {
            id: created_id(d, name),
            if_not_exists,
            as_select,
            persistence: resolved_persistence(persistence),
            columns: columns.deep_view().map_values(|c: ColumnFactView| resolved_column(c)),
            foreign_keys: foreign_keys@.map_values(|k: FkFact| resolved_key(d, among, k)),
            table_constraints: table_constraints.deep_view(),
            partition_by: partition_by.deep_view(),
            partition_of: resolved_parent(d, among, partition_of),
            partition_type: partition_type.deep_view(),
        },
    )
}

pub open spec fn resolved_using_index(index: Option<QualifiedName>, table: ObjectIdView) -> Option<ObjectIdView> {
    match index {
        Some(name) => Some(constraint_index_id(name@, table)),
        None => None,
    }
}

pub open spec fn table_action(id: ObjectIdView, action: AlterTableActionMutationView) -> MutationView {
    MutationView::AlterTable(AlterTableView { id, action })
}

pub open spec fn rename_to(old_id: ObjectIdView, new_id: ObjectIdView) -> MutationView {
    MutationView::Rename(RenameView { old_id, new_id })
}

/// What an action of `ALTER TABLE` asks for. Renaming a table and moving it to
/// another schema are renames of the object; actions that change nothing that
/// is modeled are opaque.
pub open spec fn resolved_action(d: StateData, among: Among, id: ObjectIdView, a: AlterTableActionFact) -> MutationView {
    match a {
        AlterTableActionFact::AddColumn { name, ty, if_not_exists, not_null, default, generation } => table_action(
            id,
            AlterTableActionMutationView::AddColumn {
                name: name@,
                ty: ty.deep_view(),
                if_not_exists,
                not_null,
                default: default.deep_view(),
                depends_on: None,
                generation,
            },
        ),
        AlterTableActionFact::DropColumn { name, if_exists, cascade } => table_action(
            id,
            AlterTableActionMutationView::DropColumn { name: name@, if_exists, cascade },
        ),
        AlterTableActionFact::RenameColumn { from, to } => table_action(
            id,
            AlterTableActionMutationView::RenameColumn { from: from@.resolved(), to: to@.resolved() },
        ),
        AlterTableActionFact::RenameTo { new_name } => rename_to(id, object(id.schema, new_name@.resolved())),
        AlterTableActionFact::SetSchema { new_schema } => rename_to(id, object(new_schema@, id.name)),
        AlterTableActionFact::AddForeignKey { constraint_name, references, from_columns, to_columns, not_valid } => table_action(
            id,
            AlterTableActionMutationView::AddForeignKey {
                constraint_name: constraint_name.deep_view(),
                to_table: found_id(d, among, references@),
                from_columns: from_columns.deep_view(),
                to_columns: to_columns.deep_view(),
                not_valid,
            },
        ),
        AlterTableActionFact::AlterConstraint { name, deferrable } => table_action(
            id,
            AlterTableActionMutationView::AlterConstraint { name: name.deep_view(), deferrable },
        ),
        AlterTableActionFact::RenameConstraint { old_name, new_name } => table_action(
            id,
            AlterTableActionMutationView::RenameConstraint { old_name: old_name@, new_name: new_name@ },
        ),
        AlterTableActionFact::DropConstraint { name, if_exists, cascade } => table_action(
            id,
            AlterTableActionMutationView::DropConstraint { name: name@, if_exists, cascade },
        ),
        AlterTableActionFact::AddCheckConstraint { constraint_name, columns, columns_complete, not_valid } => table_action(
            id,
            AlterTableActionMutationView::AddCheckConstraint {
                constraint_name: constraint_name.deep_view(),
                columns: columns.deep_view(),
                columns_complete,
                not_valid,
            },
        ),
        AlterTableActionFact::AddUniqueConstraint { constraint_name, columns, using_index } => table_action(
            id,
            AlterTableActionMutationView::AddUniqueConstraint {
                constraint_name: constraint_name.deep_view(),
                columns: columns.deep_view(),
                using_index: resolved_using_index(using_index, id),
            },
        ),
        AlterTableActionFact::AddPrimaryKeyConstraint { constraint_name, columns, using_index } => table_action(
            id,
            AlterTableActionMutationView::AddPrimaryKeyConstraint {
                constraint_name: constraint_name.deep_view(),
                columns: columns.deep_view(),
                using_index: resolved_using_index(using_index, id),
            },
        ),
        AlterTableActionFact::AddExcludeConstraint { constraint_name, columns, columns_complete } => table_action(
            id,
            AlterTableActionMutationView::AddExcludeConstraint {
                constraint_name: constraint_name.deep_view(),
                columns: columns.deep_view(),
                columns_complete,
            },
        ),
        AlterTableActionFact::SetNotNull { column } => table_action(id, AlterTableActionMutationView::SetNotNull { column: column@ }),
        AlterTableActionFact::DropNotNull { column } => table_action(id, AlterTableActionMutationView::DropNotNull { column: column@ }),
        AlterTableActionFact::SetType { column, ty, has_using } => table_action(
            id,
            AlterTableActionMutationView::SetType { column: column@, ty: ty@, has_using },
        ),
        AlterTableActionFact::SetDefault { column, default } => table_action(
            id,
            AlterTableActionMutationView::SetDefault { column: column@, default: default.deep_view() },
        ),
        AlterTableActionFact::ValidateConstraint { constraint_name } => table_action(
            id,
            AlterTableActionMutationView::ValidateConstraint { constraint_name: constraint_name@ },
        ),
        AlterTableActionFact::AttachPartition { child, strategy } => table_action(
            id,
            AlterTableActionMutationView::AttachPartition { child: found_id(d, among, child@), strategy: strategy.deep_view() },
        ),
        AlterTableActionFact::DetachPartition { child } => table_action(
            id,
            AlterTableActionMutationView::DetachPartition { child: found_id(d, among, child@) },
        ),
        AlterTableActionFact::SetStorage { column } => table_action(id, AlterTableActionMutationView::SetStorage { column: column@ }),
        AlterTableActionFact::SetAccessMethod => table_action(id, AlterTableActionMutationView::SetAccessMethod),
        AlterTableActionFact::DisableTrigger { trigger_name } => table_action(
            id,
            AlterTableActionMutationView::DisableTrigger { trigger_name: trigger_name.deep_view() },
        ),
        AlterTableActionFact::EnableTrigger { trigger_name } => table_action(
            id,
            AlterTableActionMutationView::EnableTrigger { trigger_name: trigger_name.deep_view() },
        ),
        AlterTableActionFact::OwnerTo { new_owner } => table_action(
            id,
            AlterTableActionMutationView::OwnerTo { new_owner: new_owner.deep_view() },
        ),
        _ => table_action(id, AlterTableActionMutationView::Opaque),
    }
}

/// What `ALTER TABLE` asks for, action by action.
pub open spec fn resolved_alter_table(d: StateData, name: QualifiedNameView, actions: Seq<AlterTableActionFact>) -> Seq<MutationView> {
    actions.map_values(|a: AlterTableActionFact| resolved_action(d, Among::Relations, relation_id(d, name), a))
}

pub open spec fn resolved_drop_table(d: StateData, among: Among, names: Seq<QualifiedNameView>, if_exists: bool, cascade: bool) -> MutationView {
    MutationView::DropTable(DropTableView { ids: found_ids(d, among, names), if_exists, cascade })
}

pub open spec fn resolved_drop_view(d: StateData, among: Among, names: Seq<QualifiedNameView>, if_exists: bool, cascade: bool) -> MutationView {
    MutationView::DropView(DropViewMutationView { ids: found_ids(d, among, names), if_exists, cascade })
}

pub open spec fn resolved_drop_materialized_view(d: StateData, among: Among, names: Seq<QualifiedNameView>, if_exists: bool, cascade: bool) -> MutationView {
    MutationView::DropMaterializedView(DropMaterializedViewMutationView { ids: found_ids(d, among, names), if_exists, cascade })
}

pub open spec fn resolved_drop_indexes(d: StateData, names: Seq<QualifiedNameView>, if_exists: bool, concurrently: bool, cascade: bool) -> MutationView {
    MutationView::DropIndex(DropIndexView { ids: relation_ids(d, names), if_exists, concurrently, cascade })
}

fn resolve_column(c: &ColumnFact) -> (r: ColumnMutation)
    ensures
        r@ == resolved_column(c@),
{
    ColumnMutation {
        name: c.name.clone(),
        ty: c.ty.dup(),
        not_null: c.not_null,
        is_primary_key: c.is_primary_key,
        primary_key_constraint_name: c.primary_key_constraint_name.dup(),
        is_unique: c.is_unique,
        unique_constraint_name: c.unique_constraint_name.dup(),
        default: c.default.dup(),
        generation: c.generation,
    }
}

impl Resolver {
    fn resolve_key(k: &FkFact, among: Among, state: &AnalysisState) -> (r: FkMutation)
        ensures
            r@ == resolved_key(state@.data, among, *k),
            r.to_table.inferred_schema == is_bare(k.references@),
    {
        FkMutation {
            constraint_name: k.constraint_name.dup(),
            to_table: Resolver::find_name(&k.references, among, state),
            from_columns: k.from_columns.dup(),
            to_columns: k.to_columns.dup(),
        }
    }

    pub(crate) fn create_table(
        among: Among,
        name: &QualifiedName,
        if_not_exists: bool,
        as_select: bool,
        persistence: &PersistenceFact,
        columns: &Vec<ColumnFact>,
        foreign_keys: &Vec<FkFact>,
        table_constraints: &Vec<TableConstraintFact>,
        partition_by: &Option<String>,
        partition_of: &Option<QualifiedName>,
        partition_type: &Option<String>,
        state: &AnalysisState,
    ) -> (r: Mutation)
        ensures
            r@ == resolved_create_table(
                state@.data,
                among,
                name@,
                if_not_exists,
                as_select,
                *persistence,
                *columns,
                *foreign_keys,
                *table_constraints,
                *partition_by,
                *partition_of,
                *partition_type,
            ),
            marks(r) == table_marks(foreign_keys@, *partition_of),
    {
        let ghost d = state@.data;
        let persistence = match persistence {
            PersistenceFact::Permanent => PersistenceMutation::Permanent,
            PersistenceFact::Temporary => PersistenceMutation::Temporary,
            PersistenceFact::Unlogged => PersistenceMutation::Unlogged,
        };
        let columns = vec_map(columns, resolve_column, Ghost(|c: ColumnFactView| resolved_column(c)));
        let key = |k: &FkFact| -> (x: FkMutation)
            ensures
                x@ == resolved_key(state@.data, among, *k),
                x.to_table.inferred_schema == is_bare(k.references@),
            { Resolver::resolve_key(k, among, state) };
        let keys = crate::collections::each(foreign_keys, key, Ghost(|k: FkFact| resolved_key(d, among, k)));
        assert(keys@.map_values(|k: FkMutation| k.to_table.inferred_schema) =~= foreign_keys@.map_values(|k: FkFact| is_bare(k.references@)));
        let partition_of = match partition_of {
            Some(parent) => Some(Resolver::find_name(parent, among, state)),
            None => None,
        };
        Mutation::CreateTable(
            CreateTable {
                id: Resolver::resolve_creation_name(name, state),
                if_not_exists,
                as_select,
                persistence,
                columns,
                foreign_keys: keys,
                table_constraints: table_constraints.dup(),
                partition_by: partition_by.dup(),
                partition_of,
                partition_type: partition_type.dup(),
            },
        )
    }

    pub fn resolve_create_table(
        name: &QualifiedName,
        if_not_exists: bool,
        as_select: bool,
        persistence: &PersistenceFact,
        columns: &Vec<ColumnFact>,
        foreign_keys: &Vec<FkFact>,
        table_constraints: &Vec<TableConstraintFact>,
        partition_by: &Option<String>,
        partition_of: &Option<QualifiedName>,
        partition_type: &Option<String>,
        state: &AnalysisState,
    ) -> (r: Mutation)
        ensures
            r@ == resolved_create_table(
                state@.data,
                Among::Relations,
                name@,
                if_not_exists,
                as_select,
                *persistence,
                *columns,
                *foreign_keys,
                *table_constraints,
                *partition_by,
                *partition_of,
                *partition_type,
            ),
            marks(r) == table_marks(foreign_keys@, *partition_of),
    {
        Resolver::create_table(
            Among::Relations,
            name,
            if_not_exists,
            as_select,
            persistence,
            columns,
            foreign_keys,
            table_constraints,
            partition_by,
            partition_of,
            partition_type,
            state,
        )
    }

    fn resolve_using_index(index: &Option<QualifiedName>, table: &ObjectId) -> (r: Option<ObjectId>)
        ensures
            r.deep_view() == resolved_using_index(*index, table@),
            r is Some == index is Some,
            r is Some ==> !(r->0).inferred_schema,
    {
        match index {
            Some(name) => Some(Resolver::resolve_constraint_index_name(name, table)),
            None => None,
        }
    }

    pub(crate) fn resolve_action(id: &ObjectId, a: &AlterTableActionFact, among: Among, state: &AnalysisState) -> (r: Mutation)
        ensures
            r@ == resolved_action(state@.data, among, id@, *a),
            marks(r) == table_action_marks(id.inferred_schema, *a),
    {
        let action = match a {
            AlterTableActionFact::AddColumn { name, ty, if_not_exists, not_null, default, generation } => AlterTableActionMutation::AddColumn {
                name: name.clone(),
                ty: ty.dup(),
                if_not_exists: *if_not_exists,
                not_null: *not_null,
                default: default.dup(),
                depends_on: None,
                generation: *generation,
            },
            AlterTableActionFact::DropColumn { name, if_exists, cascade } => AlterTableActionMutation::DropColumn {
                name: name.clone(),
                if_exists: *if_exists,
                cascade: *cascade,
            },
            AlterTableActionFact::RenameColumn { from, to } => AlterTableActionMutation::RenameColumn { from: from.resolve(), to: to.resolve() },
            AlterTableActionFact::RenameTo { new_name } => {
                return Mutation::Rename(Rename { old_id: id.dup(), new_id: Resolver::renamed(id, new_name) });
            },
            AlterTableActionFact::SetSchema { new_schema } => {
                return Mutation::Rename(Rename { old_id: id.dup(), new_id: ObjectId::new(new_schema, &id.name) });
            },
            AlterTableActionFact::AddForeignKey { constraint_name, references, from_columns, to_columns, not_valid } => {
                AlterTableActionMutation::AddForeignKey {
                    constraint_name: constraint_name.dup(),
                    to_table: Resolver::find_name(references, among, state),
                    from_columns: from_columns.dup(),
                    to_columns: to_columns.dup(),
                    not_valid: *not_valid,
                }
            },
            AlterTableActionFact::AlterConstraint { name, deferrable } => AlterTableActionMutation::AlterConstraint {
                name: name.dup(),
                deferrable: *deferrable,
            },
            AlterTableActionFact::RenameConstraint { old_name, new_name } => AlterTableActionMutation::RenameConstraint {
                old_name: old_name.clone(),
                new_name: new_name.clone(),
            },
            AlterTableActionFact::DropConstraint { name, if_exists, cascade } => AlterTableActionMutation::DropConstraint {
                name: name.clone(),
                if_exists: *if_exists,
                cascade: *cascade,
            },
            AlterTableActionFact::AddCheckConstraint { constraint_name, columns, columns_complete, not_valid } => {
                AlterTableActionMutation::AddCheckConstraint {
                    constraint_name: constraint_name.dup(),
                    columns: columns.dup(),
                    columns_complete: *columns_complete,
                    not_valid: *not_valid,
                }
            },
            AlterTableActionFact::AddUniqueConstraint { constraint_name, columns, using_index } => AlterTableActionMutation::AddUniqueConstraint {
                constraint_name: constraint_name.dup(),
                columns: columns.dup(),
                using_index: Resolver::resolve_using_index(using_index, id),
            },
            AlterTableActionFact::AddPrimaryKeyConstraint { constraint_name, columns, using_index } => {
                AlterTableActionMutation::AddPrimaryKeyConstraint {
                    constraint_name: constraint_name.dup(),
                    columns: columns.dup(),
                    using_index: Resolver::resolve_using_index(using_index, id),
                }
            },
            AlterTableActionFact::AddExcludeConstraint { constraint_name, columns, columns_complete } => {
                AlterTableActionMutation::AddExcludeConstraint {
                    constraint_name: constraint_name.dup(),
                    columns: columns.dup(),
                    columns_complete: *columns_complete,
                }
            },
            AlterTableActionFact::SetNotNull { column } => AlterTableActionMutation::SetNotNull { column: column.clone() },
            AlterTableActionFact::DropNotNull { column } => AlterTableActionMutation::DropNotNull { column: column.clone() },
            AlterTableActionFact::SetType { column, ty, has_using } => AlterTableActionMutation::SetType {
                column: column.clone(),
                ty: ty.clone(),
                has_using: *has_using,
            },
            AlterTableActionFact::SetDefault { column, default } => AlterTableActionMutation::SetDefault {
                column: column.clone(),
                default: default.dup(),
            },
            AlterTableActionFact::ValidateConstraint { constraint_name } => AlterTableActionMutation::ValidateConstraint {
                constraint_name: constraint_name.clone(),
            },
            AlterTableActionFact::AttachPartition { child, strategy } => AlterTableActionMutation::AttachPartition {
                child: Resolver::find_name(child, among, state),
                strategy: strategy.dup(),
            },
            AlterTableActionFact::DetachPartition { child } => AlterTableActionMutation::DetachPartition {
                child: Resolver::find_name(child, among, state),
            },
            AlterTableActionFact::SetStorage { column } => AlterTableActionMutation::SetStorage { column: column.clone() },
            AlterTableActionFact::SetAccessMethod => AlterTableActionMutation::SetAccessMethod,
            AlterTableActionFact::DisableTrigger { trigger_name } => AlterTableActionMutation::DisableTrigger { trigger_name: trigger_name.dup() },
            AlterTableActionFact::EnableTrigger { trigger_name } => AlterTableActionMutation::EnableTrigger { trigger_name: trigger_name.dup() },
            AlterTableActionFact::OwnerTo { new_owner } => AlterTableActionMutation::OwnerTo { new_owner: new_owner.dup() },
            _ => AlterTableActionMutation::Opaque,
        };
        Mutation::AlterTable(AlterTable { id: id.dup(), action })
    }

    pub fn resolve_alter_table(name: &QualifiedName, actions: &Vec<AlterTableActionFact>, state: &AnalysisState) -> (r: Vec<Mutation>)
        ensures
            r.deep_view() == resolved_alter_table(state@.data, name@, actions@),
            all_marks(r@) == actions@.map_values(|a: AlterTableActionFact| table_action_marks(is_bare(name@), a)),
    {
        let ghost d = state@.data;
        let id = Resolver::resolve_relation_lookup_name(name, state);
        let resolve = |a: &AlterTableActionFact| -> (x: Mutation)
            ensures
                x@ == resolved_action(state@.data, Among::Relations, id@, *a),
                marks(x) == table_action_marks(id.inferred_schema, *a),
            { Resolver::resolve_action(&id, a, Among::Relations, state) };
        let r = crate::collections::each(actions, resolve, Ghost(|a: AlterTableActionFact| resolved_action(d, Among::Relations, relation_id(d, name@), a)));
        assert(all_marks(r@) =~= actions@.map_values(|a: AlterTableActionFact| table_action_marks(is_bare(name@), a)));
        r
    }

    pub fn resolve_drop_table(names: &Vec<QualifiedName>, if_exists: bool, cascade: bool, state: &AnalysisState) -> (r: Mutation)
        ensures
            r@ == resolved_drop_table(state@.data, Among::Relations, names.deep_view(), if_exists, cascade),
            marks(r) == bare_names(names.deep_view()),
    {
        Mutation::DropTable(DropTable { ids: Resolver::find_names(names, Among::Relations, state), if_exists, cascade })
    }

    pub fn resolve_drop_view(names: &Vec<QualifiedName>, if_exists: bool, cascade: bool, state: &AnalysisState) -> (r: Mutation)
        ensures
            r@ == resolved_drop_view(state@.data, Among::Relations, names.deep_view(), if_exists, cascade),
            marks(r) == bare_names(names.deep_view()),
    {
        Mutation::DropView(DropViewMutation { ids: Resolver::find_names(names, Among::Relations, state), if_exists, cascade })
    }

    pub fn resolve_drop_materialized_view(names: &Vec<QualifiedName>, if_exists: bool, cascade: bool, state: &AnalysisState) -> (r: Mutation)
        ensures
            r@ == resolved_drop_materialized_view(state@.data, Among::Relations, names.deep_view(), if_exists, cascade),
            marks(r) == bare_names(names.deep_view()),
    {
        Mutation::DropMaterializedView(DropMaterializedViewMutation { ids: Resolver::find_names(names, Among::Relations, state), if_exists, cascade })
    }

    pub fn resolve_drop_indexes(names: &Vec<QualifiedName>, if_exists: bool, concurrently: bool, cascade: bool, state: &AnalysisState) -> (r: Mutation)
        ensures
            r@ == resolved_drop_indexes(state@.data, names.deep_view(), if_exists, concurrently, cascade),
            marks(r) == bare_names(names.deep_view()),
    {
        Mutation::DropIndex(DropIndex { ids: Resolver::relation_lookup_names(names, state), if_exists, concurrently, cascade })
    }
}

} // verus!
