//! What statements ask for: each field of a statement goes where it belongs, and
//! each name is looked up where such a name is looked up.
use crate::facts::{
    AlterIndexActionFact, AlterTypeActionFact, AlterViewAction, ColumnFact, FkFact, GrantTarget, PersistenceFact, StatementFact, TableConstraintFact,
    TypeCreationKind,
};
use crate::identifiers::{Ident, ObjectIdView, QualifiedName, QualifiedNameView};
use crate::model::types::TypeKindView;
use crate::mutations::{AlterTypeActionMutationView, ColumnMutationView, FkMutationView, MutationView, ResolvedGrantTargetView};
use crate::resolver::relation::{
    resolved_alter_table, resolved_create_table, resolved_drop_indexes, resolved_drop_materialized_view, resolved_drop_table, resolved_drop_view,
};
use crate::resolver::security::{resolved_alter_database, resolved_drop_database, resolved_grant, resolved_revoke};
use crate::resolver::statement::{resolved_control, resolved_definition, resolved_other, resolved_statement};
use crate::resolver::types::{
    resolved_alter_domain, resolved_alter_type, resolved_create_domain, resolved_create_type, resolved_drop_domain, resolved_drop_type,
};
use crate::resolver::{created_id, looked_up_id, type_id, Among};
use crate::state::lookup::relation_id;
use crate::state::StateData;
use vstd::prelude::*;

verus! {

/// Whether a name denotes an object, looked up among relations or among all
/// names.
pub open spec fn denotes(d: StateData, among: Among, name: QualifiedNameView, id: ObjectIdView) -> bool {
    match among {
        Among::Relations => id == relation_id(d, name),
        Among::AllNames => id == looked_up_id(d, name),
    }
}

/// Whether names denote objects one by one.
pub open spec fn denote(d: StateData, among: Among, names: Seq<QualifiedNameView>, ids: Seq<ObjectIdView>) -> bool {
    ids.len() == names.len() && forall|i: int| 0 <= i < names.len() ==> denotes(d, among, names[i], #[trigger] ids[i])
}

pub open spec fn denote_types(d: StateData, names: Seq<QualifiedNameView>, ids: Seq<ObjectIdView>) -> bool {
    ids.len() == names.len() && forall|i: int| 0 <= i < names.len() ==> #[trigger] ids[i] == type_id(d, names[i])
}

/// A rename within a schema.
pub open spec fn renames(m: MutationView, id: ObjectIdView, new_name: Ident) -> bool {
    m is Rename && m->Rename_0.old_id == id && m->Rename_0.new_id.schema == id.schema && m->Rename_0.new_id.name == new_name@.resolved()
}

// ---------------------------------------------------------------------------
// Tables
// ---------------------------------------------------------------------------

/// Whether a column is asked for as it is written.
pub open spec fn is_column_as_written(c: ColumnFact, m: ColumnMutationView) -> bool {
    &&& m.name == c.name@
    &&& m.ty == c.ty.deep_view()
    &&& m.not_null == c.not_null
    &&& m.is_primary_key == c.is_primary_key
    &&& m.primary_key_constraint_name == c.primary_key_constraint_name.deep_view()
    &&& m.is_unique == c.is_unique
    &&& m.unique_constraint_name == c.unique_constraint_name.deep_view()
    &&& m.default == c.default.deep_view()
    &&& m.generation == c.generation
}

/// Whether a foreign key is asked for as it is written: its target is looked up.
pub open spec fn is_key_as_written(d: StateData, among: Among, k: FkFact, m: FkMutationView) -> bool {
    &&& m.constraint_name == k.constraint_name.deep_view()
    &&& denotes(d, among, k.references@, m.to_table)
    &&& m.from_columns == k.from_columns.deep_view()
    &&& m.to_columns == k.to_columns.deep_view()
}

/// `CREATE TABLE` asks for the table that is written: it goes where a new name
/// goes, and the tables that it refers to are looked up.
pub proof fn law_table_is_asked_for(
    d: StateData,
    among: Among,
    name: QualifiedNameView,
    if_not_exists: bool,
    as_select: bool,
    persistence: PersistenceFact,
    columns: Vec<ColumnFact>,
    foreign_keys: Vec<FkFact>,
    table_constraints: Vec<TableConstraintFact>,
    partition_by: Option<String>,
    partition_of: Option<QualifiedName>,
    partition_type: Option<String>,
    i: int,
)
    ensures
        ({
            let m = resolved_create_table(
                d,
                among,
                name,
                if_not_exists,
                as_select,
                persistence,
                columns,
                foreign_keys,
                table_constraints,
                partition_by,
                partition_of,
                partition_type,
            );
            let x = m->CreateTable_0;
            &&& m is CreateTable
            &&& x.id == created_id(d, name)
            &&& x.if_not_exists == if_not_exists
            &&& x.as_select == as_select
            &&& (x.persistence is Temporary <==> persistence is Temporary) && (x.persistence is Unlogged <==> persistence is Unlogged)
            &&& x.columns.len() == columns@.len()
            &&& 0 <= i < columns@.len() ==> is_column_as_written(columns@[i], x.columns[i])
            &&& x.foreign_keys.len() == foreign_keys@.len()
            &&& 0 <= i < foreign_keys@.len() ==> is_key_as_written(d, among, foreign_keys@[i], x.foreign_keys[i])
            &&& x.table_constraints == table_constraints.deep_view()
            &&& x.partition_by == partition_by.deep_view()
            &&& x.partition_type == partition_type.deep_view()
            &&& partition_of is None <==> x.partition_of is None
            &&& partition_of is Some ==> denotes(d, among, partition_of->0@, x.partition_of->0)
        }),
{
    if 0 <= i < columns@.len() {
        assert(columns.deep_view()[i] == columns@[i]@);
    }
}

proof fn lemma_definition(d: StateData, f: StatementFact)
    requires
        resolved_control(d, f) == Seq::<MutationView>::empty(),
        resolved_other(d, f) == Seq::<MutationView>::empty(),
    ensures
        resolved_statement(d, f) == resolved_definition(d, f),
{
    assert(resolved_statement(d, f) =~= resolved_definition(d, f));
}

/// What a statement that creates a relation, an index or a sequence asks for.
pub proof fn law_creation_is_asked_for(d: StateData, f: StatementFact, i: int)
    ensures
        ({
            let list = resolved_statement(d, f);
            let m = list[0];
            match f {
                StatementFact::CreateSchema { name, if_not_exists, authorization } => list.len() == 1 && m is CreateSchema && m->CreateSchema_0.name
                    == name@.name.resolved() && m->CreateSchema_0.if_not_exists == if_not_exists && m->CreateSchema_0.authorization
                    == authorization.deep_view(),
                StatementFact::CreateTable {
                    name,
                    if_not_exists,
                    as_select,
                    persistence,
                    columns,
                    foreign_keys,
                    table_constraints,
                    partition_by,
                    partition_of,
                    partition_type,
                } => {
                    let x = m->CreateTable_0;
                    &&& list.len() == 1 && m is CreateTable
                    &&& x.id == created_id(d, name@)
                    &&& x.if_not_exists == if_not_exists
                    &&& x.as_select == as_select
                    &&& (x.persistence is Temporary <==> persistence is Temporary) && (x.persistence is Unlogged <==> persistence is Unlogged)
                    &&& x.columns.len() == columns@.len()
                    &&& 0 <= i < columns@.len() ==> is_column_as_written(columns@[i], x.columns[i])
                    &&& x.foreign_keys.len() == foreign_keys@.len()
                    &&& 0 <= i < foreign_keys@.len() ==> is_key_as_written(d, Among::AllNames, foreign_keys@[i], x.foreign_keys[i])
                    &&& x.table_constraints == table_constraints.deep_view()
                    &&& x.partition_by == partition_by.deep_view()
                    &&& x.partition_type == partition_type.deep_view()
                    &&& partition_of is None <==> x.partition_of is None
                    &&& partition_of is Some ==> x.partition_of->0 == looked_up_id(d, partition_of->0@)
                },
                StatementFact::CreateView { name, or_replace, depends_on } => list.len() == 1 && m is CreateView && m->CreateView_0.id == created_id(
                    d,
                    name@,
                ) && m->CreateView_0.or_replace == or_replace && denote(d, Among::AllNames, depends_on.deep_view(), m->CreateView_0.depends_on),
                StatementFact::CreateMaterializedView { name, depends_on } => list.len() == 1 && m is CreateMaterializedView
                    && m->CreateMaterializedView_0.id == created_id(d, name@) && denote(
                    d,
                    Among::AllNames,
                    depends_on.deep_view(),
                    m->CreateMaterializedView_0.depends_on,
                ),
                StatementFact::RefreshMaterializedView { name, concurrently } => list.len() == 1 && m is RefreshMaterializedView
                    && m->RefreshMaterializedView_0.id == looked_up_id(d, name@) && m->RefreshMaterializedView_0.concurrently == concurrently,
                StatementFact::CreateIndex {
                    name,
                    relation,
                    if_not_exists,
                    concurrently,
                    using_method,
                    has_predicate,
                    unique,
                    key_columns,
                    included_columns,
                    has_expression_keys,
                    has_default_sort_order,
                    has_default_opclasses,
                    has_default_collations,
                } => {
                    let x = m->CreateIndex_0;
                    &&& list.len() == 1 && m is CreateIndex
                    &&& x.table == looked_up_id(d, relation@)
                    &&& x.id.name == name@.name.resolved()
                    &&& x.id.schema == (match name@.schema {
                        Some(schema) => schema.resolved(),
                        None => x.table.schema,
                    })
                    &&& x.if_not_exists == if_not_exists
                    &&& x.concurrently == concurrently
                    &&& x.using_method == using_method.deep_view()
                    &&& x.has_predicate == has_predicate
                    &&& x.unique == unique
                    &&& x.key_columns == key_columns.deep_view()
                    &&& x.included_columns == included_columns.deep_view()
                    &&& x.has_expression_keys == has_expression_keys
                    &&& x.has_default_sort_order == has_default_sort_order
                    &&& x.has_default_opclasses == has_default_opclasses
                    &&& x.has_default_collations == has_default_collations
                },
                StatementFact::CreateSequence { name, if_not_exists, owned_by } => {
                    let x = m->CreateSequence_0;
                    &&& list.len() == 1 && m is CreateSequence
                    &&& x.id == created_id(d, name@)
                    &&& x.if_not_exists == if_not_exists
                    &&& owned_by is None <==> x.owned_by is None
                    &&& owned_by is Some ==> (x.owned_by->0).0 == looked_up_id(d, (owned_by->0).0@) && (x.owned_by->0).1 == (owned_by->0).1@
                },
                StatementFact::AlterSequence { name, owned_by } => {
                    let x = m->AlterSequence_0;
                    &&& list.len() == 1 && m is AlterSequence
                    &&& x.id == looked_up_id(d, name@)
                    &&& !x.if_exists
                    &&& owned_by is None ==> x.action is Other
                    &&& owned_by is Some ==> x.action is OwnedBy && x.action->OwnedBy_0 is Some && (x.action->OwnedBy_0->0).0 == looked_up_id(
                        d,
                        (owned_by->0).0@,
                    ) && (x.action->OwnedBy_0->0).1 == (owned_by->0).1@
                },
                _ => true,
            }
        }),
{
    match f {
        StatementFact::CreateTable {
            name,
            if_not_exists,
            as_select,
            persistence,
            columns,
            foreign_keys,
            table_constraints,
            partition_by,
            partition_of,
            partition_type,
        } => {
            lemma_definition(d, f);
            law_table_is_asked_for(
                d,
                Among::AllNames,
                name@,
                if_not_exists,
                as_select,
                persistence,
                columns,
                foreign_keys,
                table_constraints,
                partition_by,
                partition_of,
                partition_type,
                i,
            );
        },
        StatementFact::CreateSchema { .. } | StatementFact::CreateView { .. } | StatementFact::CreateMaterializedView { .. }
        | StatementFact::RefreshMaterializedView { .. } | StatementFact::CreateIndex { .. } | StatementFact::CreateSequence { .. }
        | StatementFact::AlterSequence { .. } => {
            lemma_definition(d, f);
        },
        _ => {},
    }
}

/// What a statement that drops something asks for: the objects that its names
/// denote, with what is written of `IF EXISTS` and `CASCADE`. Each index is asked
/// for on its own.
pub proof fn law_drop_is_asked_for(d: StateData, f: StatementFact, i: int)
    ensures
        ({
            let list = resolved_statement(d, f);
            let m = list[0];
            match f {
                StatementFact::DropSchema { names, if_exists, cascade } => list.len() == 1 && m is DropSchema && m->DropSchema_0.names.len()
                    == names@.len() && (0 <= i < names@.len() ==> m->DropSchema_0.names[i] == names@[i]@.name.resolved()) && m->DropSchema_0.if_exists
                    == if_exists && m->DropSchema_0.cascade == cascade,
                StatementFact::DropTable { name, if_exists, cascade } => list.len() == 1 && m is DropTable && m->DropTable_0.ids == seq![
                    looked_up_id(d, name@),
                ] && m->DropTable_0.if_exists == if_exists && m->DropTable_0.cascade == cascade,
                StatementFact::DropView { name, if_exists, cascade } => list.len() == 1 && m is DropView && m->DropView_0.ids == seq![
                    looked_up_id(d, name@),
                ] && m->DropView_0.if_exists == if_exists && m->DropView_0.cascade == cascade,
                StatementFact::DropMaterializedView { names, if_exists, cascade } => list.len() == 1 && m is DropMaterializedView && denote(
                    d,
                    Among::AllNames,
                    names.deep_view(),
                    m->DropMaterializedView_0.ids,
                ) && m->DropMaterializedView_0.if_exists == if_exists && m->DropMaterializedView_0.cascade == cascade,
                StatementFact::DropSequence { names, if_exists, cascade } => list.len() == 1 && m is DropSequence && denote(
                    d,
                    Among::AllNames,
                    names.deep_view(),
                    m->DropSequence_0.ids,
                ) && m->DropSequence_0.if_exists == if_exists && m->DropSequence_0.cascade == cascade,
                StatementFact::DropType { names, if_exists, cascade } => list.len() == 1 && m is DropType && denote(
                    d,
                    Among::AllNames,
                    names.deep_view(),
                    m->DropType_0.ids,
                ) && m->DropType_0.if_exists == if_exists && m->DropType_0.cascade == cascade,
                StatementFact::DropDomain { names, if_exists, cascade } => list.len() == 1 && m is DropDomain && denote(
                    d,
                    Among::AllNames,
                    names.deep_view(),
                    m->DropDomain_0.ids,
                ) && m->DropDomain_0.if_exists == if_exists && m->DropDomain_0.cascade == cascade,
                StatementFact::DropIndex { names, if_exists, concurrently, cascade } => {
                    let x = list[i]->DropIndex_0;
                    &&& list.len() == names@.len()
                    &&& 0 <= i < names@.len() ==> list[i] is DropIndex && x.ids == seq![looked_up_id(d, names@[i]@)] && x.if_exists == if_exists
                        && x.concurrently == concurrently && x.cascade == cascade
                },
                StatementFact::DropPolicy { name, table, if_exists } => list.len() == 1 && m is DropPolicy && m->DropPolicy_0.name == name@
                    && m->DropPolicy_0.table == looked_up_id(d, table@) && m->DropPolicy_0.if_exists == if_exists,
                StatementFact::DropTrigger { name, table, if_exists } => list.len() == 1 && m is DropTrigger && m->DropTrigger_0.name == name@
                    && m->DropTrigger_0.table == looked_up_id(d, table@) && m->DropTrigger_0.if_exists == if_exists,
                _ => true,
            }
        }),
{
    match f {
        StatementFact::DropSchema { names, .. } => {
            lemma_definition(d, f);
            if 0 <= i < names@.len() {
                assert(names.deep_view()[i] == names@[i]@);
            }
        },
        StatementFact::DropIndex { names, .. } => {
            lemma_definition(d, f);
            if 0 <= i < names@.len() {
                assert(names.deep_view()[i] == names@[i]@);
            }
        },
        StatementFact::DropTable { name, .. } => {
            lemma_definition(d, f);
            assert(resolved_statement(d, f)[0]->DropTable_0.ids =~= seq![looked_up_id(d, name@)]);
        },
        StatementFact::DropView { name, .. } => {
            lemma_definition(d, f);
            assert(resolved_statement(d, f)[0]->DropView_0.ids =~= seq![looked_up_id(d, name@)]);
        },
        StatementFact::DropMaterializedView { .. } | StatementFact::DropSequence { .. } | StatementFact::DropType { .. } | StatementFact::DropDomain {
            ..
        } | StatementFact::DropPolicy { .. } | StatementFact::DropTrigger { .. } => {
            lemma_definition(d, f);
        },
        _ => {},
    }
}

/// What other statements on definitions ask for: renames stay in the schema of
/// the object, and policies, triggers, types and domains are asked for as they
/// are written.
pub proof fn law_definition_is_asked_for(d: StateData, f: StatementFact, i: int)
    ensures
        ({
            let list = resolved_statement(d, f);
            let m = list[0];
            match f {
                StatementFact::AlterSchema { name, new_name } => match new_name {
                    Some(new_name) => list.len() == 1 && renames(m, looked_up_id(d, name@), new_name),
                    None => list.len() == 0,
                },
                StatementFact::AlterView { name, action } => match action {
                    AlterViewAction::RenameTo { new_name } => list.len() == 1 && renames(m, looked_up_id(d, name@), new_name),
                    _ => list.len() == 0,
                },
                StatementFact::AlterMaterializedView { name, new_name } => match new_name {
                    Some(new_name) => list.len() == 1 && renames(m, looked_up_id(d, name@), new_name),
                    None => list.len() == 0,
                },
                StatementFact::AlterIndex { name, actions } => list.len() == actions@.len() && (0 <= i < actions@.len() ==> match actions@[i] {
                    AlterIndexActionFact::RenameTo { new_name } => renames(list[i], looked_up_id(d, name@), new_name),
                }),
                StatementFact::CreatePolicy { name, table, permissive, command } => list.len() == 1 && m is CreatePolicy && m->CreatePolicy_0.name
                    == name@ && m->CreatePolicy_0.table == looked_up_id(d, table@) && m->CreatePolicy_0.permissive == permissive
                    && m->CreatePolicy_0.command == command,
                StatementFact::CreateTrigger { name, table, function } => list.len() == 1 && m is CreateTrigger && m->CreateTrigger_0.name == name@
                    && m->CreateTrigger_0.table == looked_up_id(d, table@) && (function is Some ==> m->CreateTrigger_0.function_id.schema
                    == looked_up_id(d, function->0@).schema),
                StatementFact::CreateType(x) => list.len() == 1 && m is CreateType && m->CreateType_0.id == created_id(d, x.name@) && is_kind_as_written(
                    x.kind,
                    m->CreateType_0.kind,
                ),
                StatementFact::AlterType(x) => list.len() == x.actions@.len() && (0 <= i < x.actions@.len() ==> is_type_action_as_written(
                    looked_up_id(d, x.name@),
                    x.actions@[i],
                    list[i],
                )),
                StatementFact::CreateDomain { name, base_type } => list.len() == 1 && m is CreateDomain && m->CreateDomain_0.id == created_id(d, name@)
                    && m->CreateDomain_0.base_type == base_type@,
                StatementFact::AlterDomain { name, action } => list.len() == 1 && m is AlterDomain && m->AlterDomain_0.id == looked_up_id(d, name@)
                    && m->AlterDomain_0.action == action,
                _ => true,
            }
        }),
{
    match f {
        StatementFact::AlterSchema { .. } | StatementFact::AlterView { .. } | StatementFact::AlterMaterializedView { .. } | StatementFact::AlterIndex {
            ..
        } | StatementFact::CreatePolicy { .. } | StatementFact::CreateTrigger { .. } | StatementFact::CreateType(_) | StatementFact::AlterType(_)
        | StatementFact::CreateDomain { .. } | StatementFact::AlterDomain { .. } => {
            lemma_definition(d, f);
        },
        _ => {},
    }
}

pub open spec fn is_kind_as_written(k: TypeCreationKind, m: TypeKindView) -> bool {
    match k {
        TypeCreationKind::Enum { variants } => m is Enum && m->variants == variants.deep_view(),
        TypeCreationKind::Range => m is Range,
        TypeCreationKind::Composite => m is Composite,
        TypeCreationKind::Base => m is Base,
    }
}

/// Whether an action on a type is asked for as it is written.
pub open spec fn is_type_action_as_written(id: ObjectIdView, a: AlterTypeActionFact, m: MutationView) -> bool {
    match a {
        AlterTypeActionFact::RenameTo { new_name } => m is RenameType && m->RenameType_0.old_id == id && m->RenameType_0.new_id.schema == id.schema
            && m->RenameType_0.new_id.name == new_name@.resolved(),
        AlterTypeActionFact::SetSchema { new_schema } => m is RenameType && m->RenameType_0.old_id == id && m->RenameType_0.new_id.schema == new_schema@
            && m->RenameType_0.new_id.name == id.name,
        AlterTypeActionFact::AddValue { new_value, neighbor, before } => m is AlterType && m->AlterType_0.id == id && match m->AlterType_0.action {
            AlterTypeActionMutationView::AddValue { new_value: v, neighbor: n, before: b } => v == new_value@ && n == neighbor.deep_view() && b == before,
            _ => false,
        },
        AlterTypeActionFact::RenameValue { old_value, new_value } => m is AlterType && m->AlterType_0.id == id && match m->AlterType_0.action {
            AlterTypeActionMutationView::RenameValue { old_value: x, new_value: y } => x == old_value@ && y == new_value@,
            _ => false,
        },
    }
}

// ---------------------------------------------------------------------------
// Control and security
// ---------------------------------------------------------------------------

/// What a statement that controls the session or the transaction asks for.
pub proof fn law_control_is_asked_for(d: StateData, f: StatementFact)
    ensures
        ({
            let list = resolved_statement(d, f);
            let m = list[0];
            match f {
                StatementFact::SetSearchPath { target, local } => list.len() == 1 && m is SearchPath && m->SearchPath_0.target == target@
                    && m->SearchPath_0.local == local,
                StatementFact::BeginTransaction => list.len() == 1 && m is BeginTransaction,
                StatementFact::CommitTransaction => list.len() == 1 && m is CommitTransaction,
                StatementFact::CommitAndChain => list.len() == 1 && m is CommitAndChain,
                StatementFact::RollbackTransaction => list.len() == 1 && m is RollbackTransaction,
                StatementFact::RollbackAndChain => list.len() == 1 && m is RollbackAndChain,
                StatementFact::RollbackToSavepoint { name } => list.len() == 1 && m is RollbackToSavepoint && m->RollbackToSavepoint_0.name == name@,
                StatementFact::Savepoint { name } => list.len() == 1 && m is Savepoint && m->Savepoint_0.name == name@,
                StatementFact::ReleaseSavepoint { name } => list.len() == 1 && m is ReleaseSavepoint && m->ReleaseSavepoint_0.name == name@,
                StatementFact::PrepareTransaction { .. } => list.len() == 1 && m is Opaque && m->Opaque_0 is PrepareTransaction,
                StatementFact::SetTransaction => list.len() == 1 && m is Opaque && m->Opaque_0 is SetTransaction,
                StatementFact::SetConstraints => list.len() == 1 && m is Opaque && m->Opaque_0 is SetConstraints,
                StatementFact::OpaqueBlock => list.len() == 1 && m is Opaque && m->Opaque_0 is DoBlock,
                StatementFact::Execute => list.len() == 1 && m is Opaque && m->Opaque_0 is Execute,
                StatementFact::Vacuum { relation, is_full } => list.len() == 1 && m is Vacuum && m->is_full == is_full && (relation is None
                    <==> m->table_id is None) && (relation is Some ==> m->table_id->0 == looked_up_id(d, relation->0@)),
                StatementFact::SetRole { role, local, is_session_auth } => list.len() == 1 && m is SwitchRole && m->role == role.deep_view() && m->local
                    == local && m->is_session_auth == is_session_auth,
                _ => true,
            }
        }),
{
    assert(resolved_statement(d, f) =~= resolved_definition(d, f) + resolved_control(d, f) + resolved_other(d, f));
}

/// Whether a target of a grant is what is written.
pub open spec fn is_target_as_written(d: StateData, among: Among, target: GrantTarget, m: ResolvedGrantTargetView) -> bool {
    match target {
        GrantTarget::Tables(names) => m is Tables && denote(d, among, names.deep_view(), m->Tables_0),
        GrantTarget::AllTablesInSchema(schemas) => m is AllTablesInSchema && m->AllTablesInSchema_0 == schemas.deep_view(),
        GrantTarget::Roles(names) => m is Roles && m->Roles_0.len() == names@.len() && forall|i: int|
            0 <= i < names@.len() ==> #[trigger] m->Roles_0[i] == (ObjectIdView { schema: ""@, name: names.deep_view()[i] }),
    }
}

/// `GRANT` and `REVOKE` ask for what is written, on what the names denote.
pub proof fn law_grant_is_asked_for(d: StateData, among: Among, grant: crate::facts::GrantFact, revoke: crate::facts::RevokeFact)
    ensures
        ({
            let m = resolved_grant(d, among, grant);
            let x = m->Grant_0;
            &&& m is Grant
            &&& x.privileges == grant.privileges@
            &&& is_target_as_written(d, among, grant.target, x.target)
            &&& x.grantees == grant.grantees.deep_view()
            &&& x.with_grant_option == grant.with_grant_option
            &&& x.role_options == grant.role_options.deep_view()
            &&& x.granted_by == grant.granted_by.deep_view()
        }),
        ({
            let m = resolved_revoke(d, among, revoke);
            let x = m->Revoke_0;
            &&& m is Revoke
            &&& x.privileges == revoke.privileges@
            &&& is_target_as_written(d, among, revoke.target, x.target)
            &&& x.revokees == revoke.revokees.deep_view()
            &&& x.grant_option_only == revoke.grant_option_only
            &&& x.role_option == revoke.role_option.deep_view()
            &&& x.granted_by == revoke.granted_by.deep_view()
            &&& x.cascade == revoke.cascade
        }),
{
}

/// What a statement on roles, grants and databases asks for.
pub proof fn law_security_is_asked_for(d: StateData, f: StatementFact)
    ensures
        ({
            let list = resolved_statement(d, f);
            let m = list[0];
            match f {
                StatementFact::CreateRole(x) => list.len() == 1 && m is CreateRole && m->CreateRole_0.name == x.name@ && m->CreateRole_0.inherits
                    == x.inherits && m->CreateRole_0.can_login == x.can_login,
                StatementFact::AlterRole(x) => list.len() == 1 && m is AlterRole && m->AlterRole_0.name == x.name@ && m->AlterRole_0.inherits
                    == x.inherits,
                StatementFact::DropRole(x) => list.len() == 1 && m is DropRole && m->DropRole_0.names == x.names.deep_view()
                    && m->DropRole_0.if_exists == x.if_exists,
                StatementFact::Grant(x) => list.len() == 1 && m is Grant && m->Grant_0.privileges == x.privileges@ && is_target_as_written(
                    d,
                    Among::AllNames,
                    x.target,
                    m->Grant_0.target,
                ) && m->Grant_0.grantees == x.grantees.deep_view() && m->Grant_0.with_grant_option == x.with_grant_option && m->Grant_0.granted_by
                    == x.granted_by.deep_view() && m->Grant_0.role_options == x.role_options.deep_view(),
                StatementFact::Revoke(x) => list.len() == 1 && m is Revoke && m->Revoke_0.privileges == x.privileges@ && is_target_as_written(
                    d,
                    Among::AllNames,
                    x.target,
                    m->Revoke_0.target,
                ) && m->Revoke_0.revokees == x.revokees.deep_view() && m->Revoke_0.grant_option_only == x.grant_option_only && m->Revoke_0.cascade
                    == x.cascade && m->Revoke_0.granted_by == x.granted_by.deep_view() && m->Revoke_0.role_option == x.role_option.deep_view(),
                StatementFact::CreateDatabase(x) => list.len() == 1 && m is CreateDatabase && m->CreateDatabase_0.name == x.name@,
                StatementFact::DropDatabase(x) => list.len() == 1 && m is DropDatabase && m->DropDatabase_0.id == looked_up_id(d, x.name@)
                    && m->DropDatabase_0.if_exists == x.if_exists,
                _ => true,
            }
        }),
{
    assert(resolved_statement(d, f) =~= resolved_definition(d, f) + resolved_control(d, f) + resolved_other(d, f));
    match f {
        StatementFact::Grant(x) => {
            lemma_target(d, x.target);
        },
        StatementFact::Revoke(x) => {
            lemma_target(d, x.target);
        },
        _ => {},
    }
}

proof fn lemma_target(d: StateData, target: GrantTarget)
    ensures
        is_target_as_written(d, Among::AllNames, target, crate::resolver::security::resolved_target(d, Among::AllNames, target)),
{
}

/// What a statement on routines, publications and subscriptions asks for. The
/// base name of a new routine goes where a new name goes.
pub proof fn law_routine_is_asked_for(d: StateData, f: StatementFact)
    ensures
        ({
            let list = resolved_statement(d, f);
            let m = list[0];
            match f {
                StatementFact::CreateFunction(x) => list.len() == 1 && m is CreateFunction && m->CreateFunction_0.id.schema == created_id(
                    d,
                    x.name@,
                ).schema && (x.name@.name.resolved() + "("@).is_prefix_of(m->CreateFunction_0.id.name) && m->CreateFunction_0.or_replace == x.or_replace
                    && m->CreateFunction_0.params == x.params.deep_view() && m->CreateFunction_0.return_type == x.return_type.deep_view()
                    && m->CreateFunction_0.options == x.options.deep_view(),
                StatementFact::CreateProcedure(x) => list.len() == 1 && m is CreateProcedure && m->CreateProcedure_0.id.schema == created_id(
                    d,
                    x.name@,
                ).schema && (x.name@.name.resolved() + "("@).is_prefix_of(m->CreateProcedure_0.id.name) && m->CreateProcedure_0.or_replace
                    == x.or_replace && m->CreateProcedure_0.params == x.params.deep_view() && m->CreateProcedure_0.options == x.options.deep_view(),
                StatementFact::AlterFunction(x) => list.len() == 1 && m is AlterFunction && m->AlterFunction_0.id.schema == looked_up_id(d, x.name@).schema
                    && (x.name@.name.resolved() + "("@).is_prefix_of(m->AlterFunction_0.id.name) && m->AlterFunction_0.action == x.action@,
                StatementFact::AlterProcedure(x) => list.len() == 1 && m is AlterProcedure && m->AlterProcedure_0.id.schema == looked_up_id(
                    d,
                    x.name@,
                ).schema && (x.name@.name.resolved() + "("@).is_prefix_of(m->AlterProcedure_0.id.name) && m->AlterProcedure_0.action == x.action@,
                StatementFact::DropFunction(x) => list.len() == 1 && m is DropFunction && m->DropFunction_0.if_exists == x.if_exists
                    && m->DropFunction_0.cascade == x.cascade && m->DropFunction_0.signatures.len() == x.signatures@.len(),
                StatementFact::DropProcedure(x) => list.len() == 1 && m is DropProcedure && m->DropProcedure_0.if_exists == x.if_exists
                    && m->DropProcedure_0.cascade == x.cascade && m->DropProcedure_0.signatures == x.signatures.deep_view(),
                StatementFact::CreatePublication(x) => list.len() == 1 && m is CreatePublication && m->CreatePublication_0.name == x.name@
                    && m->CreatePublication_0.scope == x.scope@ && m->CreatePublication_0.params == x.params.deep_view(),
                StatementFact::DropPublication(x) => list.len() == 1 && m is DropPublication && m->DropPublication_0.names == x.names.deep_view()
                    && m->DropPublication_0.if_exists == x.if_exists && m->DropPublication_0.cascade == x.cascade,
                StatementFact::CreateSubscription(x) => list.len() == 1 && m is CreateSubscription && m->CreateSubscription_0.publications
                    == x.publications.deep_view() && m->CreateSubscription_0.connection == x.connection@ && m->CreateSubscription_0.params
                    == x.params.deep_view(),
                StatementFact::DropSubscription(x) => list.len() == 1 && m is DropSubscription && m->DropSubscription_0.name == x.name@
                    && m->DropSubscription_0.if_exists == x.if_exists,
                _ => true,
            }
        }),
{
    assert(resolved_statement(d, f) =~= resolved_definition(d, f) + resolved_control(d, f) + resolved_other(d, f));
}

// ---------------------------------------------------------------------------
// Among relations and types
// ---------------------------------------------------------------------------

/// A drop whose names are looked up among relations asks for those, with what is
/// written of `IF EXISTS`, `CONCURRENTLY` and `CASCADE`.
pub proof fn law_drop_among_relations(d: StateData, among: Among, names: Seq<QualifiedNameView>, if_exists: bool, concurrently: bool, cascade: bool)
    ensures
        ({
            let m = resolved_drop_table(d, among, names, if_exists, cascade);
            m is DropTable && denote(d, among, names, m->DropTable_0.ids) && m->DropTable_0.if_exists == if_exists && m->DropTable_0.cascade == cascade
        }),
        ({
            let m = resolved_drop_view(d, among, names, if_exists, cascade);
            m is DropView && denote(d, among, names, m->DropView_0.ids) && m->DropView_0.if_exists == if_exists && m->DropView_0.cascade == cascade
        }),
        ({
            let m = resolved_drop_materialized_view(d, among, names, if_exists, cascade);
            m is DropMaterializedView && denote(d, among, names, m->DropMaterializedView_0.ids) && m->DropMaterializedView_0.if_exists == if_exists
                && m->DropMaterializedView_0.cascade == cascade
        }),
        ({
            let m = resolved_drop_indexes(d, names, if_exists, concurrently, cascade);
            m is DropIndex && denote(d, Among::Relations, names, m->DropIndex_0.ids) && m->DropIndex_0.if_exists == if_exists
                && m->DropIndex_0.concurrently == concurrently && m->DropIndex_0.cascade == cascade
        }),
{
}

/// `ALTER TABLE` of a name among relations asks for one thing for each action, on
/// the relation that the name denotes. Moving the table to another schema keeps
/// its name, and another owner is asked for.
pub proof fn law_alter_among_relations(d: StateData, name: QualifiedNameView, actions: Seq<crate::facts::AlterTableActionFact>, i: int)
    requires
        0 <= i < actions.len(),
    ensures
        resolved_alter_table(d, name, actions).len() == actions.len(),
        ({
            let m = resolved_alter_table(d, name, actions)[i];
            let id = relation_id(d, name);
            match actions[i] {
                crate::facts::AlterTableActionFact::RenameTo { new_name } => renames(m, id, new_name),
                crate::facts::AlterTableActionFact::SetSchema { new_schema } => m is Rename && m->Rename_0.old_id == id && m->Rename_0.new_id.name
                    == id.name && m->Rename_0.new_id.schema == new_schema@,
                crate::facts::AlterTableActionFact::OwnerTo { new_owner } => m is AlterTable && m->AlterTable_0.id == id
                    && m->AlterTable_0.action is OwnerTo && m->AlterTable_0.action->OwnerTo_new_owner == new_owner.deep_view(),
                crate::facts::AlterTableActionFact::RenameColumn { from, to } => m is AlterTable && m->AlterTable_0.id == id
                    && m->AlterTable_0.action is RenameColumn && m->AlterTable_0.action->RenameColumn_from == from@.resolved()
                    && m->AlterTable_0.action->RenameColumn_to == to@.resolved(),
                crate::facts::AlterTableActionFact::AddForeignKey { references, .. } => m is AlterTable && m->AlterTable_0.id == id
                    && m->AlterTable_0.action is AddForeignKey && m->AlterTable_0.action->to_table == relation_id(d, references@),
                crate::facts::AlterTableActionFact::AttachPartition { child, .. } => m is AlterTable && m->AlterTable_0.id == id
                    && m->AlterTable_0.action is AttachPartition && m->AlterTable_0.action->AttachPartition_child == relation_id(d, child@),
                crate::facts::AlterTableActionFact::DetachPartition { child } => m is AlterTable && m->AlterTable_0.id == id
                    && m->AlterTable_0.action is DetachPartition && m->AlterTable_0.action->DetachPartition_child == relation_id(d, child@),
                _ => m is AlterTable && m->AlterTable_0.id == id,
            }
        }),
{
}

/// Types and domains are created where a new name goes and looked up among types.
pub proof fn law_types_are_asked_for(
    d: StateData,
    create: crate::facts::CreateTypeFact,
    alter: crate::facts::AlterTypeFact,
    name: QualifiedNameView,
    base_type: Seq<char>,
    action: Option<crate::facts::AlterDomainActionFact>,
    names: Seq<QualifiedNameView>,
    if_exists: bool,
    cascade: bool,
    i: int,
)
    ensures
        ({
            let m = resolved_create_type(d, create);
            m is CreateType && m->CreateType_0.id == created_id(d, create.name@) && is_kind_as_written(create.kind, m->CreateType_0.kind)
        }),
        resolved_alter_type(d, alter).len() == alter.actions@.len(),
        0 <= i < alter.actions@.len() ==> is_type_action_as_written(type_id(d, alter.name@), alter.actions@[i], resolved_alter_type(d, alter)[i]),
        ({
            let m = resolved_create_domain(d, name, base_type);
            m is CreateDomain && m->CreateDomain_0.id == created_id(d, name) && m->CreateDomain_0.base_type == base_type
        }),
        ({
            let m = resolved_alter_domain(d, name, action);
            m is AlterDomain && m->AlterDomain_0.id == type_id(d, name) && m->AlterDomain_0.action == action
        }),
        ({
            let m = resolved_drop_domain(d, names, if_exists, cascade);
            m is DropDomain && denote_types(d, names, m->DropDomain_0.ids) && m->DropDomain_0.if_exists == if_exists && m->DropDomain_0.cascade == cascade
        }),
        ({
            let m = resolved_drop_type(d, names, if_exists, cascade);
            m is DropType && denote_types(d, names, m->DropType_0.ids) && m->DropType_0.if_exists == if_exists && m->DropType_0.cascade == cascade
        }),
{
}

/// A database is in no schema.
pub proof fn law_databases_are_asked_for(alter: crate::facts::AlterDatabaseFact, drop: crate::facts::DropDatabaseFact)
    ensures
        ({
            let m = resolved_alter_database(alter);
            m is AlterDatabase && m->AlterDatabase_0.id == (ObjectIdView { schema: ""@, name: alter.name@.name.resolved() }) && m->AlterDatabase_0.action
                == alter.action@
        }),
        ({
            let m = resolved_drop_database(drop);
            m is DropDatabase && m->DropDatabase_0.id == (ObjectIdView { schema: ""@, name: drop.name@.name.resolved() })
                && m->DropDatabase_0.if_exists == drop.if_exists
        }),
{
}

} // verus!
