//! Whole statements.
use crate::collections::{each, vec_map, Dup};
use crate::facts::{AlterIndexActionFact, AlterTableActionFact, AlterViewAction, FunctionSigFact, FunctionSigFactView, StatementFact};
use crate::identifiers::{object, Ident, ObjectId, ObjectIdView, QualifiedName, QualifiedNameView};
use crate::mutations::{
    AlterDatabaseMutation, AlterDatabaseMutationView, AlterDomainMutation, AlterDomainMutationView, AlterFunctionMutation,
    AlterFunctionMutationView, AlterProcedureMutation, AlterProcedureMutationView, AlterPublicationMutation, AlterPublicationMutationView,
    AlterSequenceActionMutation, AlterSequenceActionMutationView, AlterSequenceMutation, AlterSequenceMutationView, AlterSubscriptionMutation,
    AlterSubscriptionMutationView, AlterTable, AlterTableActionMutation, AlterTableActionMutationView, CreateFunctionMutation,
    CreateFunctionMutationView, CreateIndex, CreateIndexView, CreateMaterializedView, CreateMaterializedViewView, CreatePolicyMutation,
    CreatePolicyMutationView, CreateProcedureMutation, CreateProcedureMutationView, CreatePublicationMutation, CreatePublicationMutationView,
    CreateSchemaMutation, CreateSchemaMutationView, CreateSequenceMutation, CreateSequenceMutationView, CreateSubscriptionMutation,
    CreateSubscriptionMutationView, CreateTriggerMutation, CreateTriggerMutationView, CreateView, CreateViewView, DropDatabaseMutation,
    DropDatabaseMutationView, DropDomainMutation, DropDomainMutationView, DropFunctionMutation, DropFunctionMutationView, DropIndex, DropIndexView,
    DropMaterializedViewMutation, DropPolicyMutation, DropPolicyMutationView, DropProcedureMutation, DropProcedureMutationView,
    DropPublicationMutation, DropPublicationMutationView, DropSchemaMutation, DropSchemaMutationView, DropSequenceMutation,
    DropSequenceMutationView, DropSubscriptionMutation, DropSubscriptionMutationView, DropTable, DropTriggerMutation, DropTriggerMutationView,
    DropTypeMutation, DropTypeMutationView, DropViewMutation, Mutation, MutationView, ObjectKind, OpaqueMutation, OpaqueMutationView,
    RefreshMaterializedViewMutation, RefreshMaterializedViewMutationView, ReleaseSavepointMutation, ReleaseSavepointMutationView, Rename,
    RollbackToSavepointMutation, RollbackToSavepointMutationView, SavepointMutation, SavepointMutationView, SearchPathChange, SearchPathChangeView,
};
use crate::resolver::marks::{
    all_marks, alter_marks, bare_names, bare_owner, control_marks, definition_marks, function_mark, is_bare, marks, other_marks, owner_mark, rename_marks,
    statement_action_marks, statement_marks,
};
use crate::resolver::relation::{
    rename_to, resolved_action, resolved_create_table, resolved_drop_materialized_view, resolved_drop_table, resolved_drop_view, table_action,
};
use crate::resolver::security::{
    resolved_alter_role, resolved_create_database, resolved_create_role, resolved_drop_role, resolved_grant, resolved_revoke, resolved_set_role,
};
use crate::resolver::types::{resolved_create_domain, resolved_create_type, resolved_type_actions};
use crate::resolver::{created_id, created_routine, looked_up_id, looked_up_ids, normalized_arg_type, routine_with, Among, Resolver};
use crate::state::lookup::present;
use crate::state::{AnalysisState, StateData};
use crate::text::{join_all, joined};
use vstd::prelude::*;

verus! {

/// A rename within the schema of the object, where a new name is given.
pub open spec fn resolved_rename(d: StateData, name: QualifiedNameView, new_name: Option<Ident>) -> Seq<MutationView> {
    match new_name {
        Some(new_name) => {
            let id = looked_up_id(d, name);
            seq![rename_to(id, object(id.schema, new_name@.resolved()))]
        },
        None => Seq::empty(),
    }
}

/// PostgreSQL places an index without a schema in the schema of its table.
pub open spec fn created_index_id(d: StateData, name: QualifiedNameView, table: ObjectIdView) -> ObjectIdView {
    if name.schema is Some {
        created_id(d, name)
    } else {
        object(table.schema, name.name.resolved())
    }
}

/// Triggers name their function without parameters.
pub open spec fn trigger_function(d: StateData, function: Option<QualifiedName>) -> ObjectIdView {
    routine_with(
        match function {
            Some(name) => looked_up_id(d, name@),
            None => object("public"@, "unknown_function"@),
        },
        ""@,
    )
}

pub open spec fn resolved_owner_column(d: StateData, owned_by: Option<(QualifiedName, String)>) -> Option<(ObjectIdView, Seq<char>)> {
    match owned_by {
        Some((table, column)) => Some((looked_up_id(d, table@), column@)),
        None => None,
    }
}

pub open spec fn resolved_sequence_action(d: StateData, owned_by: Option<(QualifiedName, String)>) -> AlterSequenceActionMutationView {
    if owned_by is Some {
        AlterSequenceActionMutationView::OwnedBy(resolved_owner_column(d, owned_by))
    } else {
        AlterSequenceActionMutationView::Other
    }
}

pub open spec fn index_rename(id: ObjectIdView, a: AlterIndexActionFact) -> MutationView {
    match a {
        AlterIndexActionFact::RenameTo { new_name } => rename_to(id, object(id.schema, new_name@.resolved())),
    }
}

pub open spec fn normalized_sig(s: FunctionSigFactView) -> FunctionSigFactView {
    FunctionSigFactView { name: s.name, params: s.params.map_values(|p: Seq<char>| normalized_arg_type(p)) }
}

pub open spec fn opaque(m: OpaqueMutationView) -> Seq<MutationView> {
    seq![MutationView::Opaque(m)]
}

pub open spec fn schema_names(names: Seq<QualifiedNameView>) -> Seq<Seq<char>> {
    names.map_values(|n: QualifiedNameView| n.name.resolved())
}

pub open spec fn resolved_vacuum(d: StateData, relation: Option<QualifiedName>, is_full: bool) -> MutationView {
    MutationView::Vacuum {
        table_id: match relation {
            Some(name) => Some(looked_up_id(d, name@)),
            None => None,
        },
        is_full,
    }
}

/// The table that the first foreign key, from position `i` on, refers to
/// without that it is present.
pub open spec fn missing_target(d: StateData, actions: Seq<AlterTableActionFact>, i: nat) -> Option<ObjectIdView>
    decreases actions.len() - i,
{
    if i >= actions.len() {
        None
    } else {
        match actions[i as int] {
            AlterTableActionFact::AddForeignKey { references, .. } => if !present(d.relations, looked_up_id(d, references@)) {
                Some(looked_up_id(d, references@))
            } else {
                missing_target(d, actions, i + 1)
            },
            _ => missing_target(d, actions, i + 1),
        }
    }
}

/// What an action of a statement asks for. Another schema and another owner
/// are not modeled here.
pub open spec fn statement_action(d: StateData, id: ObjectIdView, a: AlterTableActionFact) -> MutationView {
    match a {
        AlterTableActionFact::SetSchema { .. } | AlterTableActionFact::OwnerTo { .. } => table_action(id, AlterTableActionMutationView::Opaque),
        _ => resolved_action(d, Among::AllNames, id, a),
    }
}

/// What `ALTER TABLE` asks for, action by action. Where a foreign key refers to
/// a table that is not present, the whole statement is an unresolved reference.
pub open spec fn altered_table(d: StateData, name: QualifiedNameView, actions: Seq<AlterTableActionFact>) -> Seq<MutationView> {
    match missing_target(d, actions, 0) {
        Some(target) => opaque(OpaqueMutationView::UnresolvedReference { object_kind: ObjectKind::Table, object_name: target.shown() }),
        None => actions.map_values(|a: AlterTableActionFact| statement_action(d, looked_up_id(d, name), a)),
    }
}

/// Each index of a statement is dropped on its own.
pub open spec fn index_drop(d: StateData, name: QualifiedNameView, if_exists: bool, concurrently: bool, cascade: bool) -> MutationView {
    MutationView::DropIndex(DropIndexView { ids: seq![looked_up_id(d, name)], if_exists, concurrently, cascade })
}

/// What a statement on schemas, relations, types, sequences, policies and
/// triggers asks for.
pub open spec fn resolved_definition(d: StateData, f: StatementFact) -> Seq<MutationView> {
    match f {
        StatementFact::CreateSchema { name, if_not_exists, authorization } => seq![
            MutationView::CreateSchema(
                CreateSchemaMutationView { name: name@.name.resolved(), if_not_exists, authorization: authorization.deep_view() },
            ),
        ],
        StatementFact::AlterSchema { name, new_name } => resolved_rename(d, name@, new_name),
        StatementFact::DropSchema { names, if_exists, cascade } => seq![
            MutationView::DropSchema(DropSchemaMutationView { names: schema_names(names.deep_view()), if_exists, cascade }),
        ],
        StatementFact::CreateTable {
            name,
            if_not_exists,
            as_select,
            persistence,
            columns,
            foreign_keys,
            table_constraints,
            partition_by,
            partition_of,
            partition_type,
        } => seq![
            resolved_create_table(
                d,
                Among::AllNames,
                name@,
                if_not_exists,
                as_select,
                persistence,
                columns,
                foreign_keys,
                table_constraints,
                partition_by,
                partition_of,
                partition_type,
            ),
        ],
        StatementFact::CreateView { name, or_replace, depends_on } => seq![
            MutationView::CreateView(CreateViewView { id: created_id(d, name@), or_replace, depends_on: looked_up_ids(d, depends_on.deep_view()) }),
        ],
        StatementFact::AlterView { name, action } => match action {
            AlterViewAction::RenameTo { new_name } => resolved_rename(d, name@, Some(new_name)),
            _ => Seq::empty(),
        },
        StatementFact::CreateMaterializedView { name, depends_on } => seq![
            MutationView::CreateMaterializedView(
                CreateMaterializedViewView { id: created_id(d, name@), depends_on: looked_up_ids(d, depends_on.deep_view()) },
            ),
        ],
        StatementFact::AlterMaterializedView { name, new_name } => resolved_rename(d, name@, new_name),
        StatementFact::RefreshMaterializedView { name, concurrently } => seq![
            MutationView::RefreshMaterializedView(RefreshMaterializedViewMutationView { id: looked_up_id(d, name@), concurrently }),
        ],
        StatementFact::CreateIndex {
            name,
            relation,
            if_not_exists,
            concurrently,
            using_method,
            has_predicate,
            unique,
            key_columns,
            included_columns,
            has_expression_keys,
            has_default_sort_order,
            has_default_opclasses,
            has_default_collations,
        } => seq![
            MutationView::CreateIndex(
                CreateIndexView {
                    id: created_index_id(d, name@, looked_up_id(d, relation@)),
                    table: looked_up_id(d, relation@),
                    if_not_exists,
                    concurrently,
                    using_method: using_method.deep_view(),
                    has_predicate,
                    unique,
                    key_columns: key_columns.deep_view(),
                    included_columns: included_columns.deep_view(),
                    has_expression_keys,
                    has_default_sort_order,
                    has_default_opclasses,
                    has_default_collations,
                },
            ),
        ],
        StatementFact::CreatePolicy { name, table, permissive, command } => seq![
            MutationView::CreatePolicy(CreatePolicyMutationView { name: name@, table: looked_up_id(d, table@), permissive, command }),
        ],
        StatementFact::DropPolicy { name, table, if_exists } => seq![
            MutationView::DropPolicy(DropPolicyMutationView { name: name@, table: looked_up_id(d, table@), if_exists }),
        ],
        StatementFact::CreateTrigger { name, table, function } => seq![
            MutationView::CreateTrigger(
                CreateTriggerMutationView { name: name@, table: looked_up_id(d, table@), function_id: trigger_function(d, function) },
            ),
        ],
        StatementFact::DropTrigger { name, table, if_exists } => seq![
            MutationView::DropTrigger(DropTriggerMutationView { name: name@, table: looked_up_id(d, table@), if_exists }),
        ],
        StatementFact::AlterTable { name, actions } => altered_table(d, name@, actions@),
        StatementFact::AlterIndex { name, actions } => actions@.map_values(|a: AlterIndexActionFact| index_rename(looked_up_id(d, name@), a)),
        StatementFact::CreateType(fact) => seq![resolved_create_type(d, fact)],
        StatementFact::AlterType(fact) => resolved_type_actions(looked_up_id(d, fact.name@), fact.actions@),
        StatementFact::CreateDomain { name, base_type } => seq![resolved_create_domain(d, name@, base_type@)],
        StatementFact::AlterDomain { name, action } => seq![
            MutationView::AlterDomain(AlterDomainMutationView { id: looked_up_id(d, name@), action }),
        ],
        StatementFact::DropDomain { names, if_exists, cascade } => seq![
            MutationView::DropDomain(DropDomainMutationView { ids: looked_up_ids(d, names.deep_view()), if_exists, cascade }),
        ],
        StatementFact::DropType { names, if_exists, cascade } => seq![
            MutationView::DropType(DropTypeMutationView { ids: looked_up_ids(d, names.deep_view()), if_exists, cascade }),
        ],
        StatementFact::CreateSequence { name, if_not_exists, owned_by } => seq![
            MutationView::CreateSequence(
                CreateSequenceMutationView { id: created_id(d, name@), if_not_exists, owned_by: resolved_owner_column(d, owned_by) },
            ),
        ],
        StatementFact::AlterSequence { name, owned_by } => seq![
            MutationView::AlterSequence(
                AlterSequenceMutationView { id: looked_up_id(d, name@), if_exists: false, action: resolved_sequence_action(d, owned_by) },
            ),
        ],
        StatementFact::DropSequence { names, if_exists, cascade } => seq![
            MutationView::DropSequence(DropSequenceMutationView { ids: looked_up_ids(d, names.deep_view()), if_exists, cascade }),
        ],
        StatementFact::DropTable { name, if_exists, cascade } => seq![resolved_drop_table(d, Among::AllNames, seq![name@], if_exists, cascade)],
        StatementFact::DropView { name, if_exists, cascade } => seq![resolved_drop_view(d, Among::AllNames, seq![name@], if_exists, cascade)],
        StatementFact::DropMaterializedView { names, if_exists, cascade } => seq![
            resolved_drop_materialized_view(d, Among::AllNames, names.deep_view(), if_exists, cascade),
        ],
        StatementFact::DropIndex { names, if_exists, concurrently, cascade } => names.deep_view().map_values(
            |n: QualifiedNameView| index_drop(d, n, if_exists, concurrently, cascade),
        ),
        _ => Seq::empty(),
    }
}

/// What a statement that controls the session or the transaction asks for.
pub open spec fn resolved_control(d: StateData, f: StatementFact) -> Seq<MutationView> {
    match f {
        StatementFact::SetSearchPath { target, local } => seq![MutationView::SearchPath(SearchPathChangeView { target: target@, local })],
        StatementFact::BeginTransaction => seq![MutationView::BeginTransaction],
        StatementFact::CommitTransaction => seq![MutationView::CommitTransaction],
        StatementFact::CommitAndChain => seq![MutationView::CommitAndChain],
        StatementFact::RollbackTransaction => seq![MutationView::RollbackTransaction],
        StatementFact::RollbackAndChain => seq![MutationView::RollbackAndChain],
        StatementFact::RollbackToSavepoint { name } => seq![MutationView::RollbackToSavepoint(RollbackToSavepointMutationView { name: name@ })],
        StatementFact::Savepoint { name } => seq![MutationView::Savepoint(SavepointMutationView { name: name@ })],
        StatementFact::ReleaseSavepoint { name } => seq![MutationView::ReleaseSavepoint(ReleaseSavepointMutationView { name: name@ })],
        StatementFact::PrepareTransaction { .. } => opaque(OpaqueMutationView::PrepareTransaction),
        StatementFact::SetTransaction => opaque(OpaqueMutationView::SetTransaction),
        StatementFact::SetConstraints => opaque(OpaqueMutationView::SetConstraints),
        StatementFact::OpaqueBlock => opaque(OpaqueMutationView::DoBlock),
        StatementFact::Execute => opaque(OpaqueMutationView::Execute),
        StatementFact::Vacuum { relation, is_full } => seq![resolved_vacuum(d, relation, is_full)],
        StatementFact::SetRole { role, local, is_session_auth } => seq![resolved_set_role(role, local, is_session_auth)],
        _ => Seq::empty(),
    }
}

/// What any other statement asks for.
pub open spec fn resolved_other(d: StateData, f: StatementFact) -> Seq<MutationView> {
    match f {
        StatementFact::CreateFunction(x) => seq![
            MutationView::CreateFunction(
                CreateFunctionMutationView {
                    id: created_routine(d, x.name@, x.params.deep_view()),
                    or_replace: x.or_replace,
                    params: x.params.deep_view(),
                    return_type: x.return_type.deep_view(),
                    options: x.options.deep_view(),
                },
            ),
        ],
        StatementFact::AlterFunction(x) => seq![
            MutationView::AlterFunction(
                AlterFunctionMutationView { id: routine_with(looked_up_id(d, x.name@), joined(x.params.deep_view(), ","@)), action: x.action@ },
            ),
        ],
        StatementFact::DropFunction(x) => seq![
            MutationView::DropFunction(
                DropFunctionMutationView {
                    signatures: x.signatures.deep_view().map_values(|s: FunctionSigFactView| normalized_sig(s)),
                    if_exists: x.if_exists,
                    cascade: x.cascade,
                },
            ),
        ],
        StatementFact::CreateProcedure(x) => seq![
            MutationView::CreateProcedure(
                CreateProcedureMutationView {
                    id: created_routine(d, x.name@, x.params.deep_view()),
                    or_replace: x.or_replace,
                    params: x.params.deep_view(),
                    options: x.options.deep_view(),
                },
            ),
        ],
        StatementFact::AlterProcedure(x) => seq![
            MutationView::AlterProcedure(
                AlterProcedureMutationView { id: routine_with(looked_up_id(d, x.name@), joined(x.params.deep_view(), ","@)), action: x.action@ },
            ),
        ],
        StatementFact::DropProcedure(x) => seq![
            MutationView::DropProcedure(
                DropProcedureMutationView { signatures: x.signatures.deep_view(), if_exists: x.if_exists, cascade: x.cascade },
            ),
        ],
        StatementFact::CreatePublication(x) => seq![
            MutationView::CreatePublication(CreatePublicationMutationView { name: x.name@, scope: x.scope@, params: x.params.deep_view() }),
        ],
        StatementFact::AlterPublication(x) => seq![MutationView::AlterPublication(AlterPublicationMutationView { name: x.name@ })],
        StatementFact::DropPublication(x) => seq![
            MutationView::DropPublication(DropPublicationMutationView { names: x.names.deep_view(), if_exists: x.if_exists, cascade: x.cascade }),
        ],
        StatementFact::CreateSubscription(x) => seq![
            MutationView::CreateSubscription(
                CreateSubscriptionMutationView {
                    name: x.name.deep_view(),
                    connection: x.connection@,
                    publications: x.publications.deep_view(),
                    params: x.params.deep_view(),
                },
            ),
        ],
        StatementFact::AlterSubscription(x) => seq![MutationView::AlterSubscription(AlterSubscriptionMutationView { name: x.name@ })],
        StatementFact::DropSubscription(x) => seq![
            MutationView::DropSubscription(DropSubscriptionMutationView { name: x.name@, if_exists: x.if_exists }),
        ],
        StatementFact::CreateRole(x) => seq![resolved_create_role(x)],
        StatementFact::AlterRole(x) => seq![resolved_alter_role(x)],
        StatementFact::DropRole(x) => seq![resolved_drop_role(x)],
        StatementFact::Grant(x) => seq![resolved_grant(d, Among::AllNames, x)],
        StatementFact::Revoke(x) => seq![resolved_revoke(d, Among::AllNames, x)],
        StatementFact::CreateDatabase(x) => seq![resolved_create_database(x)],
        StatementFact::AlterDatabase(x) => seq![
            MutationView::AlterDatabase(AlterDatabaseMutationView { id: looked_up_id(d, x.name@), action: x.action@ }),
        ],
        StatementFact::DropDatabase(x) => seq![
            MutationView::DropDatabase(DropDatabaseMutationView { id: looked_up_id(d, x.name@), if_exists: x.if_exists }),
        ],
        _ => Seq::empty(),
    }
}

/// What a statement asks for. Every statement belongs to one of three groups,
/// and the other two have nothing for it.
pub open spec fn resolved_statement(d: StateData, f: StatementFact) -> Seq<MutationView> {
    resolved_definition(d, f) + resolved_control(d, f) + resolved_other(d, f)
}

fn one(m: Mutation) -> (r: Vec<Mutation>)
    ensures
        r.deep_view() == seq![m@],
        all_marks(r@) == seq![marks(m)],
{
    let ghost v = m@;
    let ghost k = marks(m);
    let mut r: Vec<Mutation> = Vec::new();
    r.push(m);
    assert(r.deep_view() =~= seq![v]);
    assert(all_marks(r@) =~= seq![k]);
    r
}

fn none() -> (r: Vec<Mutation>)
    ensures
        r.deep_view() == Seq::<MutationView>::empty(),
        all_marks(r@) == Seq::<Seq<bool>>::empty(),
{
    let r: Vec<Mutation> = Vec::new();
    assert(r.deep_view() =~= Seq::<MutationView>::empty());
    assert(all_marks(r@) =~= Seq::<Seq<bool>>::empty());
    r
}

fn only(name: &QualifiedName) -> (r: Vec<QualifiedName>)
    ensures
        r.deep_view() == seq![name@],
{
    let mut r: Vec<QualifiedName> = Vec::new();
    r.push(name.dup());
    assert(r.deep_view() =~= seq![name@]);
    r
}

fn normalize_sig(s: &FunctionSigFact) -> (r: FunctionSigFact)
    ensures
        r@ == normalized_sig(s@),
{
    let f = |p: &String| -> (x: String)
        ensures
            x@ == normalized_arg_type(p@),
        { Resolver::normalize_function_arg_type(p) };
    FunctionSigFact { name: s.name.dup(), params: vec_map(&s.params, f, Ghost(|p: Seq<char>| normalized_arg_type(p))) }
}

impl Resolver {
    fn resolve_rename(name: &QualifiedName, new_name: &Ident, state: &AnalysisState) -> (r: Vec<Mutation>)
        ensures
            r.deep_view() == resolved_rename(state@.data, name@, Some(*new_name)),
            all_marks(r@) == rename_marks(name@, Some(*new_name)),
    {
        let id = Resolver::resolve_lookup_name(name, state);
        let new_id = Resolver::renamed(&id, new_name);
        one(Mutation::Rename(Rename { old_id: id, new_id }))
    }

    fn resolve_optional_rename(name: &QualifiedName, new_name: &Option<Ident>, state: &AnalysisState) -> (r: Vec<Mutation>)
        ensures
            r.deep_view() == resolved_rename(state@.data, name@, *new_name),
            all_marks(r@) == rename_marks(name@, *new_name),
    {
        match new_name {
            Some(new_name) => Resolver::resolve_rename(name, new_name, state),
            None => none(),
        }
    }

    fn resolve_owner_column(owned_by: &Option<(QualifiedName, String)>, state: &AnalysisState) -> (r: Option<(ObjectId, String)>)
        ensures
            r.deep_view() == resolved_owner_column(state@.data, *owned_by),
            owner_mark(r) == bare_owner(*owned_by),
    {
        match owned_by {
            Some((table, column)) => Some((Resolver::resolve_lookup_name(table, state), column.clone())),
            None => None,
        }
    }

    fn resolve_trigger_function(function: &Option<QualifiedName>, state: &AnalysisState) -> (r: ObjectId)
        ensures
            r@ == trigger_function(state@.data, *function),
            r.inferred_schema == function_mark(*function),
    {
        let base = match function {
            Some(name) => Resolver::resolve_lookup_name(name, state),
            None => ObjectId::new("public", "unknown_function"),
        };
        Resolver::resolve_function_id_by_sig(&base, "")
    }

    fn resolve_index_renames(name: &QualifiedName, actions: &Vec<AlterIndexActionFact>, state: &AnalysisState) -> (r: Vec<Mutation>)
        ensures
            r.deep_view() == actions@.map_values(|a: AlterIndexActionFact| index_rename(looked_up_id(state@.data, name@), a)),
            all_marks(r@) == actions@.map_values(|a: AlterIndexActionFact| seq![is_bare(name@), is_bare(name@)]),
    {
        let ghost d = state@.data;
        let id = Resolver::resolve_lookup_name(name, state);
        let f = |a: &AlterIndexActionFact| -> (x: Mutation)
            ensures
                x@ == index_rename(id@, *a),
                marks(x) == seq![id.inferred_schema, id.inferred_schema],
            {
                match a {
                    AlterIndexActionFact::RenameTo { new_name } => Mutation::Rename(
                        Rename { old_id: id.dup(), new_id: Resolver::renamed(&id, new_name) },
                    ),
                }
            };
        let r = each(actions, f, Ghost(|a: AlterIndexActionFact| index_rename(looked_up_id(d, name@), a)));
        assert(all_marks(r@) =~= actions@.map_values(|a: AlterIndexActionFact| seq![is_bare(name@), is_bare(name@)]));
        r
    }

    fn find_missing_target(actions: &Vec<AlterTableActionFact>, state: &AnalysisState) -> (r: Option<ObjectId>)
        ensures
            r.deep_view() == missing_target(state@.data, actions@, 0),
    {
        let mut i: usize = 0;
        while i < actions.len()
            invariant
                i <= actions.len(),
                missing_target(state@.data, actions@, 0) == missing_target(state@.data, actions@, i as nat),
            decreases actions.len() - i,
        {
            if let AlterTableActionFact::AddForeignKey { references, .. } = &actions[i] {
                let target = Resolver::resolve_lookup_name(references, state);
                if !state.relation_is_present(&target) {
                    return Some(target);
                }
            }
            i = i + 1;
        }
        None
    }

    fn statement_action(id: &ObjectId, a: &AlterTableActionFact, state: &AnalysisState) -> (r: Mutation)
        ensures
            r@ == statement_action(state@.data, id@, *a),
            marks(r) == statement_action_marks(id.inferred_schema, *a),
    {
        match a {
            AlterTableActionFact::SetSchema { .. } | AlterTableActionFact::OwnerTo { .. } => Mutation::AlterTable(
                AlterTable { id: id.dup(), action: AlterTableActionMutation::Opaque },
            ),
            _ => Resolver::resolve_action(id, a, Among::AllNames, state),
        }
    }

    fn alter_table(name: &QualifiedName, actions: &Vec<AlterTableActionFact>, state: &AnalysisState) -> (r: Vec<Mutation>)
        ensures
            r.deep_view() == altered_table(state@.data, name@, actions@),
            all_marks(r@) == alter_marks(state@.data, is_bare(name@), actions@),
    {
        let ghost d = state@.data;
        if let Some(target) = Resolver::find_missing_target(actions, state) {
            return one(
                Mutation::Opaque(OpaqueMutation::UnresolvedReference { object_kind: ObjectKind::Table, object_name: target.show() }),
            );
        }
        let id = Resolver::resolve_lookup_name(name, state);
        let f = |a: &AlterTableActionFact| -> (x: Mutation)
            ensures
                x@ == statement_action(state@.data, id@, *a),
                marks(x) == statement_action_marks(id.inferred_schema, *a),
            { Resolver::statement_action(&id, a, state) };
        let r = each(actions, f, Ghost(|a: AlterTableActionFact| statement_action(d, looked_up_id(d, name@), a)));
        assert(all_marks(r@) =~= actions@.map_values(|a: AlterTableActionFact| statement_action_marks(is_bare(name@), a)));
        r
    }

    fn drop_indexes(names: &Vec<QualifiedName>, if_exists: bool, concurrently: bool, cascade: bool, state: &AnalysisState) -> (r: Vec<Mutation>)
        ensures
            r.deep_view() == names.deep_view().map_values(
                |n: QualifiedNameView| index_drop(state@.data, n, if_exists, concurrently, cascade),
            ),
            all_marks(r@) == names.deep_view().map_values(|n: QualifiedNameView| seq![is_bare(n)]),
    {
        let ghost d = state@.data;
        let f = |n: &QualifiedName| -> (x: Mutation)
            ensures
                x@ == index_drop(state@.data, n@, if_exists, concurrently, cascade),
                marks(x) == seq![is_bare(n@)],
            {
                let ids = Resolver::lookup_names(&only(n), state);
                proof {
                    assert(looked_up_ids(state@.data, seq![n@]) =~= seq![looked_up_id(state@.data, n@)]);
                    assert(bare_names(seq![n@]) =~= seq![is_bare(n@)]);
                }
                Mutation::DropIndex(DropIndex { ids, if_exists, concurrently, cascade })
            };
        let r = vec_map(names, f, Ghost(|n: QualifiedNameView| index_drop(d, n, if_exists, concurrently, cascade)));
        assert(all_marks(r@) =~= names.deep_view().map_values(|n: QualifiedNameView| seq![is_bare(n)]));
        r
    }

    fn resolve_schema_names(names: &Vec<QualifiedName>) -> (r: Vec<String>)
        ensures
            r.deep_view() == schema_names(names.deep_view()),
    {
        let f = |n: &QualifiedName| -> (x: String)
            ensures
                x@ == n@.name.resolved(),
            { n.name.resolve() };
        vec_map(names, f, Ghost(|n: QualifiedNameView| n.name.resolved()))
    }

    fn resolve_definition(fact: &StatementFact, state: &AnalysisState) -> (r: Vec<Mutation>)
        ensures
            r.deep_view() == resolved_definition(state@.data, *fact),
            all_marks(r@) == definition_marks(state@.data, *fact),
    {
        match fact {
            StatementFact::CreateSchema { name, if_not_exists, authorization } => one(
                Mutation::CreateSchema(
                    CreateSchemaMutation { name: name.name.resolve(), if_not_exists: *if_not_exists, authorization: authorization.dup() },
                ),
            ),
            StatementFact::AlterSchema { name, new_name } => Resolver::resolve_optional_rename(name, new_name, state),
            StatementFact::DropSchema { names, if_exists, cascade } => one(
                Mutation::DropSchema(
                    DropSchemaMutation { names: Resolver::resolve_schema_names(names), if_exists: *if_exists, cascade: *cascade },
                ),
            ),
            StatementFact::CreateTable {
                name,
                if_not_exists,
                as_select,
                persistence,
                columns,
                foreign_keys,
                table_constraints,
                partition_by,
                partition_of,
                partition_type,
            } => one(
                Resolver::create_table(
                    Among::AllNames,
                    name,
                    *if_not_exists,
                    *as_select,
                    persistence,
                    columns,
                    foreign_keys,
                    table_constraints,
                    partition_by,
                    partition_of,
                    partition_type,
                    state,
                ),
            ),
            StatementFact::CreateView { name, or_replace, depends_on } => one(
                Mutation::CreateView(
                    CreateView {
                        id: Resolver::resolve_creation_name(name, state),
                        or_replace: *or_replace,
                        depends_on: Resolver::lookup_names(depends_on, state),
                    },
                ),
            ),
            // Other actions change no object that is modeled.
            StatementFact::AlterView { name, action } => match action {
                AlterViewAction::RenameTo { new_name } => Resolver::resolve_rename(name, new_name, state),
                _ => none(),
            },
            StatementFact::CreateMaterializedView { name, depends_on } => one(
                Mutation::CreateMaterializedView(
                    CreateMaterializedView {
                        id: Resolver::resolve_creation_name(name, state),
                        depends_on: Resolver::lookup_names(depends_on, state),
                    },
                ),
            ),
            StatementFact::AlterMaterializedView { name, new_name } => Resolver::resolve_optional_rename(name, new_name, state),
            StatementFact::RefreshMaterializedView { name, concurrently } => one(
                Mutation::RefreshMaterializedView(
                    RefreshMaterializedViewMutation { id: Resolver::resolve_lookup_name(name, state), concurrently: *concurrently },
                ),
            ),
            StatementFact::CreateIndex {
                name,
                relation,
                if_not_exists,
                concurrently,
                using_method,
                has_predicate,
                unique,
                key_columns,
                included_columns,
                has_expression_keys,
                has_default_sort_order,
                has_default_opclasses,
                has_default_collations,
            } => {
                let table = Resolver::resolve_lookup_name(relation, state);
                let id = if name.schema.is_some() {
                    Resolver::resolve_creation_name(name, state)
                } else {
                    ObjectId::new(&table.schema, &name.name.resolve())
                };
                one(
                    Mutation::CreateIndex(
                        CreateIndex {
                            id,
                            table,
                            if_not_exists: *if_not_exists,
                            concurrently: *concurrently,
                            using_method: using_method.dup(),
                            has_predicate: *has_predicate,
                            unique: *unique,
                            key_columns: key_columns.dup(),
                            included_columns: included_columns.dup(),
                            has_expression_keys: *has_expression_keys,
                            has_default_sort_order: *has_default_sort_order,
                            has_default_opclasses: *has_default_opclasses,
                            has_default_collations: *has_default_collations,
                        },
                    ),
                )
            },
            StatementFact::CreatePolicy { name, table, permissive, command } => one(
                Mutation::CreatePolicy(
                    CreatePolicyMutation {
                        name: name.clone(),
                        table: Resolver::resolve_lookup_name(table, state),
                        permissive: *permissive,
                        command: command.dup(),
                    },
                ),
            ),
            StatementFact::DropPolicy { name, table, if_exists } => one(
                Mutation::DropPolicy(
                    DropPolicyMutation { name: name.clone(), table: Resolver::resolve_lookup_name(table, state), if_exists: *if_exists },
                ),
            ),
            StatementFact::CreateTrigger { name, table, function } => one(
                Mutation::CreateTrigger(
                    CreateTriggerMutation {
                        name: name.clone(),
                        table: Resolver::resolve_lookup_name(table, state),
                        function_id: Resolver::resolve_trigger_function(function, state),
                    },
                ),
            ),
            StatementFact::DropTrigger { name, table, if_exists } => one(
                Mutation::DropTrigger(
                    DropTriggerMutation { name: name.clone(), table: Resolver::resolve_lookup_name(table, state), if_exists: *if_exists },
                ),
            ),
            StatementFact::AlterTable { name, actions } => Resolver::alter_table(name, actions, state),
            StatementFact::AlterIndex { name, actions } => Resolver::resolve_index_renames(name, actions, state),
            StatementFact::CreateType(create_type) => one(Resolver::resolve_create_type(create_type, state)),
            StatementFact::AlterType(alter_type) => {
                let id = Resolver::resolve_lookup_name(&alter_type.name, state);
                Resolver::type_actions(&id, &alter_type.actions)
            },
            StatementFact::CreateDomain { name, base_type } => one(Resolver::resolve_create_domain(name, base_type, state)),
            StatementFact::AlterDomain { name, action } => {
                let action = match action {
                    Some(action) => Some(action.dup()),
                    None => None,
                };
                one(Mutation::AlterDomain(AlterDomainMutation { id: Resolver::resolve_lookup_name(name, state), action }))
            },
            StatementFact::DropDomain { names, if_exists, cascade } => one(
                Mutation::DropDomain(
                    DropDomainMutation { ids: Resolver::lookup_names(names, state), if_exists: *if_exists, cascade: *cascade },
                ),
            ),
            StatementFact::DropType { names, if_exists, cascade } => one(
                Mutation::DropType(
                    DropTypeMutation { ids: Resolver::lookup_names(names, state), if_exists: *if_exists, cascade: *cascade },
                ),
            ),
            StatementFact::CreateSequence { name, if_not_exists, owned_by } => one(
                Mutation::CreateSequence(
                    CreateSequenceMutation {
                        id: Resolver::resolve_creation_name(name, state),
                        if_not_exists: *if_not_exists,
                        owned_by: Resolver::resolve_owner_column(owned_by, state),
                    },
                ),
            ),
            StatementFact::AlterSequence { name, owned_by } => {
                let action = if owned_by.is_some() {
                    AlterSequenceActionMutation::OwnedBy(Resolver::resolve_owner_column(owned_by, state))
                } else {
                    AlterSequenceActionMutation::Other
                };
                one(
                    Mutation::AlterSequence(
                        AlterSequenceMutation { id: Resolver::resolve_lookup_name(name, state), if_exists: false, action },
                    ),
                )
            },
            StatementFact::DropSequence { names, if_exists, cascade } => one(
                Mutation::DropSequence(
                    DropSequenceMutation { ids: Resolver::lookup_names(names, state), if_exists: *if_exists, cascade: *cascade },
                ),
            ),
            StatementFact::DropTable { name, if_exists, cascade } => one(
                Mutation::DropTable(
                    DropTable { ids: Resolver::lookup_names(&only(name), state), if_exists: *if_exists, cascade: *cascade },
                ),
            ),
            StatementFact::DropView { name, if_exists, cascade } => one(
                Mutation::DropView(
                    DropViewMutation { ids: Resolver::lookup_names(&only(name), state), if_exists: *if_exists, cascade: *cascade },
                ),
            ),
            StatementFact::DropMaterializedView { names, if_exists, cascade } => one(
                Mutation::DropMaterializedView(
                    DropMaterializedViewMutation { ids: Resolver::lookup_names(names, state), if_exists: *if_exists, cascade: *cascade },
                ),
            ),
            StatementFact::DropIndex { names, if_exists, concurrently, cascade } => Resolver::drop_indexes(
                names,
                *if_exists,
                *concurrently,
                *cascade,
                state,
            ),
            _ => none(),
        }
    }

    fn resolve_control(fact: &StatementFact, state: &AnalysisState) -> (r: Vec<Mutation>)
        ensures
            r.deep_view() == resolved_control(state@.data, *fact),
            all_marks(r@) == control_marks(*fact),
    {
        match fact {
            StatementFact::SetSearchPath { target, local } => one(
                Mutation::SearchPath(SearchPathChange { target: target.dup(), local: *local }),
            ),
            StatementFact::BeginTransaction => one(Mutation::BeginTransaction),
            StatementFact::CommitTransaction => one(Mutation::CommitTransaction),
            StatementFact::CommitAndChain => one(Mutation::CommitAndChain),
            StatementFact::RollbackTransaction => one(Mutation::RollbackTransaction),
            StatementFact::RollbackAndChain => one(Mutation::RollbackAndChain),
            StatementFact::RollbackToSavepoint { name } => one(
                Mutation::RollbackToSavepoint(RollbackToSavepointMutation { name: name.clone() }),
            ),
            StatementFact::Savepoint { name } => one(Mutation::Savepoint(SavepointMutation { name: name.clone() })),
            StatementFact::ReleaseSavepoint { name } => one(
                Mutation::ReleaseSavepoint(ReleaseSavepointMutation { name: name.clone() }),
            ),
            StatementFact::PrepareTransaction { .. } => one(Mutation::Opaque(OpaqueMutation::PrepareTransaction)),
            StatementFact::SetTransaction => one(Mutation::Opaque(OpaqueMutation::SetTransaction)),
            StatementFact::SetConstraints => one(Mutation::Opaque(OpaqueMutation::SetConstraints)),
            StatementFact::OpaqueBlock => one(Mutation::Opaque(OpaqueMutation::DoBlock)),
            StatementFact::Execute => one(Mutation::Opaque(OpaqueMutation::Execute)),
            StatementFact::Vacuum { relation, is_full } => {
                let table_id = match relation {
                    Some(name) => Some(Resolver::resolve_lookup_name(name, state)),
                    None => None,
                };
                one(Mutation::Vacuum { table_id, is_full: *is_full })
            },
            StatementFact::SetRole { role, local, is_session_auth } => one(Resolver::resolve_set_role(role, *local, *is_session_auth)),
            _ => none(),
        }
    }

    fn resolve_other(fact: &StatementFact, state: &AnalysisState) -> (r: Vec<Mutation>)
        ensures
            r.deep_view() == resolved_other(state@.data, *fact),
            all_marks(r@) == other_marks(*fact),
    {
        match fact {
            StatementFact::CreateFunction(f) => one(
                Mutation::CreateFunction(
                    CreateFunctionMutation {
                        id: Resolver::resolve_function_id(&f.name, &f.params, state),
                        or_replace: f.or_replace,
                        params: f.params.dup(),
                        return_type: f.return_type.dup(),
                        options: f.options.dup(),
                    },
                ),
            ),
            StatementFact::AlterFunction(f) => {
                let base_id = Resolver::resolve_lookup_name(&f.name, state);
                let id = Resolver::resolve_function_id_by_sig(&base_id, &join_all(&f.params, ","));
                one(Mutation::AlterFunction(AlterFunctionMutation { id, action: f.action.dup() }))
            },
            StatementFact::DropFunction(f) => one(
                Mutation::DropFunction(
                    DropFunctionMutation {
                        signatures: vec_map(&f.signatures, normalize_sig, Ghost(|s: FunctionSigFactView| normalized_sig(s))),
                        if_exists: f.if_exists,
                        cascade: f.cascade,
                    },
                ),
            ),
            StatementFact::CreateProcedure(p) => one(
                Mutation::CreateProcedure(
                    CreateProcedureMutation {
                        id: Resolver::resolve_function_id(&p.name, &p.params, state),
                        or_replace: p.or_replace,
                        params: p.params.dup(),
                        options: p.options.dup(),
                    },
                ),
            ),
            StatementFact::AlterProcedure(p) => {
                let base_id = Resolver::resolve_lookup_name(&p.name, state);
                let id = Resolver::resolve_function_id_by_sig(&base_id, &join_all(&p.params, ","));
                one(Mutation::AlterProcedure(AlterProcedureMutation { id, action: p.action.dup() }))
            },
            StatementFact::DropProcedure(p) => one(
                Mutation::DropProcedure(
                    DropProcedureMutation { signatures: p.signatures.dup(), if_exists: p.if_exists, cascade: p.cascade },
                ),
            ),
            StatementFact::CreatePublication(p) => one(
                Mutation::CreatePublication(
                    CreatePublicationMutation { name: p.name.clone(), scope: p.scope.dup(), params: p.params.dup() },
                ),
            ),
            StatementFact::AlterPublication(p) => one(Mutation::AlterPublication(AlterPublicationMutation { name: p.name.clone() })),
            StatementFact::DropPublication(p) => one(
                Mutation::DropPublication(
                    DropPublicationMutation { names: p.names.dup(), if_exists: p.if_exists, cascade: p.cascade },
                ),
            ),
            StatementFact::CreateSubscription(s) => one(
                Mutation::CreateSubscription(
                    CreateSubscriptionMutation {
                        name: s.name.dup(),
                        connection: s.connection.dup(),
                        publications: s.publications.dup(),
                        params: s.params.dup(),
                    },
                ),
            ),
            StatementFact::AlterSubscription(s) => one(Mutation::AlterSubscription(AlterSubscriptionMutation { name: s.name.clone() })),
            StatementFact::DropSubscription(s) => one(
                Mutation::DropSubscription(DropSubscriptionMutation { name: s.name.clone(), if_exists: s.if_exists }),
            ),
            StatementFact::CreateRole(r) => one(Resolver::resolve_create_role(r)),
            StatementFact::AlterRole(r) => one(Resolver::resolve_alter_role(r)),
            StatementFact::DropRole(r) => one(Resolver::resolve_drop_role(r)),
            StatementFact::Grant(g) => one(Resolver::grant(g, Among::AllNames, state)),
            StatementFact::Revoke(r) => one(Resolver::revoke(r, Among::AllNames, state)),
            StatementFact::CreateDatabase(d) => one(Resolver::resolve_create_database(d)),
            StatementFact::AlterDatabase(d) => one(
                Mutation::AlterDatabase(
                    AlterDatabaseMutation { id: Resolver::resolve_lookup_name(&d.name, state), action: d.action.dup() },
                ),
            ),
            StatementFact::DropDatabase(d) => one(
                Mutation::DropDatabase(
                    DropDatabaseMutation { id: Resolver::resolve_lookup_name(&d.name, state), if_exists: d.if_exists },
                ),
            ),
            _ => none(),
        }
    }

    /// The state transitions that a statement asks for, in order.
    pub fn resolve(fact: &StatementFact, state: &AnalysisState) -> (r: Vec<Mutation>)
        ensures
            r.deep_view() == resolved_statement(state@.data, *fact),
            all_marks(r@) == statement_marks(state@.data, *fact),
    {
        let a = Resolver::resolve_definition(fact, state);
        let b = Resolver::resolve_control(fact, state);
        let c = Resolver::resolve_other(fact, state);
        let ghost (x, y, z) = (a@, b@, c@);
        let r = crate::collections::concat(crate::collections::concat(a, b), c);
        assert(all_marks(r@) =~= all_marks(x) + all_marks(y) + all_marks(z));
        r
    }
}

} // verus!
