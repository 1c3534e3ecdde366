use safe_migrate::cache::DbCache;
use safe_migrate::facts::{ColumnGeneration, RoleFact, SearchPathTarget, TableConstraintFact};
use safe_migrate::graph::{DependencyEdge, DependencyKind};
use safe_migrate::identifiers::ObjectId;
use safe_migrate::model::constraint::ConstraintKind;
use safe_migrate::model::schema::SchemaState;
use safe_migrate::mutations::{
    AlterSchemaMutation, AlterTable, AlterTableActionMutation, ColumnMutation, CreateIndex, CreateRoleMutation, CreateSchemaMutation, CreateTable,
    CreateView, DropIndex, DropRoleMutation, DropSchemaMutation, DropTable, FkMutation, Mutation, PersistenceMutation, ReleaseSavepointMutation, Rename,
    RollbackToSavepointMutation, SavepointMutation, SearchPathChange,
};
use safe_migrate::state::{AnalysisState, MutationResult};

fn start() -> AnalysisState {
    let mut cache = DbCache::new();
    cache.schemas.insert(
        "public".to_string(),
        SchemaState { name: "public".to_string(), owner: ObjectId::new("", "postgres"), generation: 0 },
    );
    AnalysisState::new(cache)
}

fn id(name: &str) -> ObjectId {
    ObjectId::new("public", name)
}

fn column(name: &str) -> ColumnMutation {
    ColumnMutation {
        name: name.to_string(),
        ty: Some("integer".to_string()),
        not_null: false,
        is_primary_key: false,
        primary_key_constraint_name: None,
        is_unique: false,
        unique_constraint_name: None,
        default: None,
        generation: ColumnGeneration::Ordinary,
    }
}

fn table(table: ObjectId, columns: Vec<ColumnMutation>) -> CreateTable {
    CreateTable {
        id: table,
        if_not_exists: false,
        as_select: false,
        persistence: PersistenceMutation::Permanent,
        columns,
        foreign_keys: Vec::new(),
        table_constraints: Vec::new(),
        partition_by: None,
        partition_of: None,
        partition_type: None,
    }
}

fn keyed(name: &str) -> CreateTable {
    let mut key = column("id");
    key.is_primary_key = true;
    table(id(name), vec![key, column("note")])
}

fn run(state: &mut AnalysisState, m: Mutation) -> MutationResult {
    state.apply(&m, None)
}

fn create(state: &mut AnalysisState, t: CreateTable) -> MutationResult {
    run(state, Mutation::CreateTable(t))
}

fn reason(r: MutationResult) -> String {
    match r {
        MutationResult::Conflict { reason } => reason,
        other => panic!("expected a conflict, got {:?}", other),
    }
}

fn drop_table(name: &str, cascade: bool) -> Mutation {
    Mutation::DropTable(DropTable { ids: vec![id(name)], if_exists: false, cascade })
}

fn alter(name: &str, action: AlterTableActionMutation) -> Mutation {
    Mutation::AlterTable(AlterTable { id: id(name), action })
}

#[test]
fn created_table_is_present_and_cannot_be_created_again() {
    let mut state = start();
    assert_eq!(create(&mut state, keyed("t")), MutationResult::Applied);
    assert!(state.relation_is_present(&id("t")));
    assert!(!state.relation_is_present(&id("u")));
    let again = reason(create(&mut state, keyed("t")));
    assert!(again.contains("already exists"), "{again}");
    let mut quiet = keyed("t");
    quiet.if_not_exists = true;
    assert_eq!(create(&mut state, quiet), MutationResult::Skipped);
}

#[test]
fn primary_key_gets_its_generated_name() {
    let mut state = start();
    create(&mut state, keyed("orders"));
    let key = state.local.constraints.get(&(id("orders"), "orders_pkey".to_string())).unwrap();
    assert_eq!(key.kind, ConstraintKind::PrimaryKey);
    assert!(key.validated);
}

#[test]
fn generated_constraint_names_fit_sixty_three_bytes() {
    let mut state = start();
    let long = "a".repeat(80);
    create(&mut state, keyed(&long));
    let name = format!("{}_pkey", "a".repeat(58));
    assert_eq!(name.len(), 63);
    assert!(state.local.constraints.contains_key(&(id(&long), name)));
}

#[test]
fn two_primary_keys_are_refused() {
    let mut state = start();
    let mut t = keyed("t");
    t.table_constraints.push(TableConstraintFact::PrimaryKey { constraint_name: None, columns: vec!["note".to_string()] });
    reason(create(&mut state, t));
    assert!(!state.relation_is_present(&id("t")));
}

#[test]
fn serial_column_brings_its_sequence() {
    let mut state = start();
    let mut key = column("id");
    key.generation = ColumnGeneration::Serial;
    create(&mut state, table(id("t"), vec![key]));
    assert!(state.sequence_is_present(&id("t_id_seq")));
    run(&mut state, drop_table("t", false));
    assert!(!state.sequence_is_present(&id("t_id_seq")));
}

fn with_child(state: &mut AnalysisState) {
    create(state, keyed("parent"));
    let mut child = table(id("child"), vec![column("parent_id")]);
    child.foreign_keys.push(FkMutation {
        constraint_name: None,
        to_table: id("parent"),
        from_columns: vec!["parent_id".to_string()],
        to_columns: vec!["id".to_string()],
    });
    assert_eq!(create(state, child), MutationResult::Applied);
}

#[test]
fn needed_table_is_dropped_only_with_cascade() {
    let mut state = start();
    with_child(&mut state);
    assert!(state.local.constraints.contains_key(&(id("child"), "child_parent_id_fkey".to_string())));
    reason(run(&mut state, drop_table("parent", false)));
    assert!(state.relation_is_present(&id("parent")));
    assert_eq!(run(&mut state, drop_table("parent", true)), MutationResult::Applied);
    assert!(!state.relation_is_present(&id("parent")));
    assert!(state.relation_is_present(&id("child")));
    assert!(!state.local.constraints.contains_key(&(id("child"), "child_parent_id_fkey".to_string())));
    assert!(state.local.graph.edges().iter().all(|e| e.referenced != id("parent")));
}

#[test]
fn foreign_key_into_columns_without_a_key_is_refused() {
    let mut state = start();
    create(&mut state, keyed("parent"));
    let mut child = table(id("child"), vec![column("parent_note")]);
    child.foreign_keys.push(FkMutation {
        constraint_name: None,
        to_table: id("parent"),
        from_columns: vec!["parent_note".to_string()],
        to_columns: vec!["note".to_string()],
    });
    reason(create(&mut state, child));
    assert!(!state.relation_is_present(&id("child")));
}

#[test]
fn view_falls_with_its_table() {
    let mut state = start();
    create(&mut state, keyed("t"));
    let view = Mutation::CreateView(CreateView { id: id("v"), or_replace: false, depends_on: vec![id("t")] });
    assert_eq!(run(&mut state, view), MutationResult::Applied);
    assert!(state.get_cascade_closure(&id("t")).dropped_relations.contains(&id("v")));
    reason(run(&mut state, drop_table("t", false)));
    run(&mut state, drop_table("t", true));
    assert!(!state.relation_is_present(&id("v")));
}

#[test]
fn renamed_table_is_reached_under_its_new_name() {
    let mut state = start();
    with_child(&mut state);
    assert_eq!(run(&mut state, Mutation::Rename(Rename { old_id: id("parent"), new_id: id("root") })), MutationResult::Applied);
    assert!(!state.relation_is_present(&id("parent")));
    assert!(state.relation_is_present(&id("root")));
    assert_eq!(state.local.graph.resolve_rename(&id("parent")), &id("root"));
    assert!(state.local.constraints.contains_key(&(id("root"), "parent_pkey".to_string())));
    reason(run(&mut state, drop_table("root", false)));
}

#[test]
fn columns_are_added_renamed_and_dropped() {
    let mut state = start();
    create(&mut state, keyed("t"));
    let add = AlterTableActionMutation::AddColumn {
        name: "extra".to_string(),
        ty: Some("text".to_string()),
        if_not_exists: false,
        not_null: false,
        default: None,
        depends_on: None,
        generation: ColumnGeneration::Ordinary,
    };
    assert_eq!(run(&mut state, alter("t", add.clone())), MutationResult::Applied);
    reason(run(&mut state, alter("t", add)));
    let rename = AlterTableActionMutation::RenameColumn { from: "extra".to_string(), to: "more".to_string() };
    assert_eq!(run(&mut state, alter("t", rename)), MutationResult::Applied);
    let pre = state.capture_pre_state();
    let t = pre.relations.get(&id("t")).unwrap();
    assert!(t.has_column("more") && !t.has_column("extra"));
    let drop = AlterTableActionMutation::DropColumn { name: "more".to_string(), if_exists: false, cascade: false };
    assert_eq!(run(&mut state, alter("t", drop.clone())), MutationResult::Applied);
    reason(run(&mut state, alter("t", drop)));
}

#[test]
fn key_column_in_use_is_not_dropped_without_cascade() {
    let mut state = start();
    with_child(&mut state);
    let drop = AlterTableActionMutation::DropColumn { name: "id".to_string(), if_exists: false, cascade: false };
    reason(run(&mut state, alter("parent", drop)));
}

#[test]
fn constraint_that_was_dropped_is_gone() {
    let mut state = start();
    with_child(&mut state);
    let drop = AlterTableActionMutation::DropConstraint { name: "child_parent_id_fkey".to_string(), if_exists: false, cascade: false };
    assert_eq!(run(&mut state, alter("child", drop.clone())), MutationResult::Applied);
    assert!(!state.local.constraints.contains_key(&(id("child"), "child_parent_id_fkey".to_string())));
    reason(run(&mut state, alter("child", drop)));
    assert_eq!(run(&mut state, drop_table("parent", false)), MutationResult::Applied);
}

fn index(name: &str) -> Mutation {
    Mutation::CreateIndex(CreateIndex {
        id: id(name),
        table: id("t"),
        if_not_exists: false,
        concurrently: false,
        using_method: None,
        has_predicate: false,
        unique: true,
        key_columns: vec!["note".to_string()],
        included_columns: Vec::new(),
        has_expression_keys: false,
        has_default_sort_order: true,
        has_default_opclasses: true,
        has_default_collations: true,
    })
}

#[test]
fn unique_index_makes_rows_identifiable_until_it_is_dropped() {
    let mut state = start();
    create(&mut state, table(id("t"), vec![column("note")]));
    assert!(!state.has_usable_unique_index(&id("t")));
    assert_eq!(run(&mut state, index("t_note_idx")), MutationResult::Applied);
    assert!(state.index_is_present(&id("t_note_idx")));
    assert!(state.has_usable_unique_index(&id("t")));
    let drop = Mutation::DropIndex(DropIndex { ids: vec![id("t_note_idx")], if_exists: false, concurrently: false, cascade: false });
    assert_eq!(run(&mut state, drop), MutationResult::Applied);
    assert!(!state.index_is_present(&id("t_note_idx")));
    assert!(!state.has_usable_unique_index(&id("t")));
}

#[test]
fn rollback_restores_what_the_transaction_changed() {
    let mut state = start();
    create(&mut state, keyed("t"));
    let before = format!("{:?}", state.capture_pre_state());
    run(&mut state, Mutation::BeginTransaction);
    with_child(&mut state);
    run(&mut state, drop_table("t", false));
    run(&mut state, Mutation::RollbackTransaction);
    assert_eq!(format!("{:?}", state.capture_pre_state()), before);
    assert_eq!(state.transaction_depth(), 0);
}

#[test]
fn savepoint_restores_what_came_after_it() {
    let mut state = start();
    run(&mut state, Mutation::BeginTransaction);
    create(&mut state, keyed("kept"));
    run(&mut state, Mutation::Savepoint(SavepointMutation { name: "s".to_string() }));
    create(&mut state, keyed("undone"));
    let back = Mutation::RollbackToSavepoint(RollbackToSavepointMutation { name: "s".to_string() });
    assert_eq!(run(&mut state, back), MutationResult::Applied);
    assert!(state.relation_is_present(&id("kept")));
    assert!(!state.relation_is_present(&id("undone")));
    let release = Mutation::ReleaseSavepoint(ReleaseSavepointMutation { name: "s".to_string() });
    assert_eq!(run(&mut state, release), MutationResult::Applied);
    run(&mut state, Mutation::RollbackTransaction);
    assert!(!state.relation_is_present(&id("kept")));
}

#[test]
fn conflict_aborts_the_transaction_and_its_commit_rolls_back() {
    let mut state = start();
    run(&mut state, Mutation::BeginTransaction);
    create(&mut state, keyed("t"));
    reason(create(&mut state, keyed("t")));
    assert!(state.transaction_is_aborted());
    assert_eq!(create(&mut state, keyed("u")), MutationResult::NotExecuted);
    run(&mut state, Mutation::CommitTransaction);
    assert!(!state.transaction_is_aborted());
    assert!(!state.relation_is_present(&id("t")));
    assert!(!state.relation_is_present(&id("u")));
}

#[test]
fn conflict_outside_of_a_transaction_aborts_nothing() {
    let mut state = start();
    create(&mut state, keyed("t"));
    reason(create(&mut state, keyed("t")));
    assert!(!state.transaction_is_aborted());
    assert_eq!(create(&mut state, keyed("u")), MutationResult::Applied);
}

#[test]
fn rolled_back_statement_leaves_nothing() {
    let mut state = start();
    create(&mut state, keyed("t"));
    let before = format!("{:?}", state.capture_pre_state());
    for m in [drop_table("t", true), drop_table("gone", false), index("i")] {
        run(&mut state, Mutation::BeginTransaction);
        run(&mut state, m);
        run(&mut state, Mutation::RollbackTransaction);
        assert_eq!(format!("{:?}", state.capture_pre_state()), before);
        assert!(!state.transaction_is_aborted());
        assert_eq!(state.transaction_depth(), 0);
    }
}

fn drop_index(name: &str) -> Mutation {
    Mutation::DropIndex(DropIndex { ids: vec![id(name)], if_exists: false, concurrently: false, cascade: false })
}

#[test]
fn edges_that_were_removed_for_good_do_not_come_back() {
    let mut state = start();
    create(&mut state, keyed("t"));
    with_child(&mut state);
    run(&mut state, index("t_note_idx"));
    let edges = state.local.graph.edge_count();
    let constraint = (id("child"), "child_parent_id_fkey".to_string());
    let drop = AlterTableActionMutation::DropConstraint { name: constraint.1.clone(), if_exists: false, cascade: false };
    for m in [drop_index("t_note_idx"), alter("child", drop)] {
        run(&mut state, Mutation::BeginTransaction);
        assert_eq!(run(&mut state, m), MutationResult::Applied);
        run(&mut state, Mutation::RollbackTransaction);
    }
    assert!(!state.index_is_present(&id("t_note_idx")));
    assert!(state.local.constraints.contains_key(&constraint));
    assert_eq!(state.local.graph.edge_count(), edges - 2);
}

#[test]
fn removed_edges_come_back_only_with_a_record_of_all_edges() {
    for (first, comes_back) in [
        (Mutation::CreateTable(keyed("u")), false),
        (alter("t", AlterTableActionMutation::SetNotNull { column: "note".to_string() }), false),
        (alter("t", AlterTableActionMutation::OwnerTo { new_owner: RoleFact::CurrentUser }), false),
        (alter("t", AlterTableActionMutation::SetDefault { column: "note".to_string(), default: None }), true),
    ] {
        let mut state = start();
        create(&mut state, keyed("t"));
        run(&mut state, index("t_note_idx"));
        run(&mut state, Mutation::BeginTransaction);
        assert_eq!(run(&mut state, first), MutationResult::Applied);
        assert_eq!(run(&mut state, drop_index("t_note_idx")), MutationResult::Applied);
        run(&mut state, Mutation::RollbackTransaction);
        assert_eq!(state.index_is_present(&id("t_note_idx")), comes_back);
    }
}

#[test]
fn statement_is_undone_at_its_checkpoint() {
    let mut state = start();
    assert_eq!(state.transaction_undo_checkpoint(), None);
    run(&mut state, Mutation::BeginTransaction);
    create(&mut state, keyed("t"));
    let (depth, len) = state.transaction_undo_checkpoint().unwrap();
    create(&mut state, keyed("u"));
    assert_eq!(state.rollback_to_transaction_undo_checkpoint(depth, len), Ok(()));
    assert!(state.relation_is_present(&id("t")));
    assert!(!state.relation_is_present(&id("u")));
    assert_eq!(
        state.rollback_to_transaction_undo_checkpoint(depth + 1, len),
        Err("statement changed transaction depth while using an undo checkpoint")
    );
}

#[test]
fn schemas_are_created_renamed_and_dropped() {
    let mut state = start();
    let make = Mutation::CreateSchema(CreateSchemaMutation { name: "app".to_string(), if_not_exists: false, authorization: None });
    assert_eq!(run(&mut state, make.clone()), MutationResult::Applied);
    assert_eq!(reason(run(&mut state, make)), "schema 'app' already exists");
    create(&mut state, table(ObjectId::new("app", "t"), vec![column("a")]));
    let rename = Mutation::AlterSchema(AlterSchemaMutation::Rename { old_name: "app".to_string(), new_name: "core".to_string() });
    assert_eq!(run(&mut state, rename), MutationResult::Applied);
    assert!(state.relation_is_present(&ObjectId::new("core", "t")));
    assert!(!state.relation_is_present(&ObjectId::new("app", "t")));
    let drop = |cascade: bool| Mutation::DropSchema(DropSchemaMutation { names: vec!["core".to_string()], if_exists: false, cascade });
    assert_eq!(
        reason(run(&mut state, drop(false))),
        "schema(s) [\"core\"] still contain objects; use CASCADE to drop them"
    );
    assert_eq!(run(&mut state, drop(true)), MutationResult::Applied);
    assert!(!state.schema_is_present(&"core".to_string()));
    assert!(!state.relation_is_present(&ObjectId::new("core", "t")));
    assert_eq!(reason(run(&mut state, drop(true))), "schema 'core' does not exist");
}

#[test]
fn local_search_path_ends_with_the_transaction() {
    let mut state = start();
    run(&mut state, Mutation::CreateSchema(CreateSchemaMutation { name: "app".to_string(), if_not_exists: false, authorization: None }));
    let change = |local: bool| {
        Mutation::SearchPath(SearchPathChange { target: SearchPathTarget::Schemas(vec!["app".to_string()]), local })
    };
    let before = state.search_path().clone();
    run(&mut state, Mutation::BeginTransaction);
    run(&mut state, change(true));
    assert_eq!(state.search_path(), &vec!["app".to_string()]);
    run(&mut state, Mutation::CommitTransaction);
    assert_eq!(state.search_path(), &before);
    run(&mut state, change(false));
    assert_eq!(state.search_path(), &vec!["app".to_string()]);
}

#[test]
fn roles_are_created_switched_and_dropped() {
    let mut state = start();
    let make = || Mutation::CreateRole(CreateRoleMutation { name: "app".to_string(), inherits: true, can_login: true });
    assert_eq!(run(&mut state, make()), MutationResult::Applied);
    reason(run(&mut state, make()));
    let switch = Mutation::SwitchRole {
        role: Some(RoleFact::Named { name: "app".to_string(), via_legacy_group_syntax: false }),
        local: false,
        is_session_auth: false,
    };
    run(&mut state, switch);
    assert_eq!(state.local.current_role, "app");
    run(&mut state, Mutation::SwitchRole { role: None, local: false, is_session_auth: false });
    assert_ne!(state.local.current_role, "app");
    let drop = Mutation::DropRole(DropRoleMutation { names: vec!["app".to_string()], if_exists: false });
    assert_eq!(run(&mut state, drop.clone()), MutationResult::Applied);
    reason(run(&mut state, drop));
}

#[test]
fn start_holds_the_rows_of_the_catalog() {
    let state = start();
    assert!(state.schema_is_present(&"public".to_string()));
    assert!(state.baseline_is_available());
    assert_eq!(state.transaction_depth(), 0);
    assert_eq!(state.effective_pg_version_num(160_000), 160_000);
}

#[test]
fn objects_outside_the_loaded_schemas_are_named() {
    let mut cache = DbCache::new();
    cache.metadata.schemas = Some(vec!["app".to_string()]);
    let state = AnalysisState::new(cache);
    assert_eq!(state.baseline_scope_omits_displayed_object("other.t"), Some("other".to_string()));
    assert_eq!(state.baseline_scope_omits_displayed_object("app.t"), None);
    assert_eq!(state.baseline_scope_omits_displayed_object("t"), None);
    assert_eq!(start().baseline_scope_omits_displayed_object("other.t"), None);
}

#[test]
fn column_is_new_only_in_its_transaction() {
    let mut state = start();
    create(&mut state, keyed("t"));
    run(&mut state, Mutation::BeginTransaction);
    let add = AlterTableActionMutation::AddColumn {
        name: "extra".to_string(),
        ty: Some("text".to_string()),
        if_not_exists: false,
        not_null: false,
        default: None,
        depends_on: None,
        generation: ColumnGeneration::Ordinary,
    };
    run(&mut state, alter("t", add));
    assert!(state.column_was_added_in_transaction(&id("t"), "extra"));
    assert!(!state.column_was_added_in_transaction(&id("t"), "note"));
    run(&mut state, Mutation::CommitTransaction);
    assert!(!state.column_was_added_in_transaction(&id("t"), "extra"));
}

#[test]
fn stale_edges_do_not_cascade() {
    let mut state = start();
    create(&mut state, keyed("t"));
    create(&mut state, keyed("v"));
    state.local.graph.add_edge(DependencyEdge::new(
        id("v"),
        id("t"),
        DependencyKind::ViewDependency { view_generation: 999, referenced_column: None },
    ));
    assert_eq!(state.get_cascade_closure(&id("t")).dropped_relations.len(), 1);
}

#[test]
fn dropped_constraint_counts_as_a_change_of_its_table() {
    let mut state = start();
    with_child(&mut state);
    run(&mut state, Mutation::BeginTransaction);
    assert!(!state.column_was_added_in_transaction(&id("child"), "absent"));
    let drop = AlterTableActionMutation::DropConstraint { name: "child_parent_id_fkey".to_string(), if_exists: false, cascade: false };
    assert_eq!(run(&mut state, alter("child", drop)), MutationResult::Applied);
    assert!(state.column_was_added_in_transaction(&id("child"), "absent"));
    assert!(!state.column_was_added_in_transaction(&id("child"), "parent_id"));
}
