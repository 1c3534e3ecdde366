use safe_migrate::cache::DbCache;
use safe_migrate::facts::{
    AlterTableActionFact, CreateRoleFact, GrantFact, GrantTarget, PrivilegeSpec, RoleFact, StatementFact,
};
use safe_migrate::identifiers::{Ident, ObjectId, QualifiedName};
use safe_migrate::model::relation::{Persistence, RelationKind, RelationState};
use safe_migrate::model::types::{TypeKind, TypeState};
use safe_migrate::model::Overlay;
use safe_migrate::mutations::{AlterTableActionMutation, Mutation, ObjectKind, OpaqueMutation, ResolvedGrantTarget};
use safe_migrate::resolver::Resolver;
use safe_migrate::state::AnalysisState;

fn name(text: &str) -> QualifiedName {
    QualifiedName::new(None, Ident::new(text, false))
}

fn in_schema(schema: &str, text: &str) -> QualifiedName {
    QualifiedName::new(Some(Ident::new(schema, false)), Ident::new(text, false))
}

fn start() -> AnalysisState {
    let mut cache = DbCache::new();
    let t = ObjectId::new("public", "t");
    cache.insert_baseline(
        t.clone(),
        RelationState::new(t, ObjectId::new("", "postgres"), 0, None, RelationKind::Table, Persistence::Permanent, 0),
    );
    AnalysisState::new(cache)
}

#[test]
fn unquoted_names_fold_and_quoted_names_keep_their_case() {
    let state = start();
    assert_eq!(Resolver::resolve_creation_name(&in_schema("App", "Orders"), &state), ObjectId::new("app", "orders"));
    let quoted = QualifiedName::new(Some(Ident::new("App", true)), Ident::new("Orders", true));
    assert_eq!(Resolver::resolve_creation_name(&quoted, &state), ObjectId::new("App", "Orders"));
    assert_eq!(Ident::new("\u{c4}B", false).resolve(), "\u{e4}b");
}

#[test]
fn lookup_follows_the_search_path() {
    let state = start();
    let found = Resolver::resolve_lookup_name(&name("T"), &state);
    assert_eq!(found, ObjectId::new("public", "t"));
    assert!(found.inferred_schema);
    assert!(!Resolver::resolve_lookup_name(&in_schema("public", "t"), &state).inferred_schema);
}

#[test]
fn parameter_types_take_their_standard_names() {
    assert_eq!(Resolver::normalize_function_arg_type("int"), "integer");
    assert_eq!(Resolver::normalize_function_arg_type(" INT4 "), "integer");
    assert_eq!(Resolver::normalize_function_arg_type("int8[]"), "bigint[]");
    assert_eq!(Resolver::normalize_function_arg_type("my_type"), "my_type");
}

#[test]
fn rename_keeps_the_schema() {
    let state = start();
    let fact = StatementFact::AlterTable {
        name: name("t"),
        actions: vec![AlterTableActionFact::RenameTo { new_name: Ident::new("U", false) }],
    };
    let mutations = Resolver::resolve(&fact, &state);
    assert_eq!(mutations.len(), 1);
    match &mutations[0] {
        Mutation::Rename(rename) => {
            assert_eq!(rename.old_id, ObjectId::new("public", "t"));
            assert_eq!(rename.new_id, ObjectId::new("public", "u"));
            assert_eq!(rename.new_id.inferred_schema, rename.old_id.inferred_schema);
        }
        other => panic!("unexpected {:?}", other),
    }
}

#[test]
fn every_action_of_an_alter_table_becomes_a_mutation() {
    let state = start();
    let fact = StatementFact::AlterTable {
        name: name("t"),
        actions: vec![
            AlterTableActionFact::SetNotNull { column: "a".to_string() },
            AlterTableActionFact::DropNotNull { column: "b".to_string() },
        ],
    };
    assert_eq!(Resolver::resolve(&fact, &state).len(), 2);
}

#[test]
fn drops_and_transactions_resolve() {
    let state = start();
    let fact = StatementFact::DropTable { name: name("t"), if_exists: true, cascade: false };
    match &Resolver::resolve(&fact, &state)[..] {
        [Mutation::DropTable(drop)] => {
            assert_eq!(drop.ids, vec![ObjectId::new("public", "t")]);
            assert!(drop.if_exists && !drop.cascade);
        }
        other => panic!("unexpected {:?}", other),
    }
    assert_eq!(Resolver::resolve(&StatementFact::BeginTransaction, &state), vec![Mutation::BeginTransaction]);
}

#[test]
fn grants_and_roles_resolve() {
    let state = start();
    let grant = GrantFact {
        privileges: PrivilegeSpec::All,
        target: GrantTarget::Tables(vec![name("t")]),
        grantees: vec![RoleFact::CurrentUser],
        with_grant_option: true,
        role_options: Vec::new(),
        granted_by: None,
    };
    match Resolver::resolve_grant(&grant, &state) {
        Mutation::Grant(g) => {
            assert_eq!(g.target, ResolvedGrantTarget::Tables(vec![ObjectId::new("public", "t")]));
            assert!(g.with_grant_option);
        }
        other => panic!("unexpected {:?}", other),
    }
    let role = CreateRoleFact { name: "app".to_string(), inherits: false, can_login: true };
    match Resolver::resolve_create_role(&role) {
        Mutation::CreateRole(r) => assert!(r.name == "app" && !r.inherits && r.can_login),
        other => panic!("unexpected {:?}", other),
    }
}

#[test]
fn looked_up_objects_are_marked_and_created_ones_are_not() {
    let state = start();
    let drop = StatementFact::DropIndex { names: vec![name("i"), in_schema("app", "j")], if_exists: false, concurrently: false, cascade: false };
    match &Resolver::resolve(&drop, &state)[..] {
        [Mutation::DropIndex(i), Mutation::DropIndex(j)] => {
            assert_eq!(i.ids, vec![ObjectId::new("public", "i")]);
            assert_eq!(j.ids, vec![ObjectId::new("app", "j")]);
            assert!(i.ids[0].inferred_schema);
            assert!(!j.ids[0].inferred_schema);
        }
        other => panic!("unexpected {:?}", other),
    }
    let index = StatementFact::CreateIndex {
        name: name("i"),
        relation: name("t"),
        if_not_exists: false,
        concurrently: false,
        using_method: None,
        has_predicate: false,
        unique: false,
        key_columns: vec!["a".to_string()],
        included_columns: Vec::new(),
        has_expression_keys: false,
        has_default_sort_order: true,
        has_default_opclasses: true,
        has_default_collations: true,
    };
    match &Resolver::resolve(&index, &state)[..] {
        [Mutation::CreateIndex(c)] => {
            assert!(!c.id.inferred_schema);
            assert!(c.table.inferred_schema);
            assert_eq!(c.id, ObjectId::new("public", "i"));
        }
        other => panic!("unexpected {:?}", other),
    }
}

fn foreign_key(references: QualifiedName) -> AlterTableActionFact {
    AlterTableActionFact::AddForeignKey {
        constraint_name: None,
        references,
        from_columns: vec!["a".to_string()],
        to_columns: vec!["b".to_string()],
        not_valid: false,
    }
}

#[test]
fn foreign_key_to_an_absent_table_makes_the_statement_unresolved() {
    let state = start();
    let fact = StatementFact::AlterTable {
        name: name("t"),
        actions: vec![
            AlterTableActionFact::SetNotNull { column: "a".to_string() },
            foreign_key(name("t")),
            foreign_key(in_schema("app", "gone")),
            foreign_key(name("lost")),
        ],
    };
    assert_eq!(
        Resolver::resolve(&fact, &state),
        vec![Mutation::Opaque(OpaqueMutation::UnresolvedReference {
            object_kind: ObjectKind::Table,
            object_name: "app.gone".to_string(),
        })]
    );
    let fact = StatementFact::AlterTable { name: name("t"), actions: vec![foreign_key(name("t"))] };
    match &Resolver::resolve(&fact, &state)[..] {
        [Mutation::AlterTable(a)] => match &a.action {
            AlterTableActionMutation::AddForeignKey { to_table, .. } => assert_eq!(to_table, &ObjectId::new("public", "t")),
            other => panic!("unexpected {:?}", other),
        },
        other => panic!("unexpected {:?}", other),
    }
}

#[test]
fn another_schema_and_another_owner_are_opaque_in_a_statement() {
    let state = start();
    let actions = vec![
        AlterTableActionFact::SetSchema { new_schema: "app".to_string() },
        AlterTableActionFact::OwnerTo { new_owner: RoleFact::CurrentUser },
    ];
    let fact = StatementFact::AlterTable { name: name("t"), actions: actions.clone() };
    let resolved = Resolver::resolve(&fact, &state);
    assert_eq!(resolved.len(), 2);
    for m in &resolved {
        match m {
            Mutation::AlterTable(a) => {
                assert_eq!(a.id, ObjectId::new("public", "t"));
                assert_eq!(a.action, AlterTableActionMutation::Opaque);
            }
            other => panic!("unexpected {:?}", other),
        }
    }
    match &Resolver::resolve_alter_table(&name("t"), &actions, &state)[..] {
        [Mutation::Rename(r), Mutation::AlterTable(a)] => {
            assert_eq!(r.new_id, ObjectId::new("app", "t"));
            assert_eq!(a.action, AlterTableActionMutation::OwnerTo { new_owner: RoleFact::CurrentUser });
        }
        other => panic!("unexpected {:?}", other),
    }
}

#[test]
fn statements_look_names_up_among_all_objects() {
    let mut state = start();
    let s = ObjectId::new("app", "s");
    state.local.types.insert(s.clone(), Overlay::Present(TypeState { id: s.clone(), generation: 0, kind: TypeKind::Base }));
    state.local.search_path = vec!["public".to_string(), "app".to_string()];
    let drop = StatementFact::DropTable { name: name("s"), if_exists: false, cascade: false };
    match &Resolver::resolve(&drop, &state)[..] {
        [Mutation::DropTable(d)] => assert_eq!(d.ids, vec![ObjectId::new("app", "s")]),
        other => panic!("unexpected {:?}", other),
    }
    match Resolver::resolve_drop_table(&vec![name("s")], false, false, &state) {
        Mutation::DropTable(d) => assert_eq!(d.ids, vec![ObjectId::new("public", "s")]),
        other => panic!("unexpected {:?}", other),
    }
}
