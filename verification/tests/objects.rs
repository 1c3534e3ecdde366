use safe_migrate::cache::DbCache;
use safe_migrate::evidence::EvidenceCode;
use safe_migrate::facts::{
    ColumnGeneration, PolicyCommand, PrivilegeFact, PrivilegeSpec, ResetSettingTarget, RoleFact, TimeoutSetting, TimeoutSettingValue,
};
use safe_migrate::identifiers::ObjectId;
use safe_migrate::model::relation::{Privilege, RelationState};
use safe_migrate::model::role::RoleState;
use safe_migrate::model::schema::SchemaState;
use safe_migrate::model::Overlay;
use safe_migrate::mutations::{
    AlterSequenceActionMutation, AlterSequenceMutation, ColumnMutation, CreatePolicyMutation, CreateRoleMutation, CreateSequenceMutation, CreateTable,
    CreateTriggerMutation, DropPolicyMutation, DropSequenceMutation, DropTable, DropTriggerMutation, GrantMutation, Mutation, OpaqueMutation,
    PersistenceMutation, RenameTriggerMutation, ResolvedGrantTarget, RevokeMutation, TimeoutSettingChange,
};
use safe_migrate::state::{AnalysisState, Confidence, MutationResult};

fn id(name: &str) -> ObjectId {
    ObjectId::new("public", name)
}

fn role(name: &str) -> ObjectId {
    ObjectId::new("", name)
}

fn start() -> AnalysisState {
    let mut cache = DbCache::new();
    cache.schemas.insert(
        "public".to_string(),
        SchemaState { name: "public".to_string(), owner: role("postgres"), generation: 0 },
    );
    cache.roles.insert(
        role("postgres"),
        RoleState {
            id: role("postgres"),
            can_login: true,
            is_superuser: true,
            inherits: true,
            member_of: Vec::new(),
            can_administer_membership: Vec::new(),
            can_inherit_from: Vec::new(),
            can_set_role_to: Vec::new(),
        },
    );
    cache.metadata.source_role = Some("postgres".to_string());
    cache.metadata.source_session_role = Some("postgres".to_string());
    let mut state = AnalysisState::new(cache);
    make_table(&mut state, "t");
    state
}

fn run(state: &mut AnalysisState, m: Mutation) -> MutationResult {
    state.apply(&m, None)
}

fn make_table(state: &mut AnalysisState, name: &str) {
    let column = ColumnMutation {
        name: "a".to_string(),
        ty: Some("integer".to_string()),
        not_null: false,
        is_primary_key: false,
        primary_key_constraint_name: None,
        is_unique: false,
        unique_constraint_name: None,
        default: None,
        generation: ColumnGeneration::Ordinary,
    };
    let create = CreateTable {
        id: id(name),
        if_not_exists: false,
        as_select: false,
        persistence: PersistenceMutation::Permanent,
        columns: vec![column],
        foreign_keys: Vec::new(),
        table_constraints: Vec::new(),
        partition_by: None,
        partition_of: None,
        partition_type: None,
    };
    assert_eq!(run(state, Mutation::CreateTable(create)), MutationResult::Applied);
}

fn reason(r: MutationResult) -> String {
    match r {
        MutationResult::Conflict { reason } => reason,
        other => panic!("expected a conflict, got {:?}", other),
    }
}

fn relation<'a>(state: &'a AnalysisState, name: &str) -> &'a RelationState {
    match state.get_relation(&id(name)) {
        Some(Overlay::Present(relation)) => relation,
        _ => panic!("relation is not present"),
    }
}

#[test]
fn triggers_are_created_renamed_and_dropped() {
    let mut state = start();
    let create = |name: &str| {
        Mutation::CreateTrigger(CreateTriggerMutation { name: name.to_string(), table: id("t"), function_id: id("f()") })
    };
    assert_eq!(run(&mut state, create("trg")), MutationResult::Applied);
    assert_eq!(reason(run(&mut state, create("trg"))), "trigger 'trg' already exists on relation 'public.t'");
    assert_eq!(state.local.graph.triggers_on(&id("t")).len(), 1);
    let rename = Mutation::RenameTrigger(RenameTriggerMutation { name: "trg".to_string(), table: id("t"), new_name: "other".to_string() });
    assert_eq!(run(&mut state, rename), MutationResult::Applied);
    assert!(relation(&state, "t").triggers.contains(&"other".to_string()));
    assert!(!relation(&state, "t").triggers.contains(&"trg".to_string()));
    let drop = |name: &str, if_exists: bool| {
        Mutation::DropTrigger(DropTriggerMutation { name: name.to_string(), table: id("t"), if_exists })
    };
    assert_eq!(reason(run(&mut state, drop("trg", false))), "trigger 'trg' does not exist on relation 'public.t'");
    assert_eq!(run(&mut state, drop("trg", true)), MutationResult::Skipped);
    assert_eq!(run(&mut state, drop("other", false)), MutationResult::Applied);
    assert!(!relation(&state, "t").triggers.contains(&"other".to_string()));
    run(&mut state, create("third"));
    let edges = state.local.graph.triggers_on(&id("t")).len();
    run(&mut state, drop("third", false));
    assert_eq!(state.local.graph.triggers_on(&id("t")).len() + 1, edges);
}

#[test]
fn trigger_falls_with_its_table() {
    let mut state = start();
    run(&mut state, Mutation::CreateTrigger(CreateTriggerMutation { name: "trg".to_string(), table: id("t"), function_id: id("f()") }));
    run(&mut state, Mutation::DropTable(DropTable { ids: vec![id("t")], if_exists: false, cascade: true }));
    assert!(!matches!(state.local.triggers.get(&id("t\0trg")), Some(Overlay::Present(_))));
}

#[test]
fn policies_are_created_and_dropped() {
    let mut state = start();
    let create = || {
        Mutation::CreatePolicy(CreatePolicyMutation { name: "p".to_string(), table: id("t"), permissive: true, command: PolicyCommand::All })
    };
    assert_eq!(run(&mut state, create()), MutationResult::Applied);
    assert!(relation(&state, "t").policies.contains(&"p".to_string()));
    reason(run(&mut state, create()));
    let drop = |if_exists: bool| Mutation::DropPolicy(DropPolicyMutation { name: "p".to_string(), table: id("t"), if_exists });
    assert_eq!(run(&mut state, drop(false)), MutationResult::Applied);
    reason(run(&mut state, drop(false)));
    assert_eq!(run(&mut state, drop(true)), MutationResult::Skipped);
}

#[test]
fn owned_sequence_follows_its_table() {
    let mut state = start();
    let create = Mutation::CreateSequence(CreateSequenceMutation { id: id("s"), if_not_exists: false, owned_by: Some((id("t"), "a".to_string())) });
    assert_eq!(run(&mut state, create.clone()), MutationResult::Applied);
    assert_eq!(reason(run(&mut state, create)), "relation 'public.s' already exists");
    let missing = Mutation::CreateSequence(CreateSequenceMutation { id: id("r"), if_not_exists: false, owned_by: Some((id("t"), "z".to_string())) });
    assert_eq!(reason(run(&mut state, missing)), "column 'public.t.z' does not exist");
    run(&mut state, Mutation::DropTable(DropTable { ids: vec![id("t")], if_exists: false, cascade: false }));
    assert!(!state.sequence_is_present(&id("s")));
}

#[test]
fn sequences_are_renamed_and_dropped() {
    let mut state = start();
    run(&mut state, Mutation::CreateSequence(CreateSequenceMutation { id: id("s"), if_not_exists: false, owned_by: None }));
    let rename = Mutation::AlterSequence(AlterSequenceMutation {
        id: id("s"),
        if_exists: false,
        action: AlterSequenceActionMutation::RenameTo(id("r")),
    });
    assert_eq!(run(&mut state, rename), MutationResult::Applied);
    assert!(state.sequence_is_present(&id("r")));
    assert!(!state.sequence_is_present(&id("s")));
    let drop = |name: &str, if_exists: bool| Mutation::DropSequence(DropSequenceMutation { ids: vec![id(name)], if_exists, cascade: false });
    assert_eq!(run(&mut state, drop("r", false)), MutationResult::Applied);
    assert_eq!(reason(run(&mut state, drop("r", false))), "sequence 'public.r' does not exist");
    assert_eq!(run(&mut state, drop("r", true)), MutationResult::Skipped);
}

fn named(name: &str) -> RoleFact {
    RoleFact::Named { name: name.to_string(), via_legacy_group_syntax: false }
}

fn grant(target: ResolvedGrantTarget, grantee: &str) -> Mutation {
    Mutation::Grant(GrantMutation {
        privileges: PrivilegeSpec::List(vec![PrivilegeFact::Select]),
        target,
        grantees: vec![named(grantee)],
        with_grant_option: false,
        role_options: Vec::new(),
        granted_by: None,
    })
}

fn revoke(target: ResolvedGrantTarget, revokee: &str) -> Mutation {
    Mutation::Revoke(RevokeMutation {
        grant_option_only: false,
        role_option: None,
        privileges: PrivilegeSpec::List(vec![PrivilegeFact::Select]),
        target,
        revokees: vec![named(revokee)],
        granted_by: None,
        cascade: false,
    })
}

fn make_role(state: &mut AnalysisState, name: &str) {
    let create = Mutation::CreateRole(CreateRoleMutation { name: name.to_string(), inherits: true, can_login: false });
    assert_eq!(run(state, create), MutationResult::Applied);
}

#[test]
fn privileges_are_granted_and_revoked() {
    let mut state = start();
    make_role(&mut state, "app");
    let tables = || ResolvedGrantTarget::Tables(vec![id("t")]);
    assert_eq!(run(&mut state, grant(tables(), "app")), MutationResult::Applied);
    assert!(relation(&state, "t").privileges.has_direct_privilege(&role("app"), Privilege::Select));
    assert!(!relation(&state, "t").privileges.has_direct_privilege(&role("app"), Privilege::Insert));
    assert!(!relation(&state, "t").privileges.has_direct_grant_option(&role("app"), Privilege::Select));
    assert_eq!(run(&mut state, revoke(tables(), "app")), MutationResult::Applied);
    assert!(!relation(&state, "t").privileges.has_direct_privilege(&role("app"), Privilege::Select));
}

#[test]
fn memberships_are_granted_revoked_and_not_circular() {
    let mut state = start();
    make_role(&mut state, "child");
    make_role(&mut state, "parent");
    let roles = |name: &str| ResolvedGrantTarget::Roles(vec![role(name)]);
    assert_eq!(run(&mut state, grant(roles("parent"), "child")), MutationResult::Applied);
    let member_of = |state: &AnalysisState| match state.local.roles.get(&role("child")) {
        Some(Overlay::Present(child)) => child.member_of.clone(),
        _ => panic!("role is not present"),
    };
    assert_eq!(member_of(&state), vec![role("parent")]);
    reason(run(&mut state, grant(roles("child"), "parent")));
    assert_eq!(run(&mut state, revoke(roles("parent"), "child")), MutationResult::Applied);
    assert!(member_of(&state).is_empty());
}

#[test]
fn local_timeout_ends_with_the_transaction() {
    let mut state = start();
    let set = |value: TimeoutSettingValue, local: bool| {
        Mutation::TimeoutSetting(TimeoutSettingChange { setting: TimeoutSetting::Lock, value, local })
    };
    run(&mut state, set(TimeoutSettingValue::Milliseconds(5), false));
    assert_eq!(state.effective_lock_timeout(), Some(5));
    run(&mut state, Mutation::BeginTransaction);
    run(&mut state, set(TimeoutSettingValue::Milliseconds(9), true));
    assert_eq!(state.effective_lock_timeout(), Some(9));
    run(&mut state, Mutation::CommitTransaction);
    assert_eq!(state.effective_lock_timeout(), Some(5));
    run(&mut state, Mutation::ResetSettings(ResetSettingTarget::LockTimeout));
    assert_eq!(state.effective_lock_timeout(), Some(0));
    assert_eq!(state.effective_statement_timeout(), Some(0));
}

#[test]
fn unsupported_statement_makes_the_chain_uncertain() {
    let mut state = start();
    assert_eq!(*state.confidence(), Confidence::Exact);
    assert_eq!(run(&mut state, Mutation::Opaque(OpaqueMutation::UnsupportedStatement)), MutationResult::Applied);
    assert_eq!(*state.confidence(), Confidence::Tainted);
    assert_eq!(state.evidence()[0].code, EvidenceCode::UnsupportedStatement);
}

#[test]
fn recreated_table_is_compared_with_the_one_before_the_transaction() {
    let mut state = start();
    run(&mut state, Mutation::BeginTransaction);
    run(&mut state, Mutation::DropTable(DropTable { ids: vec![id("t")], if_exists: false, cascade: false }));
    make_table(&mut state, "t");
    assert!(!state.column_was_added_in_transaction(&id("t"), "a"));
    assert!(state.column_was_added_in_transaction(&id("t"), "b"));
    make_table(&mut state, "u");
    assert!(state.column_was_added_in_transaction(&id("u"), "a"));
    run(&mut state, Mutation::RollbackTransaction);
    assert!(state.relation_is_present(&id("t")));
    assert!(!state.relation_is_present(&id("u")));
}

#[test]
fn relation_is_owned_by_the_role_that_created_it() {
    let state = start();
    assert!(state.relation_is_owned_by(&id("t"), &"postgres".to_string()));
    assert!(!state.relation_is_owned_by(&id("t"), &"app".to_string()));
}
