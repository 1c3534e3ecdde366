use safe_migrate::cache::DbCache;
use safe_migrate::facts::{AttributeFact, ConnectionTarget, PublicationObjectFact};
use safe_migrate::identifiers::{Ident, ObjectId, QualifiedName};
use safe_migrate::model::function::{FunctionState, RoutineKind, SecurityMode, Volatility};
use safe_migrate::model::replication::SubscriptionState;
use safe_migrate::state::type_refs::{remapped_type_display, type_reference_name};
use safe_migrate::state::AnalysisState;

fn option(name: &str, value: &str) -> AttributeFact {
    AttributeFact { name: name.to_string(), value: value.to_string() }
}

#[test]
fn booleans_are_read_by_unique_prefix() {
    assert_eq!(AnalysisState::postgres_boolean(" TRUE "), Some(true));
    assert_eq!(AnalysisState::postgres_boolean("y"), Some(true));
    assert_eq!(AnalysisState::postgres_boolean("on"), Some(true));
    assert_eq!(AnalysisState::postgres_boolean("of"), Some(false));
    assert_eq!(AnalysisState::postgres_boolean("f"), Some(false));
    assert_eq!(AnalysisState::postgres_boolean("0"), Some(false));
    assert_eq!(AnalysisState::postgres_boolean("o"), None);
    assert_eq!(AnalysisState::postgres_boolean(""), None);
    assert_eq!(AnalysisState::postgres_boolean("maybe"), None);
}

#[test]
fn last_option_of_a_name_counts() {
    let params = vec![option("enabled", "true"), option("Enabled", "false")];
    assert_eq!(AnalysisState::subscription_option(Some(&params), "ENABLED"), Some(&"false".to_string()));
    assert_eq!(AnalysisState::subscription_boolean_option(Some(&params), "enabled"), Some(false));
    assert_eq!(AnalysisState::subscription_option(None, "enabled"), None);
    let names = vec!["enabled".to_string()];
    assert_eq!(AnalysisState::validate_subscription_boolean_options(Some(&params), &names), Ok(()));
    assert_eq!(
        AnalysisState::validate_subscription_boolean_options(Some(&vec![option("enabled", "maybe")]), &names),
        Err("subscription option 'enabled' requires a PostgreSQL boolean value".to_string())
    );
}

#[test]
fn option_that_was_set_is_read_back() {
    let mut subscription = SubscriptionState {
        name: "s".to_string(),
        connection: ConnectionTarget::Literal(None),
        publications: Vec::new(),
        params: Some(vec![option("slot_name", "a"), option("enabled", "true")]),
    };
    AnalysisState::set_subscription_option(&mut subscription, &option("SLOT_NAME", "b"));
    assert_eq!(subscription.params, Some(vec![option("enabled", "true"), option("SLOT_NAME", "b")]));
    assert_eq!(AnalysisState::subscription_option(subscription.params.as_ref(), "slot_name"), Some(&"b".to_string()));
}

#[test]
fn published_objects_have_distinct_keys() {
    let state = AnalysisState::new(DbCache::new());
    let table = PublicationObjectFact::Table {
        name: QualifiedName::new(Some(Ident::new("app", false)), Ident::new("t", false)),
        only: false,
        include_partitions: false,
        columns: None,
        row_filter: None,
    };
    assert_eq!(state.publication_object_key(&table), "table\0app.t");
    let schema = PublicationObjectFact::SchemaTables { schema: "app".to_string(), row_filter: None };
    assert_eq!(state.publication_object_key(&schema), "schema\0app");
    assert_eq!(state.publication_object_key(&PublicationObjectFact::Unknown), "unknown");
}

#[test]
fn moved_routine_keeps_what_it_was() {
    let from = ObjectId::new("app", "f(integer)");
    let to = ObjectId::new("app", "g(integer)");
    let mut cache = DbCache::new();
    cache.functions.insert(
        from.clone(),
        FunctionState {
            id: from.clone(),
            routine_kind: RoutineKind::Function,
            arg_types: vec!["integer".to_string()],
            arg_type_ids: Vec::new(),
            return_type: "text".to_string(),
            return_type_id: None,
            volatility: Volatility::Stable,
            language: "sql".to_string(),
            security: SecurityMode::Definer,
        },
    );
    let mut state = AnalysisState::new(cache);
    assert!(state.validate_function_move(&from, &to).is_ok());
    state.move_function(&from, &to);
    assert!(!state.routine_is_present(&from));
    assert!(state.routine_is_present(&to));
}

#[test]
fn type_names_are_quoted_where_they_must_be() {
    assert_eq!(type_reference_name(&ObjectId::new("app", "mood"), true), "app.mood");
    assert_eq!(type_reference_name(&ObjectId::new("app", "mood"), false), "mood");
    assert_eq!(type_reference_name(&ObjectId::new("App", "Mood"), true), "\"App\".\"Mood\"");
    assert_eq!(remapped_type_display("old[]", &ObjectId::new("app", "mood"), true), "app.mood[]");
}
