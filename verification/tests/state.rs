use safe_migrate::cache::{CatalogCoverage, CatalogFamily, ConstraintKeyCache, DbCache, ForeignKeyCache};
use safe_migrate::collections::Dup;
use safe_migrate::evidence::{EvidenceCode, EvidenceRecord, EvidenceScope};
use safe_migrate::facts::{FunctionSigFact, RoleFact};
use safe_migrate::graph::{DependencyEdge, DependencyKind};
use safe_migrate::identifiers::{Ident, ObjectId, QualifiedName};
use safe_migrate::model::column::Column;
use safe_migrate::model::constraint::{ConstraintKind, ConstraintState};
use safe_migrate::model::function::{FunctionState, RoutineKind, SecurityMode, Volatility};
use safe_migrate::model::relation::{Persistence, RelationKind, RelationState};
use safe_migrate::model::role::RoleState;
use safe_migrate::model::schema::SchemaState;
use safe_migrate::model::sequence::{SequenceKind, SequenceState};
use safe_migrate::model::trigger::{TriggerEnableMode, TriggerState};
use safe_migrate::model::types::{TypeKind, TypeState};
use safe_migrate::model::Overlay;
use safe_migrate::mutations::{
    AlterRoleMutation, AlterTable, AlterTableActionMutation, CreateIndex, CreateRoleMutation, CreateSchemaMutation, DropAggregateMutation, DropFunctionMutation,
    DropIndex, DropProcedureMutation, DropSchemaMutation, DropSequenceMutation, DropTable, DropTypeMutation, Mutation, RefreshMaterializedViewMutation,
    SavepointMutation,
};
use safe_migrate::state::pre_state::PreState;
use safe_migrate::state::{AnalysisState, Confidence, MutationResult};

fn table_with_columns(id: ObjectId, columns: &[&str]) -> RelationState {
    let mut relation = RelationState::new(
        id,
        ObjectId::new("", "postgres"),
        0,
        None,
        RelationKind::Table,
        Persistence::Permanent,
        0,
    );
    relation.columns = columns
        .iter()
        .map(|name| Column {
            name: (*name).to_string(),
            data_type: Some("integer".to_string()),
            type_id: None,
            is_nullable: false,
            default: None,
            avg_width: Some(4),
            default_expr_text: None,
            type_modifier: None,
        })
        .collect();
    relation
}

fn has_evidence(state: &AnalysisState, code: EvidenceCode) -> bool {
    state.evidence().iter().any(|record| record.code == code)
}

fn shown(pre_state: &PreState) -> String {
    format!("{:?}", pre_state)
}

#[test]
fn incremental_capture_matches_a_fresh_public_pre_state() {
    let mut state = AnalysisState::new(DbCache::new());
    let table_id = ObjectId::new("public", "capture_table");
    state.local.relations.insert(
        table_id.clone(),
        Overlay::Present(RelationState::new(
            table_id.clone(),
            ObjectId::new("", "postgres"),
            1,
            Some(1),
            RelationKind::Table,
            Persistence::Permanent,
            0,
        )),
    );

    let mut reused = PreState::default();
    state.capture_pre_state_into(&mut reused);
    assert_eq!(shown(&reused), shown(&state.capture_pre_state()));

    let Some(Overlay::Present(relation)) = state.local.relations.get(&table_id) else {
        panic!("test relation must remain present");
    };
    let mut relation = relation.dup();
    relation.estimated_rows = Some(2);
    state.local.relations.insert(table_id.clone(), Overlay::Present(relation));
    let index_id = ObjectId::new("public", "capture_table_idx");
    state.local.graph.add_edge(DependencyEdge::new(
        index_id,
        table_id.clone(),
        DependencyKind::IndexOnRelation {
            using_method: Some("btree".into()),
            key_columns: vec!["id".into()],
            included_columns: Vec::new(),
            dependency_columns: vec!["id".into()],
            dependency_columns_known: true,
            has_expression_keys: false,
            has_predicate: false,
            is_concurrent: false,
            is_unique: false,
            is_valid: true,
            is_ready: true,
            is_live: true,
            has_default_sort_order: true,
            has_default_opclasses: true,
            has_default_collations: true,
            eligibility_known: true,
        },
    ));
    state.capture_pre_state_into(&mut reused);
    assert_eq!(shown(&reused), shown(&state.capture_pre_state()));
    assert_eq!(reused.relations.get(&table_id).unwrap().estimated_rows, Some(2));
    assert_eq!(reused.indexes.len(), 1);

    state.local.relations.insert(table_id.clone(), Overlay::Dropped);
    state.local.graph.replace_edges(Vec::new());
    state.capture_pre_state_into(&mut reused);
    assert_eq!(shown(&reused), shown(&state.capture_pre_state()));
    assert!(!reused.relations.contains_key(&table_id));
    assert!(reused.indexes.is_empty());
}

#[test]
fn evidence_added_in_a_transaction_rolls_back_with_confidence() {
    let mut state = AnalysisState::new(DbCache::new());
    state.apply(&Mutation::BeginTransaction, None);
    state.record_evidence(EvidenceRecord::new(EvidenceCode::CatalogCoverageIncomplete, EvidenceScope::Chain));

    assert_eq!(state.local.confidence, Confidence::Tainted);
    assert_eq!(state.evidence().len(), 1);

    state.apply(&Mutation::RollbackTransaction, None);
    assert_eq!(state.local.confidence, Confidence::Exact);
    assert!(state.evidence().is_empty());
}

#[test]
fn known_evidence_leaves_the_state_as_it_is() {
    let mut state = AnalysisState::new(DbCache::new());
    state.apply(&Mutation::BeginTransaction, None);
    let record = || EvidenceRecord::new(EvidenceCode::CatalogCoverageIncomplete, EvidenceScope::Chain);
    state.record_evidence(record());
    let before = state.transaction_undo_checkpoint();
    let evidence = format!("{:?}", state.evidence());
    state.record_evidence(record());
    assert_eq!(state.transaction_undo_checkpoint(), before);
    assert_eq!(format!("{:?}", state.evidence()), evidence);
}

#[test]
fn invalid_transaction_control_records_typed_evidence() {
    let mut state = AnalysisState::new(DbCache::new());
    let result = state.apply(&Mutation::Savepoint(SavepointMutation { name: "before_change".to_string() }), None);

    assert!(matches!(result, MutationResult::Conflict { .. }));
    assert!(has_evidence(&state, EvidenceCode::TransactionStateUnknown));
}

fn scoped_to(schema: &str) -> DbCache {
    let mut cache = DbCache::new();
    cache.metadata.schemas = Some(vec![schema.to_string()]);
    cache.coverage = CatalogCoverage::from_sync_scope(cache.metadata.schemas.as_ref());
    cache
}

#[test]
fn scoped_schema_lookup_records_unknown_object_evidence() {
    let cache = scoped_to("public");
    let mut state = AnalysisState::new(cache);
    let result = state.apply(
        &Mutation::CreateSchema(CreateSchemaMutation {
            name: "outside_scope".to_string(),
            if_not_exists: false,
            authorization: None,
        }),
        None,
    );

    assert_eq!(result, MutationResult::Skipped);
    assert!(has_evidence(&state, EvidenceCode::UnknownObjectState));
}

#[test]
fn schema_absence_requires_schema_catalog_coverage() {
    let mut cache = scoped_to("public");
    cache.coverage.families.remove(&CatalogFamily::Schemas);
    let mut state = AnalysisState::new(cache);

    let result = state.apply(
        &Mutation::CreateSchema(CreateSchemaMutation {
            name: "public".to_string(),
            if_not_exists: false,
            authorization: None,
        }),
        None,
    );

    assert_eq!(result, MutationResult::Skipped);
    assert!(has_evidence(&state, EvidenceCode::UnknownObjectState));
}

#[test]
fn role_inherit_option_is_preserved_across_mutations() {
    let mut state = AnalysisState::new(DbCache::new());
    let role_id = ObjectId::new("", "no_inherit");
    let create = Mutation::CreateRole(CreateRoleMutation { name: role_id.name.clone(), inherits: false, can_login: false });
    assert_eq!(state.apply(&create, None), MutationResult::Applied);
    let Some(Overlay::Present(role)) = state.local.roles.get(&role_id) else {
        panic!("expected role to be present");
    };
    assert!(!role.inherits);

    let alter = Mutation::AlterRole(AlterRoleMutation {
        name: RoleFact::Named { name: role_id.name.clone(), via_legacy_group_syntax: false },
        inherits: Some(true),
    });
    assert_eq!(state.apply(&alter, None), MutationResult::Applied);
    let Some(Overlay::Present(role)) = state.local.roles.get(&role_id) else {
        panic!("expected role to remain present");
    };
    assert!(role.inherits);
}

#[test]
fn relation_absence_requires_relation_catalog_coverage() {
    let mut cache = scoped_to("public");
    cache.coverage.families.remove(&CatalogFamily::Relations);
    let mut state = AnalysisState::new(cache);
    let result = state.apply(
        &Mutation::DropTable(DropTable { ids: vec![ObjectId::new("public", "missing")], if_exists: false, cascade: false }),
        None,
    );

    assert_eq!(result, MutationResult::Skipped);
    assert!(has_evidence(&state, EvidenceCode::UnknownObjectState));
}

#[test]
fn baseline_drop_requires_dependency_catalog_coverage() {
    let table_id = ObjectId::new("public", "known_table");
    let mut cache = DbCache::new();
    cache.insert_baseline(table_id.clone(), table_with_columns(table_id.clone(), &["id"]));
    cache.coverage.families.remove(&CatalogFamily::Dependencies);
    let mut state = AnalysisState::new(cache);

    let result = state.apply(&Mutation::DropTable(DropTable { ids: vec![table_id], if_exists: false, cascade: false }), None);

    assert_eq!(result, MutationResult::Skipped);
    assert!(has_evidence(&state, EvidenceCode::CatalogCoverageIncomplete));
}

#[test]
fn scoped_boundary_authority_requires_explicit_completion_marker() {
    let table_id = ObjectId::new("app", "known_table");
    let mut cache = DbCache::new();
    cache.metadata.schemas = Some(vec!["app".to_string()]);
    cache.metadata.created_at_unix_secs = Some(1);
    cache.insert_baseline(table_id.clone(), table_with_columns(table_id.clone(), &["id"]));

    let state = AnalysisState::with_baseline(cache.dup(), true);
    assert!(state.baseline_scoped_family_object(&table_id, CatalogFamily::Relations));

    cache.metadata.boundary_queries_complete = true;
    let state = AnalysisState::with_baseline(cache, true);
    assert!(!state.baseline_scoped_family_object(&table_id, CatalogFamily::Relations));
}

#[test]
fn local_drop_cascade_requires_dependency_coverage_for_baseline_dependents() {
    let parent = ObjectId::new("public", "new_parent");
    let child = ObjectId::new("public", "baseline_child");
    let mut cache = DbCache::new();
    cache.insert_baseline(child.clone(), table_with_columns(child.clone(), &["parent_id"]));
    cache.coverage.families.remove(&CatalogFamily::Dependencies);
    let mut state = AnalysisState::new(cache);
    state.baseline_foreign_keys.insert((child.clone(), "baseline_child_parent_fkey".to_string()));
    state.local.relations.insert(parent.clone(), Overlay::Present(table_with_columns(parent.clone(), &["id"])));
    state.local.graph.add_edge(DependencyEdge::new(
        child.clone(),
        parent.clone(),
        DependencyKind::ForeignKey {
            constraint_name: Some("baseline_child_parent_fkey".to_string()),
            from_columns: vec!["parent_id".to_string()],
            to_columns: vec!["id".to_string()],
            operator_evidence: None,
            from_generation: 0,
        },
    ));

    let result = state.apply(&Mutation::DropTable(DropTable { ids: vec![parent], if_exists: false, cascade: true }), None);
    assert_eq!(result, MutationResult::Skipped);
    assert!(has_evidence(&state, EvidenceCode::CatalogCoverageIncomplete));
    assert!(state.relation_is_present(&child));
}

fn standalone_sequence(id: &ObjectId) -> SequenceState {
    SequenceState {
        id: id.clone(),
        owner: ObjectId::new("", "postgres"),
        owned_by: None,
        kind: SequenceKind::Standalone,
        generation: 0,
    }
}

#[test]
fn baseline_sequence_drop_requires_dependency_coverage() {
    let sequence_id = ObjectId::new("public", "known_sequence");
    let mut cache = DbCache::new();
    cache.sequences.insert(sequence_id.clone(), standalone_sequence(&sequence_id));
    cache.coverage.families.remove(&CatalogFamily::Dependencies);
    let mut state = AnalysisState::new(cache);

    let result = state.apply(
        &Mutation::DropSequence(DropSequenceMutation { ids: vec![sequence_id.clone()], if_exists: false, cascade: false }),
        None,
    );
    assert_eq!(result, MutationResult::Skipped);
    assert!(matches!(state.local.sequences.get(&sequence_id), Some(Overlay::Present(_))));
    assert!(has_evidence(&state, EvidenceCode::CatalogCoverageIncomplete));
}

#[test]
fn held_sequence_is_refused_whatever_is_covered() {
    for (kind, cascade, held) in [
        (SequenceKind::Identity, false, true),
        (SequenceKind::Identity, true, true),
        (SequenceKind::SerialLike, false, true),
        (SequenceKind::SerialLike, true, false),
    ] {
        let sequence_id = ObjectId::new("public", "held_sequence");
        let mut sequence = standalone_sequence(&sequence_id);
        sequence.kind = kind;
        let mut cache = DbCache::new();
        cache.sequences.insert(sequence_id.clone(), sequence);
        cache.coverage.families.remove(&CatalogFamily::Dependencies);
        let mut state = AnalysisState::new(cache);
        let result = state.apply(
            &Mutation::DropSequence(DropSequenceMutation { ids: vec![sequence_id.clone()], if_exists: false, cascade }),
            None,
        );
        assert_eq!(matches!(result, MutationResult::Conflict { .. }), held);
        assert_eq!(has_evidence(&state, EvidenceCode::CatalogCoverageIncomplete), !held);
    }
}

#[test]
fn scoped_baseline_sequence_drop_requires_cross_schema_dependency_proof() {
    let sequence_id = ObjectId::new("public", "scoped_sequence");
    let mut cache = scoped_to("public");
    cache.sequences.insert(sequence_id.clone(), standalone_sequence(&sequence_id));
    let mut state = AnalysisState::new(cache);
    let result = state.apply(
        &Mutation::DropSequence(DropSequenceMutation { ids: vec![sequence_id.clone()], if_exists: false, cascade: false }),
        None,
    );
    assert_eq!(result, MutationResult::Skipped);
    assert!(matches!(state.local.sequences.get(&sequence_id), Some(Overlay::Present(_))));
    assert!(has_evidence(&state, EvidenceCode::CatalogCoverageIncomplete));
}

#[test]
fn baseline_drop_column_requires_dependency_coverage() {
    let table_id = ObjectId::new("public", "known_table");
    let mut cache = DbCache::new();
    cache.insert_baseline(table_id.clone(), table_with_columns(table_id.clone(), &["id"]));
    cache.coverage.families.remove(&CatalogFamily::Dependencies);
    let mut state = AnalysisState::new(cache);

    let result = state.apply(
        &Mutation::AlterTable(AlterTable {
            id: table_id.clone(),
            action: AlterTableActionMutation::DropColumn { name: "id".to_string(), if_exists: false, cascade: false },
        }),
        None,
    );
    assert_eq!(result, MutationResult::Skipped);
    assert!(state.local.relations.get(&table_id).is_some_and(|overlay| {
        matches!(overlay, Overlay::Present(relation) if relation.has_column("id"))
    }));
    assert!(has_evidence(&state, EvidenceCode::CatalogCoverageIncomplete));
}

#[test]
fn scoped_baseline_type_drop_requires_cross_schema_dependency_proof() {
    let type_id = ObjectId::new("public", "known_type");
    let mut cache = scoped_to("public");
    cache.types.insert(type_id.clone(), TypeState { id: type_id.clone(), generation: 0, kind: TypeKind::Base });
    let mut state = AnalysisState::new(cache);
    let result = state.apply(
        &Mutation::DropType(DropTypeMutation { ids: vec![type_id.clone()], if_exists: false, cascade: false }),
        None,
    );
    assert_eq!(result, MutationResult::Skipped);
    assert!(matches!(state.local.types.get(&type_id), Some(Overlay::Present(_))));
    assert!(has_evidence(&state, EvidenceCode::CatalogCoverageIncomplete));
}

fn routine(id: &ObjectId, kind: RoutineKind) -> FunctionState {
    FunctionState {
        id: id.clone(),
        routine_kind: kind,
        arg_types: vec!["integer".to_string()],
        arg_type_ids: Vec::new(),
        return_type: "integer".to_string(),
        return_type_id: None,
        volatility: Volatility::Volatile,
        language: "sql".to_string(),
        security: SecurityMode::Invoker,
    }
}

fn signature() -> FunctionSigFact {
    FunctionSigFact {
        name: QualifiedName::new(Some(Ident::new("public", false)), Ident::new("work", false)),
        params: vec!["integer".to_string()],
    }
}

#[test]
fn scoped_baseline_function_drop_requires_cross_schema_dependency_proof() {
    let function_id = ObjectId::new("public", "work(integer)");
    let mut cache = scoped_to("public");
    cache.functions.insert(function_id.clone(), routine(&function_id, RoutineKind::Function));
    let mut state = AnalysisState::new(cache);
    let result = state.apply(
        &Mutation::DropFunction(DropFunctionMutation { signatures: vec![signature()], if_exists: false, cascade: false }),
        None,
    );
    assert_eq!(result, MutationResult::Skipped);
    assert!(matches!(state.local.functions.get(&function_id), Some(Overlay::Present(_))));
    assert!(has_evidence(&state, EvidenceCode::CatalogCoverageIncomplete));
}

#[test]
fn routine_cascade_without_dependency_edges_is_not_applied_partially() {
    let id = ObjectId::new("public", "work(integer)");

    let mut procedure_cache = DbCache::new();
    procedure_cache.functions.insert(id.clone(), routine(&id, RoutineKind::Procedure));
    let mut procedure_state = AnalysisState::new(procedure_cache);
    assert_eq!(
        procedure_state.apply(
            &Mutation::DropProcedure(DropProcedureMutation { signatures: vec![signature()], if_exists: false, cascade: true }),
            None,
        ),
        MutationResult::Skipped
    );
    assert!(has_evidence(&procedure_state, EvidenceCode::UnmodeledState));
    assert!(procedure_state.local.functions.contains_key(&id));

    let mut aggregate_cache = DbCache::new();
    aggregate_cache.functions.insert(id.clone(), routine(&id, RoutineKind::Aggregate));
    let mut aggregate_state = AnalysisState::new(aggregate_cache);
    assert_eq!(
        aggregate_state.apply(
            &Mutation::DropAggregate(DropAggregateMutation { signatures: vec![signature()], if_exists: false, cascade: true }),
            None,
        ),
        MutationResult::Skipped
    );
    assert!(has_evidence(&aggregate_state, EvidenceCode::UnmodeledState));
    assert!(aggregate_state.local.functions.contains_key(&id));
}

fn plain_index(id: ObjectId, table: ObjectId, concurrently: bool) -> CreateIndex {
    CreateIndex {
        id,
        table,
        if_not_exists: false,
        concurrently,
        using_method: None,
        has_predicate: false,
        unique: false,
        key_columns: vec!["id".to_string()],
        included_columns: Vec::new(),
        has_expression_keys: false,
        has_default_sort_order: true,
        has_default_opclasses: true,
        has_default_collations: true,
    }
}

#[test]
fn concurrent_index_drop_rejects_transaction_and_cascade_forms() {
    let mut state = AnalysisState::new(DbCache::new());
    assert_eq!(state.apply(&Mutation::BeginTransaction, None), MutationResult::Applied);
    let concurrent = Mutation::DropIndex(DropIndex { ids: Vec::new(), if_exists: true, concurrently: true, cascade: false });
    assert!(matches!(state.apply(&concurrent, None), MutationResult::Conflict { .. }));

    let mut state = AnalysisState::new(DbCache::new());
    let concurrent_cascade = Mutation::DropIndex(DropIndex { ids: Vec::new(), if_exists: true, concurrently: true, cascade: true });
    assert!(matches!(state.apply(&concurrent_cascade, None), MutationResult::Conflict { .. }));

    let mut state = AnalysisState::new(DbCache::new());
    assert_eq!(state.apply(&Mutation::BeginTransaction, None), MutationResult::Applied);
    let concurrent_create =
        Mutation::CreateIndex(plain_index(ObjectId::new("public", "idx"), ObjectId::new("public", "table"), true));
    assert!(matches!(state.apply(&concurrent_create, None), MutationResult::Conflict { .. }));

    let mut refresh_state = AnalysisState::new(DbCache::new());
    assert_eq!(refresh_state.apply(&Mutation::BeginTransaction, None), MutationResult::Applied);
    let concurrent_refresh = Mutation::RefreshMaterializedView(RefreshMaterializedViewMutation {
        id: ObjectId::new("public", "mv"),
        concurrently: true,
    });
    assert!(matches!(refresh_state.apply(&concurrent_refresh, None), MutationResult::Conflict { .. }));

    let partitioned_table = ObjectId::new("public", "events");
    let mut partition_state = AnalysisState::new(DbCache::new());
    let mut relation = table_with_columns(partitioned_table.clone(), &["id"]);
    relation.partition_type = Some("RANGE".to_string());
    partition_state.local.relations.insert(partitioned_table.clone(), Overlay::Present(relation));
    let concurrent_partition_index =
        Mutation::CreateIndex(plain_index(ObjectId::new("public", "events_id_idx"), partitioned_table, true));
    assert!(matches!(
        partition_state.apply(&concurrent_partition_index, None),
        MutationResult::Conflict { .. }
    ));

    let partition_drop_table = ObjectId::new("public", "drop_events");
    let mut partition_drop_state = AnalysisState::new(DbCache::new());
    let mut drop_relation = table_with_columns(partition_drop_table.clone(), &["id"]);
    drop_relation.partition_type = Some("RANGE".to_string());
    partition_drop_state.local.relations.insert(partition_drop_table.clone(), Overlay::Present(drop_relation));
    let drop_index_id = ObjectId::new("public", "drop_events_id_idx");
    assert_eq!(
        partition_drop_state.apply(
            &Mutation::CreateIndex(plain_index(drop_index_id.clone(), partition_drop_table, false)),
            None,
        ),
        MutationResult::Applied
    );
    assert!(matches!(
        partition_drop_state.apply(
            &Mutation::DropIndex(DropIndex { ids: vec![drop_index_id], if_exists: false, concurrently: true, cascade: false }),
            None,
        ),
        MutationResult::Conflict { .. }
    ));
}

#[test]
fn concurrent_refresh_rejects_unpopulated_materialized_view() {
    let view_id = ObjectId::new("public", "empty_mv");
    let mut cache = DbCache::new();
    let mut view = RelationState::new(
        view_id.clone(),
        ObjectId::new("", "postgres"),
        0,
        None,
        RelationKind::MaterializedView,
        Persistence::Permanent,
        0,
    );
    view.is_populated = Some(false);
    cache.insert_baseline(view_id.clone(), view);
    let mut state = AnalysisState::new(cache);
    let result = state.apply(
        &Mutation::RefreshMaterializedView(RefreshMaterializedViewMutation { id: view_id, concurrently: true }),
        None,
    );
    assert!(matches!(result, MutationResult::Conflict { .. }));
}

#[test]
fn stale_generation_edges_do_not_block_or_cascade_after_recreation() {
    let parent = ObjectId::new("public", "parent");
    let child = ObjectId::new("public", "child");
    let view = ObjectId::new("public", "parent_view");
    let mut cache = DbCache::new();
    cache.insert_baseline(parent.clone(), table_with_columns(parent.clone(), &["id"]));
    cache.insert_baseline(child.clone(), table_with_columns(child.clone(), &["parent_id"]));
    let mut view_state = table_with_columns(view.clone(), &["id"]);
    view_state.kind = RelationKind::View;
    cache.insert_baseline(view.clone(), view_state);
    let mut state = AnalysisState::new(cache);
    state.local.graph.add_edge(DependencyEdge::new(
        child.clone(),
        parent.clone(),
        DependencyKind::ForeignKey {
            constraint_name: Some("child_parent_fkey".to_string()),
            from_columns: vec!["parent_id".to_string()],
            to_columns: vec!["id".to_string()],
            operator_evidence: None,
            from_generation: 41,
        },
    ));
    state.local.graph.add_edge(DependencyEdge::new(
        view.clone(),
        parent.clone(),
        DependencyKind::ViewDependency { view_generation: 42, referenced_column: None },
    ));

    let closure = state.get_cascade_closure(&parent);
    assert_eq!(closure.dropped_relations.len(), 1);
    assert!(closure.dropped_relations.contains(&parent));
    assert!(closure.dropped_constraints.is_empty());

    let result = state.apply(&Mutation::DropTable(DropTable { ids: vec![parent], if_exists: false, cascade: false }), None);
    assert_eq!(result, MutationResult::Applied);
}

#[test]
fn unhydrated_generation_edge_remains_conservative() {
    let parent = ObjectId::new("public", "parent");
    let omitted_view = ObjectId::new("tenant", "parent_view");
    let mut cache = DbCache::new();
    cache.insert_baseline(parent.clone(), table_with_columns(parent.clone(), &["id"]));
    let mut state = AnalysisState::new(cache);
    state.local.graph.add_edge(DependencyEdge::new(
        omitted_view.clone(),
        parent.clone(),
        DependencyKind::ViewDependency { view_generation: 7, referenced_column: None },
    ));

    let closure = state.get_cascade_closure(&parent);
    assert!(closure.dropped_relations.contains(&omitted_view));
    let result = state.apply(&Mutation::DropTable(DropTable { ids: vec![parent], if_exists: false, cascade: true }), None);
    assert_eq!(result, MutationResult::Applied);
    assert!(has_evidence(&state, EvidenceCode::UnknownObjectState));
}

#[test]
fn stale_trigger_generation_does_not_block_schema_restrict() {
    let mut cache = DbCache::new();
    cache.schemas.insert(
        "old_schema".to_string(),
        SchemaState { name: "old_schema".to_string(), owner: ObjectId::new("", "postgres"), generation: 0 },
    );
    let mut state = AnalysisState::new(cache);
    let trigger_id = ObjectId::new("other_schema", "table\0stale_trigger");
    state.local.triggers.insert(
        trigger_id.clone(),
        Overlay::Present(TriggerState {
            name: "stale_trigger".to_string(),
            id: trigger_id.clone(),
            table_id: ObjectId::new("old_schema", "table"),
            enabled_mode: TriggerEnableMode::Origin,
            generation: 0,
        }),
    );
    state.local.graph.add_edge(DependencyEdge::new(
        trigger_id.clone(),
        ObjectId::new("old_schema", "table"),
        DependencyKind::TriggerOnTable {
            trigger_id,
            function_id: ObjectId::new("other_schema", "fn()"),
            trigger_generation: 9,
        },
    ));

    let result = state.apply(
        &Mutation::DropSchema(DropSchemaMutation { names: vec!["old_schema".to_string()], if_exists: false, cascade: false }),
        None,
    );
    assert_eq!(result, MutationResult::Skipped);
    assert!(has_evidence(&state, EvidenceCode::UnmodeledState));
}

#[test]
fn baseline_constraint_keys_hydrate_into_the_dependency_graph() {
    let parent = ObjectId::new("public", "parent");
    let mut cache = DbCache::new();
    cache.insert_baseline(parent.clone(), table_with_columns(parent.clone(), &["id"]));
    cache.constraints.push(ConstraintState {
        table_id: parent.clone(),
        name: "parent_pkey".to_string(),
        kind: ConstraintKind::PrimaryKey,
        validated: true,
        backing_index: None,
    });
    cache.constraint_keys.push(ConstraintKeyCache {
        table_id: parent.clone(),
        constraint_name: "parent_pkey".to_string(),
        columns: vec!["id".to_string()],
        is_primary: true,
    });

    let state = AnalysisState::new(cache);
    assert!(state.local.graph.edges().iter().any(|edge| {
        edge.dependent == parent
            && edge.referenced == parent
            && matches!(
                &edge.kind,
                DependencyKind::ConstraintOnRelation {
                    constraint_name,
                    columns,
                    is_primary: true,
                } if constraint_name == "parent_pkey" && columns == &["id"]
            )
    }));
}

#[test]
fn malformed_baseline_fk_operator_evidence_is_tainted_not_claimed_exact() {
    let child = ObjectId::new("public", "child");
    let parent = ObjectId::new("public", "parent");
    let mut cache = DbCache::new();
    cache.insert_baseline(child.clone(), table_with_columns(child.clone(), &["parent_id"]));
    cache.insert_baseline(parent.clone(), table_with_columns(parent.clone(), &["id"]));
    cache.foreign_keys.push(ForeignKeyCache {
        constraint_name: "child_parent_fkey".into(),
        from_table: child.clone(),
        to_table: parent.clone(),
        from_columns: vec!["parent_id".into()],
        to_columns: vec!["id".into()],
        pk_fk_equality_operators: Vec::new(),
        pk_pk_equality_operators: vec!["=".into()],
        fk_fk_equality_operators: vec!["=".into()],
    });

    let state = AnalysisState::with_baseline(cache, true);
    assert_eq!(*state.confidence(), Confidence::Tainted);
    assert!(has_evidence(&state, EvidenceCode::CatalogCoverageIncomplete));
    assert!(state.local.graph.edges().iter().any(|edge| {
        matches!(&edge.kind, DependencyKind::ForeignKey { operator_evidence: None, .. })
    }));
}

#[test]
fn complete_baseline_fk_operator_evidence_reaches_graph_edge() {
    let child = ObjectId::new("public", "child");
    let parent = ObjectId::new("public", "parent");
    let mut cache = DbCache::new();
    cache.insert_baseline(child.clone(), table_with_columns(child.clone(), &["parent_id"]));
    cache.insert_baseline(parent.clone(), table_with_columns(parent.clone(), &["id"]));
    cache.foreign_keys.push(ForeignKeyCache {
        constraint_name: "child_parent_fkey".into(),
        from_table: child.clone(),
        to_table: parent.clone(),
        from_columns: vec!["parent_id".into()],
        to_columns: vec!["id".into()],
        pk_fk_equality_operators: vec!["pg_catalog.=(integer,integer)".into()],
        pk_pk_equality_operators: vec!["pg_catalog.=(integer,integer)".into()],
        fk_fk_equality_operators: vec!["pg_catalog.=(integer,integer)".into()],
    });

    let state = AnalysisState::with_baseline(cache, true);
    assert_eq!(*state.confidence(), Confidence::Exact);
    assert!(state.local.graph.edges().iter().any(|edge| {
        edge.dependent == child
            && edge.referenced == parent
            && matches!(
                &edge.kind,
                DependencyKind::ForeignKey {
                    operator_evidence: Some(evidence),
                    ..
                } if evidence.pk_fk == ["pg_catalog.=(integer,integer)".to_string()]
            )
    }));
}

#[test]
fn try_new_rejects_semantically_invalid_cache_before_hydration() {
    let mut cache = DbCache::new();
    cache.schemas.insert(
        "public".into(),
        SchemaState { name: "other".into(), owner: ObjectId::new("", "postgres"), generation: 0 },
    );

    let error = match AnalysisState::try_new(cache) {
        Ok(_) => panic!("invalid cache unexpectedly hydrated"),
        Err(error) => error,
    };
    assert!(error.contains("schema cache key 'public'"));
}

#[test]
fn role_catalog_coverage_is_authoritative_without_session_provenance() {
    let mut cache = DbCache::new();
    let role = ObjectId::new("", "app_role");
    cache.roles.insert(
        role.clone(),
        RoleState {
            id: role,
            can_login: false,
            is_superuser: false,
            inherits: true,
            member_of: Vec::new(),
            can_administer_membership: Vec::new(),
            can_inherit_from: Vec::new(),
            can_set_role_to: Vec::new(),
        },
    );
    cache.metadata.source_role = None;
    cache.metadata.source_session_role = None;

    let state = AnalysisState::with_baseline(cache, true);
    assert!(state.local.roles_known);
}
