//! Applying statements to the state.
use crate::collections::Dup;
use crate::evidence::{EvidenceCode, EvidenceScope};
use crate::graph::{cut, DependencyEdgeView};
use crate::model::column_action::lemma_column_of;
use crate::mutations::{AlterTable, AlterTableActionMutation, CreateTable, Mutation};
use crate::state::alter_column::{columns_of, new_column_refusal, with_graph};
use crate::state::alter_constraint::{is_constraint_edge, namespace_without_constraint, without_constraint};
use crate::state::alter_table::{action_applied, action_edge_undo, is_partition_of, relation_owner_changed, removes_edges_for_good, table_altered};
use crate::state::apply_grant::{granted_all, revoked_all};
use crate::state::apply_misc::unmodeled;
use crate::state::apply_policy_trigger::{policy_created, policy_dropped, trigger_created, trigger_dropped, trigger_renamed};
use crate::state::apply_role::{role_altered, role_created, roles_dropped};
use crate::state::apply_schema::{schema_altered, schema_created, schema_edge_undo, schemas_dropped};
use crate::state::apply_sequence::{sequence_altered, sequence_created, sequence_edge_undo, sequences_dropped};
use crate::state::apply_settings::{opaque_code, role_switched, search_path_set, settings_reset, timeout_set};
use crate::state::apply_transaction::{
    joined_logs, last_savepoint, law_begin_then_rollback_is_nothing, law_rollback_restores, law_rollback_undoes_step, next_frames, no_such_savepoint, rolled_back, root_frame, savepoint_frame, savepoint_outside, session_restored,
    unknown_transaction,
};
use crate::state::apply_view_index::{index_created, indexes_dropped, lemma_dropped_indexes, materialized_view_created, materialized_view_refreshed, view_created, views_dropped};
use crate::state::cascade::{CascadeResult, CascadeView};
use crate::state::create_table::{place_refusal, table_created, table_refusal};
use crate::state::drop_table::tables_dropped;
use crate::state::journal::{
    appending, group_kept, if_applied, kept, kept_as, lemma_kept_refl, lemma_own_edges, namespace_of, tainted, undone, undone_by, with_edges,
    with_namespace, EdgeUndo,
};
use crate::state::lookup::{conflict, RelationFilter};
use crate::state::notes::{is_noted, is_noted_change, is_noted_since, notes_changes};
use crate::state::pre_state::{column_is_new, relation_before};
use crate::state::refusal::refused;
use crate::state::rename_relation::relation_renamed;
use crate::state::unmodeled::{is_unmodeled, unmodeled_skipped};
use crate::state::{data_of, AnalysisState, AnalysisStateView, MutationResult, MutationResultView, StateData};
use crate::transaction::TransactionFrameView;
use vstd::prelude::*;

verus! {

broadcast use group_kept;

/// Whether a statement controls the transaction.
pub open spec fn is_control(m: Mutation) -> bool {
    match m {
        Mutation::BeginTransaction | Mutation::CommitTransaction | Mutation::CommitAndChain | Mutation::RollbackTransaction | Mutation::RollbackAndChain
        | Mutation::RollbackToSavepoint(_) | Mutation::Savepoint(_) | Mutation::ReleaseSavepoint(_) => true,
        _ => false,
    }
}

/// Whether a statement is executed also where the transaction is aborted.
pub open spec fn leaves_aborted(m: Mutation) -> bool {
    match m {
        Mutation::CommitTransaction | Mutation::CommitAndChain | Mutation::RollbackTransaction | Mutation::RollbackAndChain
        | Mutation::RollbackToSavepoint(_) => true,
        _ => false,
    }
}

/// Whether a statement removes edges with no more recorded than how many
/// there were, so that undoing it does not bring them back.
pub open spec fn loses_edges(m: Mutation) -> bool {
    match m {
        Mutation::AlterTable(x) => removes_edges_for_good(x.action),
        Mutation::DropIndex(_) => true,
        _ => false,
    }
}

/// How a statement that was applied is undone. Those that add edges mark how
/// many there were; those that replace edges record all of them.
pub open spec fn edge_undo(d: StateData, m: Mutation, after: StateData) -> EdgeUndo {
    match m {
        Mutation::CreateTable(_) | Mutation::CreateSequence(_) => appending(d.graph, after.graph),
        Mutation::CreateIndex(_) => EdgeUndo::Cut,
        Mutation::AlterTable(x) => action_edge_undo(d, x.id@, x.action, after),
        Mutation::AlterSchema(x) => schema_edge_undo(x),
        Mutation::AlterSequence(x) => sequence_edge_undo(x.action),
        Mutation::DropSchema(_) | Mutation::DropTable(_) | Mutation::DropView(_) | Mutation::DropMaterializedView(_) | Mutation::DropSequence(_)
        | Mutation::CreateView(_) | Mutation::CreateMaterializedView(_) | Mutation::Rename(_) | Mutation::CreateTrigger(_) | Mutation::DropTrigger(_)
        | Mutation::RenameTrigger(_) => EdgeUndo::PutBack,
        _ => EdgeUndo::Stay,
    }
}

/// What undoing a statement gives: the data from before it, but for the edges
/// that it removed for good.
pub open spec fn statement_undone_by(s: AnalysisStateView, m: Mutation, t: AnalysisStateView, r: MutationResultView) -> bool {
    if loses_edges(m) && r is Applied {
        undone_by(s, t, EdgeUndo::Cut)
    } else {
        kept_as(s, t, if_applied(r, edge_undo(s.data, m, t.data)))
    }
}

/// How many generations a statement may use up.
pub open spec fn generations_needed(m: Mutation) -> int {
    match m {
        Mutation::CreateTable(x) => 1 + x.columns.len(),
        _ => 1,
    }
}

pub open spec fn begun(s: AnalysisStateView, t: AnalysisStateView, r: MutationResultView) -> bool {
    if s.frames.len() == 0 {
        r is Applied && t == (AnalysisStateView { frames: seq![root_frame()], ..s })
    } else {
        r is Skipped && t == s
    }
}

pub open spec fn outside_of_transaction(s: AnalysisStateView, t: AnalysisStateView, r: MutationResultView, reason: Seq<char>) -> bool {
    r == conflict(reason) && t.data == unknown_transaction(s.data) && kept(s, t)
}

pub open spec fn committed(s: AnalysisStateView, chain: bool, t: AnalysisStateView, r: MutationResultView) -> bool {
    if chain && s.frames.len() == 0 {
        outside_of_transaction(s, t, r, "COMMIT AND CHAIN can only be used in transaction blocks"@)
    } else {
        r is Applied && t == (AnalysisStateView {
            data: if s.aborted {
                rolled_back(s.data, s.frames)
            } else {
                session_restored(s.data)
            },
            frames: next_frames(chain),
            aborted: false,
        })
    }
}

pub open spec fn rolled_back_whole(s: AnalysisStateView, chain: bool, t: AnalysisStateView, r: MutationResultView) -> bool {
    if chain && s.frames.len() == 0 {
        outside_of_transaction(s, t, r, "ROLLBACK AND CHAIN can only be used in transaction blocks"@)
    } else {
        r is Applied && t == (AnalysisStateView { data: rolled_back(s.data, s.frames), frames: next_frames(chain), aborted: false })
    }
}

pub open spec fn savepoint_missing(s: AnalysisStateView, name: Seq<char>, t: AnalysisStateView, r: MutationResultView) -> bool {
    r == no_such_savepoint(name) && t.data == unknown_transaction(s.data) && kept(s, AnalysisStateView { aborted: s.aborted, ..t }) && t.aborted == (s.aborted
        || s.frames.len() > 0)
}

pub open spec fn rolled_back_to(s: AnalysisStateView, name: Seq<char>, t: AnalysisStateView, r: MutationResultView) -> bool {
    let at = last_savepoint(s.frames, name);
    if at < 0 {
        savepoint_missing(s, name, t, r)
    } else {
        r is Applied && t == (AnalysisStateView {
            data: rolled_back(s.data, s.frames.skip(at)),
            frames: s.frames.take(at).push(savepoint_frame(name)),
            aborted: false,
        })
    }
}

pub open spec fn savepoint_set(s: AnalysisStateView, name: Seq<char>, t: AnalysisStateView, r: MutationResultView) -> bool {
    if s.frames.len() == 0 {
        outside_of_transaction(s, t, r, "SAVEPOINT can only be used in transaction blocks"@)
    } else {
        r is Applied && t == (AnalysisStateView { frames: s.frames.push(savepoint_frame(name)), ..s })
    }
}

pub open spec fn savepoint_released(s: AnalysisStateView, name: Seq<char>, t: AnalysisStateView, r: MutationResultView) -> bool {
    let at = last_savepoint(s.frames, name);
    if at < 0 {
        savepoint_missing(s, name, t, r)
    } else if at == 0 {
        r == savepoint_outside(name) && t.data == unknown_transaction(s.data) && kept(s, t)
    } else {
        r is Applied && t == (AnalysisStateView {
            frames: s.frames.take(at - 1).push(
                TransactionFrameView { kind: s.frames[at - 1].kind, undo_log: s.frames[at - 1].undo_log + joined_logs(s.frames.skip(at)) },
            ),
            ..s
        })
    }
}

/// What a statement that controls the transaction leads to.
#[verifier::opaque]
pub open spec fn control_effect(s: AnalysisStateView, m: Mutation, t: AnalysisStateView, r: MutationResultView) -> bool {
    match m {
        Mutation::BeginTransaction => begun(s, t, r),
        Mutation::CommitTransaction => committed(s, false, t, r),
        Mutation::CommitAndChain => committed(s, true, t, r),
        Mutation::RollbackTransaction => rolled_back_whole(s, false, t, r),
        Mutation::RollbackAndChain => rolled_back_whole(s, true, t, r),
        Mutation::RollbackToSavepoint(x) => rolled_back_to(s, x.name@, t, r),
        Mutation::Savepoint(x) => savepoint_set(s, x.name@, t, r),
        Mutation::ReleaseSavepoint(x) => savepoint_released(s, x.name@, t, r),
        _ => false,
    }
}

/// What a statement on relations, schemas and sequences leads to.
#[verifier::opaque]
pub open spec fn object_effect(s: AnalysisStateView, m: Mutation, c: Option<CascadeView>, after: StateData, r: MutationResultView) -> bool {
    let d = s.data;
    let inside = s.frames.len() > 0;
    let depth = s.frames.len() as u64;
    match m {
        Mutation::CreateSchema(x) => (after, r) == schema_created(d, x.name@, x.if_not_exists, x.authorization),
        Mutation::AlterSchema(x) => schema_altered(d, x, after, r),
        Mutation::DropSchema(x) => (after, r) == schemas_dropped(d, x.names.deep_view(), x.if_exists, x.cascade),
        Mutation::CreateTable(x) => (after, r) == table_created(d, x, depth),
        Mutation::CreateView(x) => (after, r) == view_created(d, x.id@, x.or_replace, x.depends_on.deep_view(), depth),
        Mutation::CreateMaterializedView(x) => (after, r) == materialized_view_created(d, x.id@, x.depends_on.deep_view(), depth),
        Mutation::RefreshMaterializedView(x) => (after, r) == materialized_view_refreshed(d, inside, x.id@, x.concurrently),
        Mutation::CreateIndex(x) => (after, r) == index_created(d, inside, x),
        Mutation::AlterTable(x) => (after, r) == table_altered(d, x),
        Mutation::CreateSequence(x) => (after, r) == sequence_created(d, x.id@, x.if_not_exists, x.owned_by.deep_view()),
        Mutation::AlterSequence(x) => (after, r) == sequence_altered(d, x),
        Mutation::DropSequence(x) => (after, r) == sequences_dropped(d, x.ids.deep_view(), x.if_exists, x.cascade),
        Mutation::Rename(x) => relation_renamed(d, x.old_id@, x.new_id@, after, r),
        Mutation::DropTable(x) => (after, r) == tables_dropped(d, x.ids.deep_view(), x.if_exists, x.cascade, c),
        Mutation::DropView(x) => (after, r) == views_dropped(d, x.ids.deep_view(), RelationFilter::View, "view"@, x.if_exists, x.cascade),
        Mutation::DropMaterializedView(x) => (after, r) == views_dropped(
            d,
            x.ids.deep_view(),
            RelationFilter::MaterializedView,
            "materialized view"@,
            x.if_exists,
            x.cascade,
        ),
        Mutation::DropIndex(x) => (after, r) == indexes_dropped(d, inside, x),
        Mutation::ChangeRelationOwner { id, new_owner } => (after, r) == relation_owner_changed(d, id@, new_owner),
        _ => false,
    }
}

/// What any other statement leads to.
#[verifier::opaque]
pub open spec fn other_effect(s: AnalysisStateView, m: Mutation, after: StateData, r: MutationResultView) -> bool {
    let d = s.data;
    let inside = s.frames.len() > 0;
    match m {
        Mutation::CreatePolicy(x) => (after, r) == policy_created(d, x.name@, x.table@),
        Mutation::DropPolicy(x) => (after, r) == policy_dropped(d, x.name@, x.table@, x.if_exists),
        Mutation::CreateTrigger(x) => (after, r) == trigger_created(d, x.name@, x.table@, x.function_id@),
        Mutation::DropTrigger(x) => (after, r) == trigger_dropped(d, x.name@, x.table@, x.if_exists),
        Mutation::RenameTrigger(x) => (after, r) == trigger_renamed(d, x.name@, x.table@, x.new_name@),
        Mutation::SearchPath(x) => (after, r) == search_path_set(d, inside, x),
        Mutation::TimeoutSetting(x) => (after, r) == timeout_set(d, inside, x),
        Mutation::ResetSettings(x) => r is Applied && after == settings_reset(d, x),
        Mutation::CheckTimeouts => r is Applied && after == d,
        Mutation::CreateRole(x) => (after, r) == role_created(d, x.name@, x.inherits, x.can_login),
        Mutation::AlterRole(x) => (after, r) == role_altered(d, x.name, x.inherits),
        Mutation::DropRole(x) => (after, r) == roles_dropped(d, x.names.deep_view(), x.if_exists),
        Mutation::Grant(x) => (after, r) == granted_all(d, x),
        Mutation::Revoke(x) => (after, r) == revoked_all(d, x),
        Mutation::CreateDatabase(_) => r is Applied && after == unmodeled(d),
        Mutation::AlterDatabase(_) => r is Applied && after == unmodeled(d),
        Mutation::DropDatabase(_) => r is Applied && after == unmodeled(d),
        Mutation::SwitchRole { role, local, is_session_auth } => (after, r) == role_switched(d, inside, role, local, is_session_auth),
        Mutation::Opaque(x) => r is Applied && after == tainted(d, opaque_code(x), EvidenceScope::Chain),
        Mutation::Vacuum { .. } => r is Applied && after == tainted(d, EvidenceCode::UnsupportedSemantics, EvidenceScope::Statement),
        _ => false,
    }
}

/// Whether a statement is about relations, schemas or sequences.
pub open spec fn is_on_objects(m: Mutation) -> bool {
    match m {
        Mutation::CreateSchema(_) | Mutation::AlterSchema(_) | Mutation::DropSchema(_) | Mutation::CreateTable(_) | Mutation::CreateView(_)
        | Mutation::CreateMaterializedView(_) | Mutation::RefreshMaterializedView(_) | Mutation::CreateIndex(_) | Mutation::AlterTable(_)
        | Mutation::CreateSequence(_) | Mutation::AlterSequence(_) | Mutation::DropSequence(_) | Mutation::Rename(_) | Mutation::DropTable(_)
        | Mutation::DropView(_) | Mutation::DropMaterializedView(_) | Mutation::DropIndex(_) => true,
        Mutation::ChangeRelationOwner { .. } => true,
        _ => false,
    }
}

/// What an executed statement leads to.
pub open spec fn executed(s: AnalysisStateView, m: Mutation, c: Option<CascadeView>, t: AnalysisStateView, r: MutationResultView) -> bool {
    if is_control(m) {
        control_effect(s, m, t, r)
    } else {
        &&& if is_unmodeled(m) {
            (t.data, r) == unmodeled_skipped(s.data, m)
        } else if is_on_objects(m) {
            object_effect(s, m, c, t.data, r)
        } else {
            other_effect(s, m, t.data, r)
        }
        &&& statement_undone_by(s, m, t, r)
    }
}

/// What a statement leads to. In an aborted transaction only a statement that
/// ends it, or goes back to a savepoint, is executed. A conflict within a
/// transaction aborts it.
pub open spec fn applied(s: AnalysisStateView, m: Mutation, c: Option<CascadeView>, t: AnalysisStateView, r: MutationResultView) -> bool {
    if s.aborted && !leaves_aborted(m) {
        r is NotExecuted && t == s
    } else {
        exists|aborted: bool| #[trigger]
            executed(s, m, c, AnalysisStateView { aborted, ..t }, r) && t.aborted == (aborted || (r is Conflict && t.frames.len() > 0))
    }
}

/// In an aborted transaction no statement changes anything, but one that ends
/// the transaction or goes back to a savepoint.
pub proof fn law_aborted_executes_nothing(s: AnalysisStateView, m: Mutation, c: Option<CascadeView>, t: AnalysisStateView, r: MutationResultView)
    requires
        applied(s, m, c, t, r),
        s.aborted,
        !leaves_aborted(m),
    ensures
        t == s,
        r is NotExecuted,
{
}

/// A conflict within a transaction aborts it.
pub proof fn law_conflict_aborts(s: AnalysisStateView, m: Mutation, c: Option<CascadeView>, t: AnalysisStateView, r: MutationResultView)
    requires
        applied(s, m, c, t, r),
        r is Conflict,
        t.frames.len() > 0,
    ensures
        t.aborted,
{
}

/// A conflict outside of a transaction aborts nothing.
pub proof fn law_conflict_outside_aborts_nothing(s: AnalysisStateView, m: Mutation, c: Option<CascadeView>, t: AnalysisStateView, r: MutationResultView)
    requires
        applied(s, m, c, t, r),
        r is Conflict,
        !s.aborted,
        t.frames.len() == 0,
    ensures
        !t.aborted,
{
    let aborted = choose|aborted: bool| #[trigger]
        executed(s, m, c, AnalysisStateView { aborted, ..t }, r) && t.aborted == (aborted || (r is Conflict && t.frames.len() > 0));
    reveal(kept_as);
    reveal(undone_by);
    reveal(control_effect);
}

/// After a conflict within a transaction the next statement is not executed,
/// unless it ends the transaction or goes back to a savepoint.
pub proof fn law_nothing_follows_a_conflict(
    s: AnalysisStateView,
    m: Mutation,
    c: Option<CascadeView>,
    t: AnalysisStateView,
    r: MutationResultView,
    next: Mutation,
    d: Option<CascadeView>,
    u: AnalysisStateView,
    q: MutationResultView,
)
    requires
        applied(s, m, c, t, r),
        r is Conflict,
        t.frames.len() > 0,
        !leaves_aborted(next),
        applied(t, next, d, u, q),
    ensures
        q is NotExecuted,
        u == t,
{
    law_conflict_aborts(s, m, c, t, r);
}

/// Ending a transaction, by commit or by rollback, leaves no frame open and
/// the transaction not aborted.
pub proof fn law_end_closes_transaction(s: AnalysisStateView, m: Mutation, c: Option<CascadeView>, t: AnalysisStateView, r: MutationResultView)
    requires
        applied(s, m, c, t, r),
        m is CommitTransaction || m is RollbackTransaction,
    ensures
        r is Applied,
        t.frames.len() == 0,
        !t.aborted,
{
    reveal(control_effect);
    let aborted = choose|aborted: bool| #[trigger]
        executed(s, m, c, AnalysisStateView { aborted, ..t }, r) && t.aborted == (aborted || (r is Conflict && t.frames.len() > 0));
    assert(control_effect(s, m, AnalysisStateView { aborted, ..t }, r));
}

/// Committing an aborted transaction does what rolling it back does.
pub proof fn law_commit_of_aborted_rolls_back(s: AnalysisStateView, c: Option<CascadeView>, t: AnalysisStateView, u: AnalysisStateView, r: MutationResultView, q: MutationResultView)
    requires
        s.aborted,
        applied(s, Mutation::CommitTransaction, c, t, r),
        applied(s, Mutation::RollbackTransaction, c, u, q),
    ensures
        t == u,
        r == q,
{
    reveal(control_effect);
    let a = choose|aborted: bool| #[trigger]
        executed(s, Mutation::CommitTransaction, c, AnalysisStateView { aborted, ..t }, r) && t.aborted == (aborted || (r is Conflict && t.frames.len()
            > 0));
    assert(control_effect(s, Mutation::CommitTransaction, AnalysisStateView { aborted: a, ..t }, r));
    let b = choose|aborted: bool| #[trigger]
        executed(s, Mutation::RollbackTransaction, c, AnalysisStateView { aborted, ..u }, q) && u.aborted == (aborted || (q is Conflict && u.frames.len()
            > 0));
    assert(control_effect(s, Mutation::RollbackTransaction, AnalysisStateView { aborted: b, ..u }, q));
}

/// The edges once a statement was undone: those from before it, unless it drops
/// an index or a constraint or detaches a partition. What it removed then stays
/// removed.
pub open spec fn edges_once_undone(s: AnalysisStateView, m: Mutation, t: AnalysisStateView, r: MutationResultView) -> Seq<DependencyEdgeView> {
    if loses_edges(m) && r is Applied {
        t.data.graph
    } else {
        s.data.graph
    }
}

/// A statement that removes edges for good leaves no more than there were.
proof fn lemma_lost_edges_are_fewer(s: AnalysisStateView, m: Mutation, c: Option<CascadeView>, after: StateData, r: MutationResultView)
    requires
        loses_edges(m),
        r is Applied,
        object_effect(s, m, c, after, r),
    ensures
        after.graph.len() <= s.data.graph.len(),
{
    reveal(object_effect);
    reveal(action_applied);
    reveal(refused);
    reveal(without_constraint);
    reveal(with_graph);
    reveal(undone);
    match m {
        Mutation::AlterTable(x) => {
            match x.action {
                AlterTableActionMutation::DropConstraint { name, .. } => {
                    reveal(namespace_without_constraint);
                    let n = namespace_without_constraint(s.data, namespace_of(s.data), x.id@, name@);
                    let d = with_namespace(s.data, n);
                    assert(after == without_constraint(s.data, x.id@, name@));
                    assert(d.graph == s.data.graph);
                    d.graph.lemma_filter_len(|e: DependencyEdgeView| !is_constraint_edge(d, e, x.id@, name@));
                },
                AlterTableActionMutation::DetachPartition { child } => {
                    s.data.graph.lemma_filter_len(|e: DependencyEdgeView| !is_partition_of(e, child@, x.id@));
                    assert(after.graph == s.data.graph.filter(|e: DependencyEdgeView| !is_partition_of(e, child@, x.id@)));
                },
                _ => {},
            }
        },
        Mutation::DropIndex(x) => {
            lemma_dropped_indexes(s.data, s.frames.len() > 0, x);
        },
        _ => {},
    }
}

/// What a statement did within a transaction is undone by rolling back,
/// whatever the statement was and led to. Only the edges that the drop of an
/// index or a constraint, or the detaching of a partition, removed do not come
/// back.
pub proof fn law_statement_is_undone(s: AnalysisStateView, m: Mutation, c: Option<CascadeView>, t: AnalysisStateView, r: MutationResultView)
    requires
        applied(s, m, c, t, r),
        s.frames.len() > 0,
        !is_control(m),
    ensures
        rolled_back(t.data, t.frames) == rolled_back(with_edges(s.data, edges_once_undone(s, m, t, r)), s.frames),
{
    lemma_own_edges(s.data);
    if !(s.aborted && !leaves_aborted(m)) {
        let aborted = choose|aborted: bool| #[trigger]
            executed(s, m, c, AnalysisStateView { aborted, ..t }, r) && t.aborted == (aborted || (r is Conflict && t.frames.len() > 0));
        let u = AnalysisStateView { aborted, ..t };
        assert(statement_undone_by(s, m, u, r));
        if loses_edges(m) && r is Applied {
            lemma_lost_edges_are_fewer(s, m, c, u.data, r);
            law_rollback_undoes_step(s, u, EdgeUndo::Cut, t.data.graph);
            lemma_own_edges(t.data);
            assert(cut(t.data.graph, s.data.graph.len()) =~= t.data.graph);
        } else {
            law_rollback_restores(s, u, if_applied(r, edge_undo(s.data, m, u.data)));
        }
    }
}

/// The columns of a table that was created within a transaction are new in
/// it, where the transaction did not change a table of that name before.
pub proof fn law_columns_of_created_table_are_new(
    s: AnalysisStateView,
    create: CreateTable,
    c: Option<CascadeView>,
    t: AnalysisStateView,
    r: MutationResultView,
    column: Seq<char>,
)
    requires
        applied(s, Mutation::CreateTable(create), c, t, r),
        notes_changes(s, Mutation::CreateTable(create), t, r),
        r is Applied,
        s.frames.len() > 0,
        relation_before(s.frames, create.id@, 0) is None,
    ensures
        column_is_new(t.frames, create.id@, column),
{
    let m = Mutation::CreateTable(create);
    assert(is_noted(s.data, m, t.data, create.id@));
    let aborted = choose|aborted: bool| #[trigger]
        executed(s, m, c, AnalysisStateView { aborted, ..t }, r) && t.aborted == (aborted || (r is Conflict && t.frames.len() > 0));
    reveal(object_effect);
    reveal(refused);
    assert(table_created(s.data, create, s.frames.len() as u64).1 is Applied);
    reveal(table_refusal);
    reveal(place_refusal);
}

/// A column that was added within a transaction is new in it, where the
/// transaction did not change the table before.
pub proof fn law_added_column_is_new(
    s: AnalysisStateView,
    alter: AlterTable,
    c: Option<CascadeView>,
    t: AnalysisStateView,
    r: MutationResultView,
    column: Seq<char>,
)
    requires
        applied(s, Mutation::AlterTable(alter), c, t, r),
        notes_changes(s, Mutation::AlterTable(alter), t, r),
        alter.action is AddColumn && alter.action->AddColumn_name@ == column,
        r is Applied,
        s.frames.len() > 0,
        relation_before(s.frames, alter.id@, 0) is None,
    ensures
        column_is_new(t.frames, alter.id@, column),
{
    let m = Mutation::AlterTable(alter);
    assert(is_noted(s.data, m, t.data, alter.id@));
    let aborted = choose|aborted: bool| #[trigger]
        executed(s, m, c, AnalysisStateView { aborted, ..t }, r) && t.aborted == (aborted || (r is Conflict && t.frames.len() > 0));
    reveal(object_effect);
    reveal(action_applied);
    reveal(refused);
    reveal(new_column_refusal);
    lemma_column_of(columns_of(s.data, alter.id@), column);
}

/// A transaction that holds one statement, and is rolled back, leaves the
/// state as it was, whatever the statement was and led to. Only the edges that
/// the drop of an index or a constraint, or the detaching of a partition,
/// removed do not come back.
pub proof fn law_rolled_back_statement_is_nothing(
    s: AnalysisStateView,
    begun: AnalysisStateView,
    m: Mutation,
    c: Option<CascadeView>,
    t: AnalysisStateView,
    r: MutationResultView,
    u: AnalysisStateView,
    q: MutationResultView,
)
    requires
        s.frames.len() == 0,
        !s.aborted,
        applied(s, Mutation::BeginTransaction, None, begun, MutationResultView::Applied),
        applied(begun, m, c, t, r),
        !is_control(m),
        applied(t, Mutation::RollbackTransaction, None, u, q),
    ensures
        q is Applied,
        u == (AnalysisStateView { data: with_edges(s.data, edges_once_undone(s, m, t, r)), ..s }),
{
    reveal(control_effect);
    let a = choose|aborted: bool| #[trigger]
        executed(s, Mutation::BeginTransaction, None, AnalysisStateView { aborted, ..begun }, MutationResultView::Applied) && begun.aborted == (aborted || (
        MutationResultView::Applied is Conflict && begun.frames.len() > 0));
    assert(control_effect(s, Mutation::BeginTransaction, AnalysisStateView { aborted: a, ..begun }, MutationResultView::Applied));
    assert(begun == AnalysisStateView { frames: seq![root_frame()], ..s });
    law_statement_is_undone(begun, m, c, t, r);
    let left = AnalysisStateView { data: with_edges(s.data, edges_once_undone(s, m, t, r)), ..begun };
    lemma_kept_refl(left);
    law_begin_then_rollback_is_nothing(left.data, left, EdgeUndo::Stay);
    let b = choose|aborted: bool| #[trigger]
        executed(t, Mutation::RollbackTransaction, None, AnalysisStateView { aborted, ..u }, q) && u.aborted == (aborted || (q is Conflict && u.frames.len()
            > 0));
    assert(control_effect(t, Mutation::RollbackTransaction, AnalysisStateView { aborted: b, ..u }, q));
    assert(u.frames =~= s.frames);
}

impl AnalysisState {
    fn apply_control(&mut self, mutation: &Mutation) -> (r: MutationResult)
        requires
            is_control(*mutation),
        ensures
            control_effect(old(self)@, *mutation, final(self)@, r@),
    {
        proof {
            reveal(control_effect);
        }
        match mutation {
            Mutation::BeginTransaction => self.apply_begin_transaction(),
            Mutation::CommitTransaction => self.apply_commit_transaction(false),
            Mutation::CommitAndChain => self.apply_commit_transaction(true),
            Mutation::RollbackTransaction => self.apply_rollback_transaction(false),
            Mutation::RollbackAndChain => self.apply_rollback_transaction(true),
            Mutation::RollbackToSavepoint(rollback) => self.apply_rollback_to_savepoint(rollback),
            Mutation::Savepoint(savepoint) => self.apply_savepoint(savepoint),
            Mutation::ReleaseSavepoint(release) => self.apply_release_savepoint(release),
            _ => {
                assert(false);
                MutationResult::Skipped
            },
        }
    }

    fn apply_to_objects(&mut self, mutation: &Mutation, precomputed_cascade: Option<&CascadeResult>) -> (r: MutationResult)
        requires
            is_on_objects(*mutation),
            old(self)@.data.generation_counter + generations_needed(*mutation) <= u64::MAX,
        ensures
            object_effect(
                old(self)@,
                *mutation,
                match precomputed_cascade {
                    Some(c) => Some(c@),
                    None => None,
                },
                final(self)@.data,
                r@,
            ),
            statement_undone_by(old(self)@, *mutation, final(self)@, r@),
            loses_edges(*mutation) && r@ is Applied ==> match *mutation {
                Mutation::AlterTable(x) => is_noted_since(old(self)@, x.id@, final(self)@),
                _ => true,
            },
    {
        proof {
            reveal(object_effect);
        }
        match mutation {
            Mutation::CreateSchema(create_schema) => self.apply_create_schema(create_schema),
            Mutation::AlterSchema(alter_schema) => self.apply_alter_schema(alter_schema),
            Mutation::DropSchema(drop_schema) => self.apply_drop_schema(drop_schema),
            Mutation::DropTable(drop) => self.apply_drop_table(drop, precomputed_cascade),
            Mutation::CreateTable(create) => self.apply_create_table(create),
            Mutation::CreateView(create) => self.apply_create_view(create),
            Mutation::CreateMaterializedView(create) => self.apply_create_materialized_view(create),
            Mutation::RefreshMaterializedView(refresh) => self.apply_refresh_materialized_view(refresh),
            Mutation::CreateIndex(create) => self.apply_create_index(create),
            Mutation::AlterTable(alter) => self.apply_alter_table(alter),
            Mutation::CreateSequence(create) => self.apply_create_sequence(create),
            Mutation::AlterSequence(alter) => self.apply_alter_sequence(alter),
            Mutation::DropSequence(drop) => self.apply_drop_sequence(drop),
            Mutation::Rename(rename) => self.apply_rename_relation(rename),
            Mutation::DropView(drop) => self.apply_drop_view(drop),
            Mutation::DropMaterializedView(drop) => self.apply_drop_materialized_view(drop),
            Mutation::DropIndex(drop) => self.apply_drop_index(drop),
            Mutation::ChangeRelationOwner { id, new_owner } => self.apply_change_relation_owner(id, new_owner),
            _ => {
                assert(false);
                MutationResult::Skipped
            },
        }
    }

    /// Applies a statement on relations, schemas or sequences, and notes what
    /// relations were before it.
    fn apply_noting(&mut self, mutation: &Mutation, precomputed_cascade: Option<&CascadeResult>) -> (r: MutationResult)
        requires
            is_on_objects(*mutation),
            old(self)@.data.generation_counter + generations_needed(*mutation) <= u64::MAX,
        ensures
            object_effect(
                old(self)@,
                *mutation,
                match precomputed_cascade {
                    Some(c) => Some(c@),
                    None => None,
                },
                final(self)@.data,
                r@,
            ),
            statement_undone_by(old(self)@, *mutation, final(self)@, r@),
            notes_changes(old(self)@, *mutation, final(self)@, r@),
    {
        let notes = match mutation {
            Mutation::AlterTable(alter) => match &alter.action {
                AlterTableActionMutation::DropConstraint { .. } | AlterTableActionMutation::DetachPartition { .. } => false,
                action => is_noted_change(action),
            },
            Mutation::CreateTable(_) | Mutation::ChangeRelationOwner { .. } | Mutation::DropTable(_) | Mutation::DropView(_)
            | Mutation::DropMaterializedView(_) => true,
            _ => false,
        };
        if !notes || self.local.transactions.len() == 0 {
            return self.apply_to_objects(mutation, precomputed_cascade);
        }
        let ghost s = self@;
        proof {
            reveal(data_of);
        }
        let before = self.local.relations.dup();
        let frames = &self.local.transactions;
        assert(frames.deep_view()[frames.len() - 1] == frames@[frames.len() - 1]@);
        let mark = frames[frames.len() - 1].undo_log.len();
        let r = self.apply_to_objects(mutation, precomputed_cascade);
        assert(!loses_edges(*mutation));
        let applies = match &r {
            MutationResult::Applied => true,
            _ => false,
        };
        if applies {
            self.note_changes(mutation, &before, mark, Ghost(s), Ghost(r@), Ghost(if_applied(r@, edge_undo(s.data, *mutation, self@.data))));
        }
        r
    }

    fn apply_to_others(&mut self, mutation: &Mutation) -> (r: MutationResult)
        requires
            !is_on_objects(*mutation),
            !is_control(*mutation),
            !is_unmodeled(*mutation),
            old(self)@.data.generation_counter < u64::MAX,
        ensures
            other_effect(old(self)@, *mutation, final(self)@.data, r@),
            statement_undone_by(old(self)@, *mutation, final(self)@, r@),
    {
        proof {
            reveal(other_effect);
            lemma_kept_refl(self@);
        }
        match mutation {
            Mutation::CreatePolicy(create_policy) => self.apply_create_policy(create_policy),
            Mutation::DropPolicy(drop_policy) => self.apply_drop_policy(drop_policy),
            Mutation::CreateTrigger(create_trigger) => self.apply_create_trigger(create_trigger),
            Mutation::DropTrigger(drop_trigger) => self.apply_drop_trigger(drop_trigger),
            Mutation::RenameTrigger(rename_trigger) => self.apply_rename_trigger(rename_trigger),
            Mutation::SearchPath(search_path) => self.apply_search_path(search_path),
            Mutation::TimeoutSetting(timeout) => self.apply_timeout_setting(timeout),
            Mutation::ResetSettings(target) => self.apply_reset_settings(target),
            Mutation::CheckTimeouts => self.apply_check_timeouts(),
            Mutation::CreateRole(role) => self.apply_create_role(role),
            Mutation::AlterRole(role) => self.apply_alter_role(role),
            Mutation::DropRole(role) => self.apply_drop_role(role),
            Mutation::Grant(grant) => self.apply_grant(grant),
            Mutation::Revoke(revoke) => self.apply_revoke(revoke),
            Mutation::CreateDatabase(create_database) => self.apply_create_database(create_database),
            Mutation::AlterDatabase(alter_database) => self.apply_alter_database(alter_database),
            Mutation::DropDatabase(drop_database) => self.apply_drop_database(drop_database),
            Mutation::SwitchRole { role, local, is_session_auth } => self.apply_switch_role(role, *local, *is_session_auth),
            Mutation::Opaque(opaque) => self.apply_opaque(opaque),
            Mutation::Vacuum { table_id, is_full } => self.apply_vacuum(table_id, *is_full),
            _ => {
                assert(false);
                MutationResult::Skipped
            },
        }
    }

    fn apply_inner(&mut self, mutation: &Mutation, precomputed_cascade: Option<&CascadeResult>) -> (r: MutationResult)
        requires
            old(self)@.data.generation_counter + generations_needed(*mutation) <= u64::MAX,
        ensures
            executed(
                old(self)@,
                *mutation,
                match precomputed_cascade {
                    Some(c) => Some(c@),
                    None => None,
                },
                final(self)@,
                r@,
            ),
            notes_changes(old(self)@, *mutation, final(self)@, r@),
    {
        match mutation {
            Mutation::BeginTransaction | Mutation::CommitTransaction | Mutation::CommitAndChain | Mutation::RollbackTransaction | Mutation::RollbackAndChain
            | Mutation::RollbackToSavepoint(_) | Mutation::Savepoint(_) | Mutation::ReleaseSavepoint(_) => self.apply_control(mutation),
            Mutation::CreateType(_) | Mutation::AlterType(_) | Mutation::RenameType(_) | Mutation::CreateDomain(_) | Mutation::AlterDomain(_)
            | Mutation::DropDomain(_) | Mutation::DropType(_) | Mutation::CreateFunction(_) | Mutation::AlterFunction(_) | Mutation::DropFunction(_)
            | Mutation::CreateProcedure(_) | Mutation::AlterProcedure(_) | Mutation::DropProcedure(_) | Mutation::CreateAggregate(_)
            | Mutation::AlterAggregate(_) | Mutation::DropAggregate(_) | Mutation::CreatePublication(_) | Mutation::AlterPublication(_)
            | Mutation::DropPublication(_) | Mutation::CreateSubscription(_) | Mutation::AlterSubscription(_) | Mutation::DropSubscription(_) => {
                self.apply_unmodeled(mutation)
            },
            Mutation::CreateSchema(_) | Mutation::AlterSchema(_) | Mutation::DropSchema(_) | Mutation::CreateTable(_) | Mutation::CreateView(_)
            | Mutation::CreateMaterializedView(_) | Mutation::RefreshMaterializedView(_) | Mutation::CreateIndex(_) | Mutation::AlterTable(_)
            | Mutation::CreateSequence(_) | Mutation::AlterSequence(_) | Mutation::DropSequence(_) | Mutation::Rename(_) | Mutation::DropTable(_)
            | Mutation::DropView(_) | Mutation::DropMaterializedView(_) | Mutation::DropIndex(_) | Mutation::ChangeRelationOwner { .. } => {
                self.apply_noting(mutation, precomputed_cascade)
            },
            _ => self.apply_to_others(mutation),
        }
    }

    /// Applies a statement. The cascade of a table drop may be handed in where
    /// it is known already.
    pub fn apply(&mut self, mutation: &Mutation, precomputed_cascade: Option<&CascadeResult>) -> (r: MutationResult)
        requires
            old(self)@.data.generation_counter + generations_needed(*mutation) <= u64::MAX,
        ensures
            applied(
                old(self)@,
                *mutation,
                match precomputed_cascade {
                    Some(c) => Some(c@),
                    None => None,
                },
                final(self)@,
                r@,
            ),
            notes_changes(old(self)@, *mutation, final(self)@, r@),
    {
        if self.local.transaction_aborted {
            let executes = match mutation {
                Mutation::CommitTransaction | Mutation::CommitAndChain | Mutation::RollbackTransaction | Mutation::RollbackAndChain
                | Mutation::RollbackToSavepoint(_) => true,
                _ => false,
            };
            if !executes {
                return MutationResult::NotExecuted;
            }
        }
        let ghost s = self@;
        let r = self.apply_inner(mutation, precomputed_cascade);
        let ghost mid = self@;
        let conflicts = match &r {
            MutationResult::Conflict { .. } => true,
            _ => false,
        };
        if conflicts && self.local.transactions.len() > 0 {
            self.mark_transaction_aborted();
        }
        proof {
            assert(AnalysisStateView { aborted: mid.aborted, ..self@ } == mid);
            assert(self@.frames == mid.frames);
            assert(self@.aborted == (mid.aborted || (r@ is Conflict && self@.frames.len() > 0)));
        }
        r
    }
}

} // verus!
