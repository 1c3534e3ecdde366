//! Changes that can be undone.
//!
//! Every change of the state inside a transaction records in the innermost
//! frame what it replaced. Two views of the state are related by `kept` when
//! undoing what the second recorded gives back the first. Of the edges of the
//! graph a change may record all, or only how many there are, or nothing; what
//! a rollback makes of edges that were removed meanwhile rests on that.
use crate::collections::{Dup, VecSet};
use crate::evidence::{EvidenceCode, EvidenceLog, EvidenceRecord, EvidenceScope};
use crate::graph::{cut, DependencyEdge, DependencyEdgeView, DependencyGraph};
use crate::identifiers::{role_object, ObjectId};
use crate::model::constraint::ConstraintState;
use crate::model::function::FunctionOverlay;
use crate::model::relation::RelationOverlay;
use crate::model::replication::{PublicationOverlay, SubscriptionOverlay};
use crate::model::role::{RoleMembershipGrantor, RoleOverlay};
use crate::model::schema::SchemaOverlay;
use crate::model::sequence::SequenceOverlay;
use crate::model::trigger::TriggerOverlay;
use crate::model::types::TypeOverlay;
use crate::settings::ScopedSetting;
use crate::state::{data_of, AnalysisState, AnalysisStateView, Confidence, MutationResultView, StateData};
use crate::transaction::{NamespaceSnapshot, NamespaceSnapshotView, StateChange, StateChangeView, TransactionFrameView};
use vstd::prelude::*;

verus! {

/// The map with what it held at `k` put back.
pub open spec fn put_back<K, V>(m: Map<K, V>, k: K, previous: Option<V>) -> Map<K, V> {
    match previous {
        Some(v) => m.insert(k, v),
        None => m.remove(k),
    }
}

pub open spec fn looked_up<K, V>(m: Map<K, V>, k: K) -> Option<V> {
    if m.dom().contains(k) {
        Some(m[k])
    } else {
        None
    }
}

pub open spec fn with_edges(d: StateData, graph: Seq<DependencyEdgeView>) -> StateData {
    StateData { graph, ..d }
}

/// The data with the parts of a namespace snapshot.
pub open spec fn restored(d: StateData, s: NamespaceSnapshotView) -> StateData {
    StateData {
        schemas: s.schemas,
        relations: s.relations,
        types: s.types,
        functions: s.functions,
        sequences: s.sequences,
        publications: s.publications,
        triggers: s.triggers,
        constraints: s.constraints,
        graph: s.graph,
        pending_validation: s.pending_validation,
        baseline_relations: s.baseline_relations,
        baseline_indexes: s.baseline_indexes,
        baseline_foreign_keys: s.baseline_foreign_keys,
        baseline_fk_dependencies: s.baseline_fk_dependencies,
        baseline_sequences: s.baseline_sequences,
        scoped_external_relation_dependencies: s.scoped_external_relation_dependencies,
        scoped_external_type_dependencies: s.scoped_external_type_dependencies,
        scoped_external_routine_dependencies: s.scoped_external_routine_dependencies,
        baseline_schemas: s.baseline_schemas,
        search_path: s.search_path,
        search_path_template: s.search_path_template,
        session_search_path_template: s.session_search_path_template,
        ..d
    }
}

/// The data with one change undone.
#[verifier::opaque]
pub open spec fn undone(d: StateData, c: StateChangeView) -> StateData {
    match c {
        StateChangeView::SchemaSnapshot { name, previous } => StateData { schemas: put_back(d.schemas, name, previous), ..d },
        StateChangeView::NamespaceSnapshot(s) => restored(d, s),
        StateChangeView::CatalogSnapshot(s) => with_edges(restored(d, s), d.graph),
        StateChangeView::RelationSnapshot { id, previous } => StateData { relations: put_back(d.relations, id, previous), ..d },
        StateChangeView::TypeSnapshot { id, previous } => StateData { types: put_back(d.types, id, previous), ..d },
        StateChangeView::SequenceSnapshot { id, previous } => StateData { sequences: put_back(d.sequences, id, previous), ..d },
        StateChangeView::SearchPathSnapshot { previous, previous_template, previous_session_template } => StateData {
            search_path: previous,
            search_path_template: previous_template,
            session_search_path_template: previous_session_template,
            ..d
        },
        StateChangeView::TimeoutSettingsSnapshot { lock_timeout, statement_timeout } => StateData { lock_timeout, statement_timeout, ..d },
        StateChangeView::GenerationCounterSnapshot { previous } => StateData { generation_counter: previous, ..d },
        StateChangeView::PendingValidationSnapshot { previous } => StateData { pending_validation: previous, ..d },
        StateChangeView::GraphLengthMarker { len } => StateData { graph: cut(d.graph, len as nat), ..d },
        StateChangeView::GraphSnapshot { previous } => StateData { graph: previous, ..d },
        StateChangeView::FunctionSnapshot { id, previous } => StateData { functions: put_back(d.functions, id, previous), ..d },
        StateChangeView::PublicationSnapshot { id, previous } => StateData { publications: put_back(d.publications, id.name, previous), ..d },
        StateChangeView::SubscriptionSnapshot { id, previous } => StateData { subscriptions: put_back(d.subscriptions, id.name, previous), ..d },
        StateChangeView::RoleSnapshot { id, previous } => StateData { roles: put_back(d.roles, id, previous), ..d },
        StateChangeView::RoleMembershipGrantorsSnapshot { previous, complete } => StateData {
            role_membership_grantors: previous,
            role_membership_grantors_complete: complete,
            ..d
        },
        StateChangeView::TriggerSnapshot { id, previous } => StateData { triggers: put_back(d.triggers, id, previous), ..d },
        StateChangeView::ConstraintSnapshot { table_id, name, previous } => StateData {
            constraints: put_back(d.constraints, (table_id, name), previous),
            ..d
        },
        StateChangeView::BaselineForeignKeysSnapshot { previous } => StateData { baseline_foreign_keys: previous, ..d },
        StateChangeView::RoleContextSnapshot {
            current_role,
            current_role_known,
            persistent_current_role,
            persistent_current_role_known,
            session_role,
            session_role_known,
            persistent_session_role,
            persistent_session_role_known,
        } => StateData {
            current_role,
            current_role_known,
            persistent_current_role,
            persistent_current_role_known,
            session_role,
            session_role_known,
            persistent_session_role,
            persistent_session_role_known,
            ..d
        },
        StateChangeView::ConfidenceSnapshot { previous } => StateData { confidence: previous, ..d },
        StateChangeView::EvidenceSnapshot { previous } => StateData { evidence: previous, ..d },
    }
}

/// The data with a log of changes undone, the last change first.
pub open spec fn undone_all(d: StateData, log: Seq<StateChangeView>) -> StateData
    decreases log.len(),
{
    if log.len() == 0 {
        d
    } else {
        undone_all(undone(d, log.last()), log.drop_last())
    }
}

/// The open frames with one change recorded in the innermost one.
pub open spec fn recorded(frames: Seq<TransactionFrameView>, c: StateChangeView) -> Seq<TransactionFrameView> {
    if frames.len() == 0 {
        frames
    } else {
        frames.update(
            frames.len() - 1,
            TransactionFrameView { kind: frames.last().kind, undo_log: frames.last().undo_log.push(c) },
        )
    }
}

/// The state with other edges, and a mark of how many there were.
pub open spec fn with_edges_marked(s: AnalysisStateView, graph: Seq<DependencyEdgeView>) -> AnalysisStateView {
    AnalysisStateView {
        data: StateData { graph, ..s.data },
        frames: recorded(s.frames, StateChangeView::GraphLengthMarker { len: s.data.graph.len() as usize }),
        ..s
    }
}

/// How undoing a step treats the edges that it finds.
#[derive(Clone, Copy, PartialEq, Eq, Structural)]
pub enum EdgeUndo {
    /// They stay as they are.
    Stay,
    /// Those beyond the number that there was before the step are cut off.
    Cut,
    /// The edges from before the step take their place.
    PutBack,
}

/// The edges after a step was undone, from those before it and those that
/// undoing it finds.
pub open spec fn edges_undone(how: EdgeUndo, before: Seq<DependencyEdgeView>, found: Seq<DependencyEdgeView>) -> Seq<DependencyEdgeView> {
    match how {
        EdgeUndo::Stay => found,
        EdgeUndo::Cut => cut(found, before.len()),
        EdgeUndo::PutBack => before,
    }
}

/// Whether the step from `a` to `b` stays within the open frames, and undoing
/// what it recorded in the innermost one gives back the data of `a`, with the
/// edges treated as `how` says: those that `b` has, and any others that are
/// found once later steps were undone.
#[verifier::opaque]
pub open spec fn undone_by(a: AnalysisStateView, b: AnalysisStateView, how: EdgeUndo) -> bool {
    &&& b.aborted == a.aborted
    &&& b.frames.len() == a.frames.len()
    &&& a.frames.len() > 0 ==> {
        let before = a.frames.last().undo_log;
        let after = b.frames.last().undo_log;
        let added = after.skip(before.len() as int);
        &&& b.frames.drop_last() == a.frames.drop_last()
        &&& b.frames.last().kind == a.frames.last().kind
        &&& before.len() <= after.len()
        &&& after.take(before.len() as int) == before
        &&& forall|g: Seq<DependencyEdgeView>| undone_all(#[trigger] with_edges(b.data, g), added) == with_edges(a.data, edges_undone(how, a.data.graph, g))
    }
}

/// Whether undoing the step from `a` to `b` gives back the data of `a`.
#[verifier::opaque]
pub open spec fn kept_as(a: AnalysisStateView, b: AnalysisStateView, how: EdgeUndo) -> bool {
    undone_by(a, b, how) && (a.frames.len() > 0 ==> edges_undone(how, a.data.graph, b.data.graph) == a.data.graph)
}

/// Whether undoing the step from `a` to `b` gives back the data of `a`, and has
/// nothing to do with edges.
#[verifier::inline]
pub open spec fn kept(a: AnalysisStateView, b: AnalysisStateView) -> bool {
    kept_as(a, b, EdgeUndo::Stay)
}

/// How undoing two steps treats the edges, where each gives back what was
/// before it.
pub open spec fn undone_together(first: EdgeUndo, second: EdgeUndo) -> EdgeUndo {
    if first == EdgeUndo::Stay {
        second
    } else if second == EdgeUndo::Stay {
        first
    } else if first == EdgeUndo::Cut && second == EdgeUndo::Cut {
        EdgeUndo::Cut
    } else {
        EdgeUndo::PutBack
    }
}

/// How a statement is undone that has to do with edges only where it is applied.
pub open spec fn if_applied(r: MutationResultView, how: EdgeUndo) -> EdgeUndo {
    if r is Applied {
        how
    } else {
        EdgeUndo::Stay
    }
}

/// How a step that appends edges, each with a mark, is undone.
pub open spec fn appending(before: Seq<DependencyEdgeView>, after: Seq<DependencyEdgeView>) -> EdgeUndo {
    if before == after {
        EdgeUndo::Stay
    } else {
        EdgeUndo::Cut
    }
}

pub proof fn lemma_undone_concat(d: StateData, a: Seq<StateChangeView>, b: Seq<StateChangeView>)
    ensures
        undone_all(d, a + b) == undone_all(undone_all(d, b), a),
    decreases b.len(),
{
    if b.len() == 0 {
        assert(a + b =~= a);
    } else {
        assert((a + b).last() == b.last());
        assert((a + b).drop_last() =~= a + b.drop_last());
        lemma_undone_concat(undone(d, b.last()), a, b.drop_last());
    }
}

pub broadcast proof fn lemma_kept_refl(a: AnalysisStateView)
    ensures
        #[trigger] kept_as(a, a, EdgeUndo::Stay),
{
    reveal(kept_as);
    reveal(undone_by);
    if a.frames.len() > 0 {
        let log = a.frames.last().undo_log;
        assert(log.take(log.len() as int) =~= log);
        assert(log.skip(log.len() as int) =~= Seq::<StateChangeView>::empty());
    }
}

/// A step that can be undone composes with a step before it.
pub proof fn lemma_undone_after(a: AnalysisStateView, b: AnalysisStateView, c: AnalysisStateView, first: EdgeUndo, second: EdgeUndo)
    requires
        kept_as(a, b, first),
        undone_by(b, c, second),
    ensures
        undone_by(a, c, undone_together(first, second)),
{
    reveal(kept_as);
    reveal(undone_by);
    if a.frames.len() > 0 {
        let la = a.frames.last().undo_log;
        let lb = b.frames.last().undo_log;
        let lc = c.frames.last().undo_log;
        let x = lb.skip(la.len() as int);
        let y = lc.skip(lb.len() as int);
        let how = undone_together(first, second);
        let ga = a.data.graph;
        let gb = b.data.graph;
        assert(lc.take(la.len() as int) =~= lb.take(la.len() as int)) by {
            assert(lb =~= lc.take(lb.len() as int));
        }
        assert(lc.skip(la.len() as int) =~= x + y) by {
            assert(lb =~= lc.take(lb.len() as int));
        }
        assert forall|g: Seq<DependencyEdgeView>| undone_all(#[trigger] with_edges(c.data, g), x + y) == with_edges(a.data, edges_undone(how, ga, g)) by {
            let h = edges_undone(second, gb, g);
            lemma_undone_concat(with_edges(c.data, g), x, y);
            assert(undone_all(with_edges(c.data, g), y) == with_edges(b.data, h));
            assert(undone_all(with_edges(b.data, h), x) == with_edges(a.data, edges_undone(first, ga, h)));
            if first == EdgeUndo::Cut && second == EdgeUndo::Cut {
                assert(cut(cut(g, gb.len()), ga.len()) =~= cut(g, ga.len()));
            }
        }
    }
}

/// Steps that can be undone compose.
pub proof fn lemma_kept_after(a: AnalysisStateView, b: AnalysisStateView, c: AnalysisStateView, first: EdgeUndo, second: EdgeUndo)
    requires
        kept_as(a, b, first),
        kept_as(b, c, second),
    ensures
        kept_as(a, c, undone_together(first, second)),
{
    reveal(kept_as);
    reveal(undone_by);
    lemma_undone_after(a, b, c, first, second);
    if b.frames.len() > 0 && first == EdgeUndo::Cut && second == EdgeUndo::Cut {
        let ga = a.data.graph;
        let gb = b.data.graph;
        let gc = c.data.graph;
        assert(cut(cut(gc, gb.len()), ga.len()) =~= cut(gc, ga.len()));
    }
}

/// Steps that have nothing to do with edges compose.
pub broadcast proof fn lemma_kept_trans(a: AnalysisStateView, b: AnalysisStateView, c: AnalysisStateView)
    requires
        #[trigger] kept_as(a, b, EdgeUndo::Stay),
        #[trigger] kept_as(b, c, EdgeUndo::Stay),
    ensures
        kept_as(a, c, EdgeUndo::Stay),
{
    lemma_kept_after(a, b, c, EdgeUndo::Stay, EdgeUndo::Stay);
}

/// Steps that can be undone compose.
pub broadcast proof fn lemma_kept_joined(a: AnalysisStateView, b: AnalysisStateView, c: AnalysisStateView, first: EdgeUndo, second: EdgeUndo)
    requires
        #[trigger] kept_as(a, b, first),
        #[trigger] kept_as(b, c, second),
    ensures
        kept_as(a, c, undone_together(first, second)),
{
    lemma_kept_after(a, b, c, first, second);
}

pub broadcast group group_steps {
    lemma_kept_refl,
    lemma_kept_joined,
}

pub broadcast group group_kept {
    lemma_kept_refl,
    lemma_kept_trans,
}

/// A change can be undone when undoing what it recorded gives back the data
/// from before, up to the edges.
proof fn lemma_undone_change(a: AnalysisStateView, b: AnalysisStateView, c: StateChangeView, how: EdgeUndo)
    requires
        b.aborted == a.aborted,
        b.frames == recorded(a.frames, c),
        a.frames.len() > 0 ==> forall|g: Seq<DependencyEdgeView>| undone(#[trigger] with_edges(b.data, g), c) == with_edges(
            a.data,
            edges_undone(how, a.data.graph, g),
        ),
    ensures
        undone_by(a, b, how),
{
    reveal(undone_by);
    if a.frames.len() > 0 {
        let la = a.frames.last().undo_log;
        let lb = b.frames.last().undo_log;
        assert(b.frames.drop_last() =~= a.frames.drop_last());
        assert(lb.take(la.len() as int) =~= la);
        let added = lb.skip(la.len() as int);
        assert(added =~= seq![c]);
        assert(added.drop_last() =~= Seq::<StateChangeView>::empty());
        assert forall|g: Seq<DependencyEdgeView>| undone_all(#[trigger] with_edges(b.data, g), added) == with_edges(
            a.data,
            edges_undone(how, a.data.graph, g),
        ) by {
            assert(undone_all(with_edges(b.data, g), added) == undone_all(undone(with_edges(b.data, g), c), Seq::<StateChangeView>::empty()));
        }
    }
}

/// A change that has nothing to do with edges.
pub proof fn lemma_kept_change(a: AnalysisStateView, b: AnalysisStateView, c: StateChangeView)
    requires
        b.aborted == a.aborted,
        b.frames == recorded(a.frames, c),
        a.frames.len() > 0 ==> b.data.graph == a.data.graph,
        a.frames.len() > 0 ==> forall|g: Seq<DependencyEdgeView>| undone(#[trigger] with_edges(b.data, g), c) == with_edges(a.data, g),
    ensures
        kept(a, b),
{
    reveal(kept_as);
    lemma_undone_change(a, b, c, EdgeUndo::Stay);
}

/// A change that records all edges.
pub proof fn lemma_kept_set(a: AnalysisStateView, b: AnalysisStateView, c: StateChangeView)
    requires
        b.aborted == a.aborted,
        b.frames == recorded(a.frames, c),
        a.frames.len() > 0 ==> forall|g: Seq<DependencyEdgeView>| undone(#[trigger] with_edges(b.data, g), c) == a.data,
    ensures
        kept_as(a, b, EdgeUndo::PutBack),
{
    reveal(kept_as);
    lemma_undone_change(a, b, c, EdgeUndo::PutBack);
}

/// Edges that are replaced with only a mark of how many there were.
pub proof fn lemma_undone_marked(a: AnalysisStateView, b: AnalysisStateView)
    requires
        b == with_edges_marked(a, b.data.graph),
        a.data.graph.len() <= usize::MAX,
    ensures
        undone_by(a, b, EdgeUndo::Cut),
{
    reveal(undone);
    let c = StateChangeView::GraphLengthMarker { len: a.data.graph.len() as usize };
    assert(c->len as nat == a.data.graph.len());
    lemma_undone_change(a, b, c, EdgeUndo::Cut);
}

/// Undoing gives back what was before, as far as the edges that it leaves are
/// those from before.
pub proof fn lemma_kept_if_edges_are(a: AnalysisStateView, b: AnalysisStateView, how: EdgeUndo)
    requires
        undone_by(a, b, how),
        edges_undone(how, a.data.graph, b.data.graph) == a.data.graph,
    ensures
        kept_as(a, b, how),
{
    reveal(kept_as);
}

/// Undoing what a step recorded gives back the data from before it.
pub proof fn lemma_kept_gives_back(a: AnalysisStateView, b: AnalysisStateView, how: EdgeUndo)
    requires
        kept_as(a, b, how),
        a.frames.len() > 0,
    ensures
        b.frames.len() == a.frames.len(),
        b.frames.drop_last() == a.frames.drop_last(),
        b.frames.last().kind == a.frames.last().kind,
        undone_all(b.data, b.frames.last().undo_log.skip(a.frames.last().undo_log.len() as int)) == a.data,
{
    reveal(kept_as);
    lemma_undone_gives(a, b, how);
    lemma_own_edges(a.data);
}

pub proof fn lemma_own_edges(d: StateData)
    ensures
        with_edges(d, d.graph) == d,
{
}

proof fn lemma_undone_gives(a: AnalysisStateView, b: AnalysisStateView, how: EdgeUndo)
    requires
        undone_by(a, b, how),
        a.frames.len() > 0,
    ensures
        b.frames.len() == a.frames.len(),
        b.frames.drop_last() == a.frames.drop_last(),
        b.frames.last().kind == a.frames.last().kind,
        undone_all(b.data, b.frames.last().undo_log.skip(a.frames.last().undo_log.len() as int)) == with_edges(
            a.data,
            edges_undone(how, a.data.graph, b.data.graph),
        ),
{
    reveal(undone_by);
    lemma_own_edges(b.data);
    assert(undone_all(with_edges(b.data, b.data.graph), b.frames.last().undo_log.skip(a.frames.last().undo_log.len() as int)) == with_edges(
        a.data,
        edges_undone(how, a.data.graph, b.data.graph),
    ));
}

pub proof fn lemma_put_back<K, V>(m: Map<K, V>, k: K)
    ensures
        forall|v: V| put_back(#[trigger] m.insert(k, v), k, looked_up(m, k)) == m,
        put_back(m.remove(k), k, looked_up(m, k)) == m,
        put_back(m, k, looked_up(m, k)) == m,
{
    assert forall|v: V| put_back(#[trigger] m.insert(k, v), k, looked_up(m, k)) == m by {
        assert(put_back(m.insert(k, v), k, looked_up(m, k)) =~= m);
    }
    assert(put_back(m.remove(k), k, looked_up(m, k)) =~= m);
    assert(put_back(m, k, looked_up(m, k)) =~= m);
}

/// The data after a gap was recorded at the current place of the migration.
#[verifier::opaque]
pub open spec fn tainted(d: StateData, code: EvidenceCode, scope: EvidenceScope) -> StateData {
    evidenced(d, EvidenceRecord { code, scope, location: None })
}

/// The data after a gap was recorded where there is one.
#[verifier::opaque]
pub open spec fn tainted_if(d: StateData, gap: bool, code: EvidenceCode, scope: EvidenceScope) -> StateData {
    let after = tainted(d, code, scope);
    StateData {
        evidence: if gap {
            after.evidence
        } else {
            d.evidence
        },
        confidence: if gap {
            after.confidence
        } else {
            d.confidence
        },
        ..d
    }
}

/// The place that a record is made at: its own, else the current one.
pub open spec fn placed(d: StateData, record: EvidenceRecord) -> EvidenceRecord {
    if record.location is None {
        EvidenceRecord { location: d.current_evidence_location, ..record }
    } else {
        record
    }
}

/// The data after a record was added: a record without a place gets the
/// current one, and a new record makes the state tainted.
pub open spec fn evidenced(d: StateData, record: EvidenceRecord) -> StateData {
    let known = d.evidence.contains(placed(d, record));
    StateData {
        evidence: if known {
            d.evidence
        } else {
            d.evidence.push(placed(d, record))
        },
        confidence: if known {
            d.confidence
        } else {
            Confidence::Tainted
        },
        ..d
    }
}

/// The state after a record was added. A record that is known changes nothing.
/// One that is new is noted in the innermost frame by the records that there
/// were, and by the confidence where that changes.
pub open spec fn evidence_recorded(s: AnalysisStateView, record: EvidenceRecord) -> AnalysisStateView {
    if s.data.evidence.contains(placed(s.data, record)) {
        s
    } else {
        let noted = recorded(s.frames, StateChangeView::EvidenceSnapshot { previous: s.data.evidence });
        AnalysisStateView {
            data: evidenced(s.data, record),
            frames: if s.data.confidence == Confidence::Tainted {
                noted
            } else {
                recorded(noted, StateChangeView::ConfidenceSnapshot { previous: s.data.confidence })
            },
            ..s
        }
    }
}

/// Recording the same evidence again changes nothing, and after the first time
/// the evidence is known and the state tainted, where it was new.
pub proof fn law_evidence_is_recorded_once(s: AnalysisStateView, record: EvidenceRecord)
    ensures
        evidence_recorded(evidence_recorded(s, record), record) == evidence_recorded(s, record),
        evidence_recorded(s, record).data.evidence.contains(placed(s.data, record)),
        !s.data.evidence.contains(placed(s.data, record)) ==> evidence_recorded(s, record).data.confidence == Confidence::Tainted,
{
    let r = placed(s.data, record);
    if !s.data.evidence.contains(r) {
        let after = s.data.evidence.push(r);
        assert(after[after.len() - 1] == r);
    }
}

#[verifier::opaque]
pub open spec fn distrusted(d: StateData) -> StateData {
    StateData { confidence: Confidence::Tainted, ..d }
}

impl AnalysisState {
    /// Records a change in the innermost open frame.
    pub(crate) fn record(&mut self, change: StateChange)
        ensures
            final(self)@ == (AnalysisStateView { frames: recorded(old(self)@.frames, change@), ..old(self)@ }),
    {
        proof {
            reveal(data_of);
        }
        let ghost before = self@;
        let ghost c = change@;
        match self.local.transactions.pop() {
            None => {
                assert(self@.frames =~= before.frames);
            },
            Some(frame) => {
                let mut frame = frame;
                let ghost log = frame.undo_log.deep_view();
                frame.undo_log.push(change);
                assert(frame.undo_log.deep_view() =~= log.push(c));
                self.local.transactions.push(frame);
                assert(self@.frames =~= recorded(before.frames, c));
            },
        }
    }

    pub fn in_transaction(&self) -> (r: bool)
        ensures
            r == (self@.frames.len() > 0),
    {
        proof {
            reveal(data_of);
        }
        self.local.transactions.len() > 0
    }

    pub(crate) fn snapshot_confidence(&mut self)
        ensures
            final(self)@.data == old(self)@.data,
            final(self)@.frames == recorded(old(self)@.frames, StateChangeView::ConfidenceSnapshot { previous: old(self)@.data.confidence }),
            final(self)@.aborted == old(self)@.aborted,
            kept(old(self)@, final(self)@),
    {
        proof {
            reveal(data_of);
        }
        let previous = self.local.confidence;
        self.record(StateChange::ConfidenceSnapshot { previous });
        proof {
            reveal(undone);
            lemma_kept_change(old(self)@, self@, StateChangeView::ConfidenceSnapshot { previous });
        }
    }

    /// Marks the state tainted without a record of why.
    pub(crate) fn distrust(&mut self)
        ensures
            final(self)@.data == distrusted(old(self)@.data),
            final(self)@.frames == recorded(old(self)@.frames, StateChangeView::ConfidenceSnapshot { previous: old(self)@.data.confidence }),
            kept(old(self)@, final(self)@),
    {
        proof {
            reveal(data_of);
            reveal(distrusted);
        }
        let previous = self.local.confidence;
        self.record(StateChange::ConfidenceSnapshot { previous });
        self.local.confidence = Confidence::Tainted;
        proof {
            reveal(undone);
            lemma_kept_change(old(self)@, self@, StateChangeView::ConfidenceSnapshot { previous });
        }
    }

    fn set_evidence(&mut self, record: EvidenceRecord)
        requires
            !old(self)@.data.evidence.contains(record),
        ensures
            final(self)@.data == (StateData { evidence: old(self)@.data.evidence.push(record), ..old(self)@.data }),
            final(self)@.frames == recorded(old(self)@.frames, StateChangeView::EvidenceSnapshot { previous: old(self)@.data.evidence }),
            kept(old(self)@, final(self)@),
    {
        proof {
            reveal(data_of);
        }
        let previous = self.local.evidence.dup();
        let ghost c = StateChangeView::EvidenceSnapshot { previous: previous@ };
        self.record(StateChange::EvidenceSnapshot { previous });
        self.local.evidence.insert(record);
        proof {
            reveal(undone);
            lemma_kept_change(old(self)@, self@, c);
        }
    }

    /// The place that a record is made at.
    fn place(&self, record: EvidenceRecord) -> (r: EvidenceRecord)
        ensures
            r == placed(self@.data, record),
    {
        proof {
            reveal(data_of);
        }
        let mut record = record;
        if record.location.is_none() {
            record.location = self.local.current_evidence_location;
        }
        record
    }

    fn has_evidence(&self, record: &EvidenceRecord) -> (r: bool)
        ensures
            r == self@.data.evidence.contains(*record),
    {
        proof {
            reveal(data_of);
        }
        self.local.evidence.contains(record)
    }

    fn is_tainted(&self) -> (r: bool)
        ensures
            r == (self@.data.confidence == Confidence::Tainted),
    {
        proof {
            reveal(data_of);
        }
        self.local.confidence == Confidence::Tainted
    }

    /// Adds conservative-analysis evidence and marks later state tainted.
    pub fn record_evidence(&mut self, record: EvidenceRecord)
        ensures
            final(self)@ == evidence_recorded(old(self)@, record),
            final(self)@.data == evidenced(old(self)@.data, record),
            kept(old(self)@, final(self)@),
    {
        proof {
            reveal(distrusted);
            reveal(kept_as);
    reveal(undone_by);
        }
        let placed = self.place(record);
        if self.has_evidence(&placed) {
            proof {
                lemma_kept_refl(self@);
            }
            return;
        }
        let ghost a = self@;
        self.set_evidence(placed);
        if !self.is_tainted() {
            let ghost b = self@;
            self.distrust();
            proof {
                lemma_kept_trans(a, b, self@);
            }
        }
    }

    pub(crate) fn taint(&mut self, code: EvidenceCode, scope: EvidenceScope)
        ensures
            final(self)@.data == tainted(old(self)@.data, code, scope),
            kept(old(self)@, final(self)@),
    {
        proof {
            reveal(tainted);
        }
        self.record_evidence(EvidenceRecord::new(code, scope));
    }

    pub(crate) fn taint_if(&mut self, gap: bool, code: EvidenceCode, scope: EvidenceScope)
        ensures
            final(self)@.data == tainted_if(old(self)@.data, gap, code, scope),
            kept(old(self)@, final(self)@),
    {
        proof {
            reveal(tainted);
            reveal(tainted_if);
        }
        if gap {
            self.taint(code, scope);
        } else {
            proof {
                lemma_kept_refl(self@);
            }
        }
    }
}


/// The roles that a session acts for.
pub struct RoleContext {
    pub current_role: String,
    pub current_role_known: bool,
    pub persistent_current_role: String,
    pub persistent_current_role_known: bool,
    pub session_role: String,
    pub session_role_known: bool,
    pub persistent_session_role: String,
    pub persistent_session_role_known: bool,
}

#[verifier::ext_equal]
pub struct RoleContextView {
    pub current_role: Seq<char>,
    pub current_role_known: bool,
    pub persistent_current_role: Seq<char>,
    pub persistent_current_role_known: bool,
    pub session_role: Seq<char>,
    pub session_role_known: bool,
    pub persistent_session_role: Seq<char>,
    pub persistent_session_role_known: bool,
}

impl View for RoleContext {
    type V = RoleContextView;

    open spec fn view(&self) -> RoleContextView {
        RoleContextView {
            current_role: self.current_role@,
            current_role_known: self.current_role_known,
            persistent_current_role: self.persistent_current_role@,
            persistent_current_role_known: self.persistent_current_role_known,
            session_role: self.session_role@,
            session_role_known: self.session_role_known,
            persistent_session_role: self.persistent_session_role@,
            persistent_session_role_known: self.persistent_session_role_known,
        }
    }
}

pub open spec fn with_role_context(d: StateData, c: RoleContextView) -> StateData {
    StateData {
        current_role: c.current_role,
        current_role_known: c.current_role_known,
        persistent_current_role: c.persistent_current_role,
        persistent_current_role_known: c.persistent_current_role_known,
        session_role: c.session_role,
        session_role_known: c.session_role_known,
        persistent_session_role: c.persistent_session_role,
        persistent_session_role_known: c.persistent_session_role_known,
        ..d
    }
}

/// The namespace-bearing part of the data.
pub open spec fn namespace_of(d: StateData) -> NamespaceSnapshotView {
    NamespaceSnapshotView {
        schemas: d.schemas,
        relations: d.relations,
        types: d.types,
        functions: d.functions,
        sequences: d.sequences,
        publications: d.publications,
        triggers: d.triggers,
        constraints: d.constraints,
        graph: d.graph,
        pending_validation: d.pending_validation,
        baseline_relations: d.baseline_relations,
        baseline_indexes: d.baseline_indexes,
        baseline_foreign_keys: d.baseline_foreign_keys,
        baseline_fk_dependencies: d.baseline_fk_dependencies,
        baseline_sequences: d.baseline_sequences,
        scoped_external_relation_dependencies: d.scoped_external_relation_dependencies,
        scoped_external_type_dependencies: d.scoped_external_type_dependencies,
        scoped_external_routine_dependencies: d.scoped_external_routine_dependencies,
        baseline_schemas: d.baseline_schemas,
        search_path: d.search_path,
        search_path_template: d.search_path_template,
        session_search_path_template: d.session_search_path_template,
    }
}

/// The data with another namespace-bearing part.
pub open spec fn with_namespace(d: StateData, s: NamespaceSnapshotView) -> StateData {
    undone(d, StateChangeView::NamespaceSnapshot(s))
}

impl AnalysisState {
    pub(crate) fn snapshot_schema(&mut self, key: &String)
        ensures
            final(self)@ == (AnalysisStateView {
                frames: recorded(old(self)@.frames, StateChangeView::SchemaSnapshot { name: key@, previous: looked_up(old(self)@.data.schemas, key@) }),
                ..old(self)@
            }),
            kept(old(self)@, final(self)@),
    {
        proof {
            reveal(data_of);
        }
        let previous = match self.local.schemas.get(key) {
            Some(state) => Some(state.dup()),
            None => None,
        };
        self.record(StateChange::SchemaSnapshot { name: key.dup(), previous: previous });
        proof {
            lemma_put_back(old(self)@.data.schemas, key@);
            reveal(undone);
            lemma_kept_change(old(self)@, self@, StateChangeView::SchemaSnapshot { name: key@, previous: looked_up(old(self)@.data.schemas, key@) });
        }
    }

    /// Sets the entry of a schema.
    pub(crate) fn put_schema(&mut self, key: &String, state: SchemaOverlay)
        ensures
            final(self)@.data == (StateData { schemas: old(self)@.data.schemas.insert(key@, state.deep_view()), ..old(self)@.data }),
            kept(old(self)@, final(self)@),
    {
        proof {
            reveal(data_of);
        }
        self.snapshot_schema(key);
        self.local.schemas.insert(key.dup(), state);
        proof {
            lemma_put_back(old(self)@.data.schemas, key@);
            reveal(undone);
            lemma_kept_change(old(self)@, self@, StateChangeView::SchemaSnapshot { name: key@, previous: looked_up(old(self)@.data.schemas, key@) });
        }
    }

    pub(crate) fn snapshot_relation(&mut self, key: &ObjectId)
        ensures
            final(self)@ == (AnalysisStateView {
                frames: recorded(old(self)@.frames, StateChangeView::RelationSnapshot { id: key@, previous: looked_up(old(self)@.data.relations, key@) }),
                ..old(self)@
            }),
            kept(old(self)@, final(self)@),
    {
        proof {
            reveal(data_of);
        }
        let previous = match self.local.relations.get(key) {
            Some(state) => Some(state.dup()),
            None => None,
        };
        self.record(StateChange::RelationSnapshot { id: key.dup(), previous: Box::new(previous) });
        proof {
            lemma_put_back(old(self)@.data.relations, key@);
            reveal(undone);
            lemma_kept_change(old(self)@, self@, StateChangeView::RelationSnapshot { id: key@, previous: looked_up(old(self)@.data.relations, key@) });
        }
    }

    /// Sets the entry of a relation.
    pub(crate) fn put_relation(&mut self, key: &ObjectId, state: RelationOverlay)
        ensures
            final(self)@.data == (StateData { relations: old(self)@.data.relations.insert(key@, state.deep_view()), ..old(self)@.data }),
            kept(old(self)@, final(self)@),
    {
        proof {
            reveal(data_of);
        }
        self.snapshot_relation(key);
        self.local.relations.insert(key.dup(), state);
        proof {
            lemma_put_back(old(self)@.data.relations, key@);
            reveal(undone);
            lemma_kept_change(old(self)@, self@, StateChangeView::RelationSnapshot { id: key@, previous: looked_up(old(self)@.data.relations, key@) });
        }
    }

    pub(crate) fn snapshot_type(&mut self, key: &ObjectId)
        ensures
            final(self)@ == (AnalysisStateView {
                frames: recorded(old(self)@.frames, StateChangeView::TypeSnapshot { id: key@, previous: looked_up(old(self)@.data.types, key@) }),
                ..old(self)@
            }),
            kept(old(self)@, final(self)@),
    {
        proof {
            reveal(data_of);
        }
        let previous = match self.local.types.get(key) {
            Some(state) => Some(state.dup()),
            None => None,
        };
        self.record(StateChange::TypeSnapshot { id: key.dup(), previous: previous });
        proof {
            lemma_put_back(old(self)@.data.types, key@);
            reveal(undone);
            lemma_kept_change(old(self)@, self@, StateChangeView::TypeSnapshot { id: key@, previous: looked_up(old(self)@.data.types, key@) });
        }
    }

    pub(crate) fn snapshot_sequence(&mut self, key: &ObjectId)
        ensures
            final(self)@ == (AnalysisStateView {
                frames: recorded(old(self)@.frames, StateChangeView::SequenceSnapshot { id: key@, previous: looked_up(old(self)@.data.sequences, key@) }),
                ..old(self)@
            }),
            kept(old(self)@, final(self)@),
    {
        proof {
            reveal(data_of);
        }
        let previous = match self.local.sequences.get(key) {
            Some(state) => Some(state.dup()),
            None => None,
        };
        self.record(StateChange::SequenceSnapshot { id: key.dup(), previous: previous });
        proof {
            lemma_put_back(old(self)@.data.sequences, key@);
            reveal(undone);
            lemma_kept_change(old(self)@, self@, StateChangeView::SequenceSnapshot { id: key@, previous: looked_up(old(self)@.data.sequences, key@) });
        }
    }

    /// Sets the entry of a sequence.
    pub(crate) fn put_sequence(&mut self, key: &ObjectId, state: SequenceOverlay)
        ensures
            final(self)@.data == (StateData { sequences: old(self)@.data.sequences.insert(key@, state.deep_view()), ..old(self)@.data }),
            kept(old(self)@, final(self)@),
    {
        proof {
            reveal(data_of);
        }
        self.snapshot_sequence(key);
        self.local.sequences.insert(key.dup(), state);
        proof {
            lemma_put_back(old(self)@.data.sequences, key@);
            reveal(undone);
            lemma_kept_change(old(self)@, self@, StateChangeView::SequenceSnapshot { id: key@, previous: looked_up(old(self)@.data.sequences, key@) });
        }
    }

    pub(crate) fn snapshot_function(&mut self, key: &ObjectId)
        ensures
            final(self)@ == (AnalysisStateView {
                frames: recorded(old(self)@.frames, StateChangeView::FunctionSnapshot { id: key@, previous: looked_up(old(self)@.data.functions, key@) }),
                ..old(self)@
            }),
            kept(old(self)@, final(self)@),
    {
        proof {
            reveal(data_of);
        }
        let previous = match self.local.functions.get(key) {
            Some(state) => Some(state.dup()),
            None => None,
        };
        self.record(StateChange::FunctionSnapshot { id: key.dup(), previous: previous });
        proof {
            lemma_put_back(old(self)@.data.functions, key@);
            reveal(undone);
            lemma_kept_change(old(self)@, self@, StateChangeView::FunctionSnapshot { id: key@, previous: looked_up(old(self)@.data.functions, key@) });
        }
    }

    /// Sets the entry of a function.
    pub(crate) fn put_function(&mut self, key: &ObjectId, state: FunctionOverlay)
        ensures
            final(self)@.data == (StateData { functions: old(self)@.data.functions.insert(key@, state.deep_view()), ..old(self)@.data }),
            kept(old(self)@, final(self)@),
    {
        proof {
            reveal(data_of);
        }
        self.snapshot_function(key);
        self.local.functions.insert(key.dup(), state);
        proof {
            lemma_put_back(old(self)@.data.functions, key@);
            reveal(undone);
            lemma_kept_change(old(self)@, self@, StateChangeView::FunctionSnapshot { id: key@, previous: looked_up(old(self)@.data.functions, key@) });
        }
    }

    /// Removes the entry of a function.
    pub(crate) fn remove_function(&mut self, key: &ObjectId)
        ensures
            final(self)@.data == (StateData { functions: old(self)@.data.functions.remove(key@), ..old(self)@.data }),
            kept(old(self)@, final(self)@),
    {
        proof {
            reveal(data_of);
        }
        self.snapshot_function(key);
        self.local.functions.remove(key);
        proof {
            lemma_put_back(old(self)@.data.functions, key@);
            reveal(undone);
            lemma_kept_change(old(self)@, self@, StateChangeView::FunctionSnapshot { id: key@, previous: looked_up(old(self)@.data.functions, key@) });
        }
    }

    pub(crate) fn snapshot_role(&mut self, key: &ObjectId)
        ensures
            final(self)@ == (AnalysisStateView {
                frames: recorded(old(self)@.frames, StateChangeView::RoleSnapshot { id: key@, previous: looked_up(old(self)@.data.roles, key@) }),
                ..old(self)@
            }),
            kept(old(self)@, final(self)@),
    {
        proof {
            reveal(data_of);
        }
        let previous = match self.local.roles.get(key) {
            Some(state) => Some(state.dup()),
            None => None,
        };
        self.record(StateChange::RoleSnapshot { id: key.dup(), previous: previous });
        proof {
            lemma_put_back(old(self)@.data.roles, key@);
            reveal(undone);
            lemma_kept_change(old(self)@, self@, StateChangeView::RoleSnapshot { id: key@, previous: looked_up(old(self)@.data.roles, key@) });
        }
    }

    /// Sets the entry of a role.
    pub(crate) fn put_role(&mut self, key: &ObjectId, state: RoleOverlay)
        ensures
            final(self)@.data == (StateData { roles: old(self)@.data.roles.insert(key@, state.deep_view()), ..old(self)@.data }),
            kept(old(self)@, final(self)@),
    {
        proof {
            reveal(data_of);
        }
        self.snapshot_role(key);
        self.local.roles.insert(key.dup(), state);
        proof {
            lemma_put_back(old(self)@.data.roles, key@);
            reveal(undone);
            lemma_kept_change(old(self)@, self@, StateChangeView::RoleSnapshot { id: key@, previous: looked_up(old(self)@.data.roles, key@) });
        }
    }

    pub(crate) fn snapshot_trigger(&mut self, key: &ObjectId)
        ensures
            final(self)@ == (AnalysisStateView {
                frames: recorded(old(self)@.frames, StateChangeView::TriggerSnapshot { id: key@, previous: looked_up(old(self)@.data.triggers, key@) }),
                ..old(self)@
            }),
            kept(old(self)@, final(self)@),
    {
        proof {
            reveal(data_of);
        }
        let previous = match self.local.triggers.get(key) {
            Some(state) => Some(state.dup()),
            None => None,
        };
        self.record(StateChange::TriggerSnapshot { id: key.dup(), previous: previous });
        proof {
            lemma_put_back(old(self)@.data.triggers, key@);
            reveal(undone);
            lemma_kept_change(old(self)@, self@, StateChangeView::TriggerSnapshot { id: key@, previous: looked_up(old(self)@.data.triggers, key@) });
        }
    }

    /// Sets the entry of a trigger.
    pub(crate) fn put_trigger(&mut self, key: &ObjectId, state: TriggerOverlay)
        ensures
            final(self)@.data == (StateData { triggers: old(self)@.data.triggers.insert(key@, state.deep_view()), ..old(self)@.data }),
            kept(old(self)@, final(self)@),
    {
        proof {
            reveal(data_of);
        }
        self.snapshot_trigger(key);
        self.local.triggers.insert(key.dup(), state);
        proof {
            lemma_put_back(old(self)@.data.triggers, key@);
            reveal(undone);
            lemma_kept_change(old(self)@, self@, StateChangeView::TriggerSnapshot { id: key@, previous: looked_up(old(self)@.data.triggers, key@) });
        }
    }

    /// Removes the entry of a trigger.
    pub(crate) fn remove_trigger(&mut self, key: &ObjectId)
        ensures
            final(self)@.data == (StateData { triggers: old(self)@.data.triggers.remove(key@), ..old(self)@.data }),
            kept(old(self)@, final(self)@),
    {
        proof {
            reveal(data_of);
        }
        self.snapshot_trigger(key);
        self.local.triggers.remove(key);
        proof {
            lemma_put_back(old(self)@.data.triggers, key@);
            reveal(undone);
            lemma_kept_change(old(self)@, self@, StateChangeView::TriggerSnapshot { id: key@, previous: looked_up(old(self)@.data.triggers, key@) });
        }
    }

    pub(crate) fn snapshot_publication(&mut self, key: &String)
        ensures
            final(self)@ == (AnalysisStateView {
                frames: recorded(old(self)@.frames, StateChangeView::PublicationSnapshot { id: role_object(key@), previous: looked_up(old(self)@.data.publications, key@) }),
                ..old(self)@
            }),
            kept(old(self)@, final(self)@),
    {
        proof {
            reveal(data_of);
        }
        let previous = match self.local.publications.get(key) {
            Some(state) => Some(state.dup()),
            None => None,
        };
        self.record(StateChange::PublicationSnapshot { id: ObjectId::new("", key), previous: previous });
        proof {
            lemma_put_back(old(self)@.data.publications, key@);
            reveal(undone);
            lemma_kept_change(old(self)@, self@, StateChangeView::PublicationSnapshot { id: role_object(key@), previous: looked_up(old(self)@.data.publications, key@) });
        }
    }

    pub(crate) fn snapshot_subscription(&mut self, key: &String)
        ensures
            final(self)@ == (AnalysisStateView {
                frames: recorded(old(self)@.frames, StateChangeView::SubscriptionSnapshot { id: role_object(key@), previous: looked_up(old(self)@.data.subscriptions, key@) }),
                ..old(self)@
            }),
            kept(old(self)@, final(self)@),
    {
        proof {
            reveal(data_of);
        }
        let previous = match self.local.subscriptions.get(key) {
            Some(state) => Some(state.dup()),
            None => None,
        };
        self.record(StateChange::SubscriptionSnapshot { id: ObjectId::new("", key), previous: previous });
        proof {
            lemma_put_back(old(self)@.data.subscriptions, key@);
            reveal(undone);
            lemma_kept_change(old(self)@, self@, StateChangeView::SubscriptionSnapshot { id: role_object(key@), previous: looked_up(old(self)@.data.subscriptions, key@) });
        }
    }

    fn snapshot_constraint(&mut self, table: &ObjectId, name: &String)
        ensures
            final(self)@ == (AnalysisStateView {
                frames: recorded(old(self)@.frames, StateChangeView::ConstraintSnapshot { table_id: table@, name: name@, previous: looked_up(old(self)@.data.constraints, (table@, name@)) }),
                ..old(self)@
            }),
    {
        proof {
            reveal(data_of);
        }
        let key = (table.dup(), name.dup());
        let previous = match self.local.constraints.get(&key) {
            Some(state) => Some(state.dup()),
            None => None,
        };
        self.record(StateChange::ConstraintSnapshot { table_id: table.dup(), name: name.dup(), previous });
    }

    /// Sets a constraint of a table.
    pub(crate) fn put_constraint(&mut self, table: &ObjectId, name: &String, state: ConstraintState)
        ensures
            final(self)@.data == (StateData {
                constraints: old(self)@.data.constraints.insert((table@, name@), state@),
                ..old(self)@.data
            }),
            kept(old(self)@, final(self)@),
    {
        proof {
            reveal(data_of);
        }
        self.snapshot_constraint(table, name);
        self.local.constraints.insert((table.dup(), name.dup()), state);
        proof {
            lemma_put_back(old(self)@.data.constraints, (table@, name@));
            reveal(undone);
            lemma_kept_change(old(self)@, self@, StateChangeView::ConstraintSnapshot { table_id: table@, name: name@, previous: looked_up(old(self)@.data.constraints, (table@, name@)) });
        }
    }

    /// Removes a constraint of a table.
    pub(crate) fn remove_constraint(&mut self, table: &ObjectId, name: &String)
        ensures
            final(self)@.data == (StateData { constraints: old(self)@.data.constraints.remove((table@, name@)), ..old(self)@.data }),
            kept(old(self)@, final(self)@),
    {
        proof {
            reveal(data_of);
        }
        self.snapshot_constraint(table, name);
        self.local.constraints.remove(&(table.dup(), name.dup()));
        proof {
            lemma_put_back(old(self)@.data.constraints, (table@, name@));
            reveal(undone);
            lemma_kept_change(old(self)@, self@, StateChangeView::ConstraintSnapshot { table_id: table@, name: name@, previous: looked_up(old(self)@.data.constraints, (table@, name@)) });
        }
    }

    /// Moves the generation counter.
    pub(crate) fn set_generation(&mut self, generation: u64)
        ensures
            final(self)@.data == (StateData { generation_counter: generation, ..old(self)@.data }),
            kept(old(self)@, final(self)@),
    {
        proof {
            reveal(data_of);
        }
        let previous = self.local.generation_counter;
        self.record(StateChange::GenerationCounterSnapshot { previous });
        self.local.generation_counter = generation;
        proof {
            reveal(undone);
            lemma_kept_change(old(self)@, self@, StateChangeView::GenerationCounterSnapshot { previous });
        }
    }

    /// Takes the next generation number.
    pub(crate) fn bump_generation(&mut self) -> (r: u64)
        requires
            old(self)@.data.generation_counter < u64::MAX,
        ensures
            r == old(self)@.data.generation_counter + 1,
            final(self)@.data == (StateData { generation_counter: r, ..old(self)@.data }),
            kept(old(self)@, final(self)@),
    {
        proof {
            reveal(data_of);
        }
        let previous = self.local.generation_counter;
        self.record(StateChange::GenerationCounterSnapshot { previous });
        self.local.generation_counter = previous + 1;
        proof {
            reveal(undone);
            lemma_kept_change(old(self)@, self@, StateChangeView::GenerationCounterSnapshot { previous });
        }
        self.local.generation_counter
    }

    pub(crate) fn set_search_path(&mut self, path: Vec<String>, template: Vec<String>, session_template: Vec<String>)
        ensures
            final(self)@.data == (StateData {
                search_path: path.deep_view(),
                search_path_template: template.deep_view(),
                session_search_path_template: session_template.deep_view(),
                ..old(self)@.data
            }),
            kept(old(self)@, final(self)@),
    {
        proof {
            reveal(data_of);
        }
        let change = StateChange::SearchPathSnapshot {
            previous: self.local.search_path.dup(),
            previous_template: self.local.search_path_template.dup(),
            previous_session_template: self.local.session_search_path_template.dup(),
        };
        let ghost c = change@;
        self.record(change);
        self.local.search_path = path;
        self.local.search_path_template = template;
        self.local.session_search_path_template = session_template;
        proof {
            reveal(undone);
            lemma_kept_change(old(self)@, self@, c);
        }
    }

    pub(crate) fn set_timeouts(&mut self, lock_timeout: ScopedSetting<Option<u64>>, statement_timeout: ScopedSetting<Option<u64>>)
        ensures
            final(self)@.data == (StateData { lock_timeout, statement_timeout, ..old(self)@.data }),
            kept(old(self)@, final(self)@),
    {
        proof {
            reveal(data_of);
        }
        let change = StateChange::TimeoutSettingsSnapshot {
            lock_timeout: self.local.lock_timeout.dup(),
            statement_timeout: self.local.statement_timeout.dup(),
        };
        let ghost c = change@;
        self.record(change);
        self.local.lock_timeout = lock_timeout;
        self.local.statement_timeout = statement_timeout;
        proof {
            reveal(undone);
            lemma_kept_change(old(self)@, self@, c);
        }
    }

    pub(crate) fn set_pending_validation(&mut self, pending: VecSet<(ObjectId, String)>)
        ensures
            final(self)@.data == (StateData { pending_validation: pending@, ..old(self)@.data }),
            kept(old(self)@, final(self)@),
    {
        proof {
            reveal(data_of);
        }
        let change = StateChange::PendingValidationSnapshot { previous: self.local.pending_validation.dup() };
        let ghost c = change@;
        self.record(change);
        self.local.pending_validation = pending;
        proof {
            reveal(undone);
            lemma_kept_change(old(self)@, self@, c);
        }
    }

    pub(crate) fn set_baseline_foreign_keys(&mut self, keys: VecSet<(ObjectId, String)>)
        ensures
            final(self)@.data == (StateData { baseline_foreign_keys: keys@, ..old(self)@.data }),
            kept(old(self)@, final(self)@),
    {
        proof {
            reveal(data_of);
        }
        let change = StateChange::BaselineForeignKeysSnapshot { previous: self.baseline_foreign_keys.dup() };
        let ghost c = change@;
        self.record(change);
        self.baseline_foreign_keys = keys;
        proof {
            reveal(undone);
            lemma_kept_change(old(self)@, self@, c);
        }
    }

    pub(crate) fn set_role_grantors(&mut self, grantors: Vec<RoleMembershipGrantor>, complete: bool)
        ensures
            final(self)@.data == (StateData {
                role_membership_grantors: grantors.deep_view(),
                role_membership_grantors_complete: complete,
                ..old(self)@.data
            }),
            kept(old(self)@, final(self)@),
    {
        proof {
            reveal(data_of);
        }
        let change = StateChange::RoleMembershipGrantorsSnapshot {
            previous: self.local.role_membership_grantors.dup(),
            complete: self.local.role_membership_grantors_complete,
        };
        let ghost c = change@;
        self.record(change);
        self.local.role_membership_grantors = grantors;
        self.local.role_membership_grantors_complete = complete;
        proof {
            reveal(undone);
            lemma_kept_change(old(self)@, self@, c);
        }
    }

    /// Replaces the dependency graph.
    pub(crate) fn set_graph(&mut self, graph: DependencyGraph)
        ensures
            final(self)@.data == (StateData { graph: graph@, ..old(self)@.data }),
            kept_as(old(self)@, final(self)@, EdgeUndo::PutBack),
    {
        proof {
            reveal(data_of);
        }
        let change = StateChange::GraphSnapshot { previous: self.local.graph.edges().dup() };
        let ghost c = change@;
        self.record(change);
        self.local.graph = graph;
        proof {
            reveal(undone);
            lemma_kept_set(old(self)@, self@, c);
        }
    }

    /// Records how many edges there are.
    pub(crate) fn snapshot_graph(&mut self)
        ensures
            final(self)@ == (AnalysisStateView {
                frames: recorded(
                    old(self)@.frames,
                    StateChangeView::GraphLengthMarker { len: old(self)@.data.graph.len() as usize },
                ),
                ..old(self)@
            }),
            old(self)@.data.graph.len() <= usize::MAX,
    {
        proof {
            reveal(data_of);
        }
        let len = self.local.graph.edge_count();
        self.record(StateChange::GraphLengthMarker { len });
    }

    /// Replaces the edges, with no more recorded than how many there were.
    pub(crate) fn replace_edges_marked(&mut self, edges: Vec<DependencyEdge>)
        ensures
            final(self)@ == with_edges_marked(old(self)@, edges.deep_view()),
            undone_by(old(self)@, final(self)@, EdgeUndo::Cut),
    {
        proof {
            reveal(data_of);
        }
        self.snapshot_graph();
        self.local.graph.replace_edges(edges);
        proof {
            lemma_undone_marked(old(self)@, self@);
        }
    }

    /// Keeps the edges that satisfy `p`, with no more recorded than how many
    /// edges there were.
    pub(crate) fn retain_edges_marked<F: Fn(&DependencyEdge) -> bool>(&mut self, keep: F, Ghost(p): Ghost<spec_fn(DependencyEdgeView) -> bool>)
        requires
            forall|e: &DependencyEdge| keep.requires((e,)),
            forall|e: &DependencyEdge, b: bool| keep.ensures((e,), b) ==> b == p(e@),
        ensures
            final(self)@ == with_edges_marked(old(self)@, old(self)@.data.graph.filter(p)),
            undone_by(old(self)@, final(self)@, EdgeUndo::Cut),
    {
        proof {
            reveal(data_of);
        }
        self.snapshot_graph();
        self.local.graph.retain_matching(keep, Ghost(p));
        proof {
            lemma_undone_marked(old(self)@, self@);
        }
    }

    /// Appends an edge.
    pub(crate) fn append_edge(&mut self, edge: DependencyEdge)
        ensures
            final(self)@.data == (StateData { graph: old(self)@.data.graph.push(edge@), ..old(self)@.data }),
            kept_as(old(self)@, final(self)@, EdgeUndo::Cut),
            appending(old(self)@.data.graph, final(self)@.data.graph) == EdgeUndo::Cut,
    {
        proof {
            reveal(data_of);
        }
        self.snapshot_graph();
        let ghost added = edge@;
        self.local.graph.add_edge(edge);
        proof {
            let g = old(self)@.data.graph;
            assert(g.push(added).take(g.len() as int) =~= g);
            assert(g.push(added).len() != g.len());
            lemma_undone_marked(old(self)@, self@);
            lemma_kept_if_edges_are(old(self)@, self@, EdgeUndo::Cut);
        }
    }

    pub(crate) fn set_role_context(&mut self, context: RoleContext)
        ensures
            final(self)@.data == with_role_context(old(self)@.data, context@),
            kept(old(self)@, final(self)@),
    {
        proof {
            reveal(data_of);
        }
        let change = StateChange::RoleContextSnapshot {
            current_role: self.local.current_role.dup(),
            current_role_known: self.local.current_role_known,
            persistent_current_role: self.local.persistent_current_role.dup(),
            persistent_current_role_known: self.local.persistent_current_role_known,
            session_role: self.local.session_role.dup(),
            session_role_known: self.local.session_role_known,
            persistent_session_role: self.local.persistent_session_role.dup(),
            persistent_session_role_known: self.local.persistent_session_role_known,
        };
        let ghost c = change@;
        self.record(change);
        self.local.current_role = context.current_role;
        self.local.current_role_known = context.current_role_known;
        self.local.persistent_current_role = context.persistent_current_role;
        self.local.persistent_current_role_known = context.persistent_current_role_known;
        self.local.session_role = context.session_role;
        self.local.session_role_known = context.session_role_known;
        self.local.persistent_session_role = context.persistent_session_role;
        self.local.persistent_session_role_known = context.persistent_session_role_known;
        proof {
            reveal(undone);
            lemma_kept_change(old(self)@, self@, c);
        }
    }

    /// Every namespace-bearing part of the state.
    pub(crate) fn current_namespace(&self) -> (r: NamespaceSnapshot)
        ensures
            r@ == namespace_of(self@.data),
    {
        proof {
            reveal(data_of);
        }
        let snapshot = NamespaceSnapshot {
            schemas: self.local.schemas.dup(),
            relations: self.local.relations.dup(),
            types: self.local.types.dup(),
            functions: self.local.functions.dup(),
            sequences: self.local.sequences.dup(),
            publications: self.local.publications.dup(),
            triggers: self.local.triggers.dup(),
            constraints: self.local.constraints.dup(),
            graph: self.local.graph.edges().dup(),
            pending_validation: self.local.pending_validation.dup(),
            baseline_relations: self.baseline_relations.dup(),
            baseline_indexes: self.baseline_indexes.dup(),
            baseline_foreign_keys: self.baseline_foreign_keys.dup(),
            baseline_fk_dependencies: self.baseline_fk_dependencies.dup(),
            baseline_sequences: self.baseline_sequences.dup(),
            scoped_external_relation_dependencies: self.scoped_external_relation_dependencies.dup(),
            scoped_external_type_dependencies: self.scoped_external_type_dependencies.dup(),
            scoped_external_routine_dependencies: self.scoped_external_routine_dependencies.dup(),
            baseline_schemas: self.baseline_schemas.dup(),
            search_path: self.local.search_path.dup(),
            search_path_template: self.local.search_path_template.dup(),
            session_search_path_template: self.local.session_search_path_template.dup(),
        };
        assert(snapshot@ =~= namespace_of(self@.data));
        snapshot
    }

    /// Replaces every namespace-bearing part of the state.
    pub(crate) fn replace_namespace(&mut self, namespace: NamespaceSnapshot)
        ensures
            final(self)@.data == with_namespace(old(self)@.data, namespace@),
            kept_as(old(self)@, final(self)@, EdgeUndo::PutBack),
    {
        let ghost before = self@;
        let previous = self.current_namespace();
        let ghost c = StateChangeView::NamespaceSnapshot(previous@);
        self.record(StateChange::NamespaceSnapshot(Box::new(previous)));
        self.restore_namespace(namespace);
        proof {
            reveal(undone);
            lemma_kept_set(before, self@, c);
        }
    }

    /// Replaces every namespace-bearing part of the state but for the edges.
    fn replace_catalog(&mut self, namespace: NamespaceSnapshot)
        requires
            namespace@.graph == old(self)@.data.graph,
        ensures
            final(self)@.data == with_namespace(old(self)@.data, namespace@),
            kept(old(self)@, final(self)@),
    {
        let ghost before = self@;
        let previous = self.current_namespace();
        let ghost c = StateChangeView::CatalogSnapshot(previous@);
        self.record(StateChange::CatalogSnapshot(Box::new(previous)));
        self.restore_namespace(namespace);
        proof {
            reveal(undone);
            lemma_kept_change(before, self@, c);
        }
    }

    /// Replaces every namespace-bearing part of the state, where the edges from
    /// before are the first of those that there will be. Of the edges it records
    /// no more than how many there were, and nothing where none is added.
    pub(crate) fn replace_appending(&mut self, namespace: NamespaceSnapshot)
        requires
            old(self)@.data.graph.is_prefix_of(namespace@.graph),
        ensures
            final(self)@.data == with_namespace(old(self)@.data, namespace@),
            final(self)@.data.graph == namespace@.graph,
            kept_as(old(self)@, final(self)@, appending(old(self)@.data.graph, namespace@.graph)),
    {
        let ghost before = self@;
        let ghost goal = namespace@;
        let mut namespace = namespace;
        let edges = namespace.graph.dup();
        let longer = edges.len() > self.graph().edge_count();
        namespace.graph = self.graph().edges().dup();
        self.replace_catalog(namespace);
        let ghost mid = self@;
        if longer {
            self.replace_edges_marked(edges);
            proof {
                let g = before.data.graph;
                assert(cut(goal.graph, g.len()) =~= g);
                lemma_undone_after(before, mid, self@, EdgeUndo::Stay, EdgeUndo::Cut);
                lemma_kept_if_edges_are(before, self@, EdgeUndo::Cut);
            }
        } else {
            assert(goal.graph =~= before.data.graph);
        }
        proof {
            reveal(undone);
        }
    }

    /// Undoes a log of changes, the last change first.
    pub(crate) fn rollback_undo_log(&mut self, undo_log: Vec<StateChange>)
        ensures
            final(self)@ == (AnalysisStateView { data: undone_all(old(self)@.data, undo_log.deep_view()), ..old(self)@ }),
    {
        proof {
            reveal(data_of);
        }
        let mut undo_log = undo_log;
        let ghost log = undo_log.deep_view();
        let ghost start = self@;
        while undo_log.len() > 0
            invariant
                undone_all(start.data, log) == undone_all(self@.data, undo_log.deep_view()),
                self@.frames == start.frames,
                self@.aborted == start.aborted,
            decreases undo_log.len(),
        {
            let ghost left = undo_log.deep_view();
            let ghost before = self@;
            match undo_log.pop() {
                None => {},
                Some(change) => {
                    proof {
                        assert(left.last() == change@);
                        assert(undo_log.deep_view() =~= left.drop_last());
                    }
                    self.undo_change(change);
                },
            }
        }
        assert(undo_log.deep_view() =~= Seq::<StateChangeView>::empty());
    }

    fn restore_schema(&mut self, key: String, previous: Option<SchemaOverlay>)
        ensures
            final(self)@ == (AnalysisStateView { data: undone(old(self)@.data, StateChangeView::SchemaSnapshot { name: key@, previous: previous.deep_view() }), ..old(self)@ }),
    {
        proof {
            reveal(data_of);
        }
        proof {
            reveal(undone);
        }
        match previous {
            Some(state) => self.local.schemas.insert(key, state),
            None => {
                self.local.schemas.remove(&key);
            },
        }
    }

    fn restore_relation(&mut self, key: ObjectId, previous: Option<RelationOverlay>)
        ensures
            final(self)@ == (AnalysisStateView { data: undone(old(self)@.data, StateChangeView::RelationSnapshot { id: key@, previous: previous.deep_view() }), ..old(self)@ }),
    {
        proof {
            reveal(data_of);
        }
        proof {
            reveal(undone);
        }
        match previous {
            Some(state) => self.local.relations.insert(key, state),
            None => {
                self.local.relations.remove(&key);
            },
        }
    }

    fn restore_type(&mut self, key: ObjectId, previous: Option<TypeOverlay>)
        ensures
            final(self)@ == (AnalysisStateView { data: undone(old(self)@.data, StateChangeView::TypeSnapshot { id: key@, previous: previous.deep_view() }), ..old(self)@ }),
    {
        proof {
            reveal(data_of);
        }
        proof {
            reveal(undone);
        }
        match previous {
            Some(state) => self.local.types.insert(key, state),
            None => {
                self.local.types.remove(&key);
            },
        }
    }

    fn restore_sequence(&mut self, key: ObjectId, previous: Option<SequenceOverlay>)
        ensures
            final(self)@ == (AnalysisStateView { data: undone(old(self)@.data, StateChangeView::SequenceSnapshot { id: key@, previous: previous.deep_view() }), ..old(self)@ }),
    {
        proof {
            reveal(data_of);
        }
        proof {
            reveal(undone);
        }
        match previous {
            Some(state) => self.local.sequences.insert(key, state),
            None => {
                self.local.sequences.remove(&key);
            },
        }
    }

    fn restore_function(&mut self, key: ObjectId, previous: Option<FunctionOverlay>)
        ensures
            final(self)@ == (AnalysisStateView { data: undone(old(self)@.data, StateChangeView::FunctionSnapshot { id: key@, previous: previous.deep_view() }), ..old(self)@ }),
    {
        proof {
            reveal(data_of);
        }
        proof {
            reveal(undone);
        }
        match previous {
            Some(state) => self.local.functions.insert(key, state),
            None => {
                self.local.functions.remove(&key);
            },
        }
    }

    fn restore_role(&mut self, key: ObjectId, previous: Option<RoleOverlay>)
        ensures
            final(self)@ == (AnalysisStateView { data: undone(old(self)@.data, StateChangeView::RoleSnapshot { id: key@, previous: previous.deep_view() }), ..old(self)@ }),
    {
        proof {
            reveal(data_of);
        }
        proof {
            reveal(undone);
        }
        match previous {
            Some(state) => self.local.roles.insert(key, state),
            None => {
                self.local.roles.remove(&key);
            },
        }
    }

    fn restore_trigger(&mut self, key: ObjectId, previous: Option<TriggerOverlay>)
        ensures
            final(self)@ == (AnalysisStateView { data: undone(old(self)@.data, StateChangeView::TriggerSnapshot { id: key@, previous: previous.deep_view() }), ..old(self)@ }),
    {
        proof {
            reveal(data_of);
        }
        proof {
            reveal(undone);
        }
        match previous {
            Some(state) => self.local.triggers.insert(key, state),
            None => {
                self.local.triggers.remove(&key);
            },
        }
    }

    fn restore_publication(&mut self, key: ObjectId, previous: Option<PublicationOverlay>)
        ensures
            final(self)@ == (AnalysisStateView { data: undone(old(self)@.data, StateChangeView::PublicationSnapshot { id: key@, previous: previous.deep_view() }), ..old(self)@ }),
    {
        proof {
            reveal(data_of);
        }
        proof {
            reveal(undone);
        }
        match previous {
            Some(state) => self.local.publications.insert(key.name, state),
            None => {
                self.local.publications.remove(&key.name);
            },
        }
    }

    fn restore_subscription(&mut self, key: ObjectId, previous: Option<SubscriptionOverlay>)
        ensures
            final(self)@ == (AnalysisStateView { data: undone(old(self)@.data, StateChangeView::SubscriptionSnapshot { id: key@, previous: previous.deep_view() }), ..old(self)@ }),
    {
        proof {
            reveal(data_of);
        }
        proof {
            reveal(undone);
        }
        match previous {
            Some(state) => self.local.subscriptions.insert(key.name, state),
            None => {
                self.local.subscriptions.remove(&key.name);
            },
        }
    }

    fn restore_namespace(&mut self, snapshot: NamespaceSnapshot)
        ensures
            final(self)@ == (AnalysisStateView {
                data: undone(old(self)@.data, StateChangeView::NamespaceSnapshot(snapshot@)),
                ..old(self)@
            }),
    {
        proof {
            reveal(data_of);
        }
        proof {
            reveal(undone);
        }
        self.local.schemas = snapshot.schemas;
        self.local.relations = snapshot.relations;
        self.local.types = snapshot.types;
        self.local.functions = snapshot.functions;
        self.local.sequences = snapshot.sequences;
        self.local.publications = snapshot.publications;
        self.local.triggers = snapshot.triggers;
        self.local.constraints = snapshot.constraints;
        self.local.graph.replace_edges(snapshot.graph);
        self.local.pending_validation = snapshot.pending_validation;
        self.baseline_relations = snapshot.baseline_relations;
        self.baseline_indexes = snapshot.baseline_indexes;
        self.baseline_foreign_keys = snapshot.baseline_foreign_keys;
        self.baseline_fk_dependencies = snapshot.baseline_fk_dependencies;
        self.baseline_sequences = snapshot.baseline_sequences;
        self.scoped_external_relation_dependencies = snapshot.scoped_external_relation_dependencies;
        self.scoped_external_type_dependencies = snapshot.scoped_external_type_dependencies;
        self.scoped_external_routine_dependencies = snapshot.scoped_external_routine_dependencies;
        self.baseline_schemas = snapshot.baseline_schemas;
        self.local.search_path = snapshot.search_path;
        self.local.search_path_template = snapshot.search_path_template;
        self.local.session_search_path_template = snapshot.session_search_path_template;
    }

    fn restore_search_path(&mut self, previous: Vec<String>, previous_template: Vec<String>, previous_session_template: Vec<String>)
        ensures
            final(self)@ == (AnalysisStateView { data: undone(old(self)@.data, StateChangeView::SearchPathSnapshot { previous: previous.deep_view(), previous_template: previous_template.deep_view(), previous_session_template: previous_session_template.deep_view() }), ..old(self)@ }),
    {
        proof {
            reveal(data_of);
        }
        proof {
            reveal(undone);
        }
        self.local.search_path = previous;
        self.local.search_path_template = previous_template;
        self.local.session_search_path_template = previous_session_template;
    }

    fn restore_timeouts(&mut self, lock_timeout: ScopedSetting<Option<u64>>, statement_timeout: ScopedSetting<Option<u64>>)
        ensures
            final(self)@ == (AnalysisStateView { data: undone(old(self)@.data, StateChangeView::TimeoutSettingsSnapshot { lock_timeout: lock_timeout.deep_view(), statement_timeout: statement_timeout.deep_view() }), ..old(self)@ }),
    {
        proof {
            reveal(data_of);
        }
        proof {
            reveal(undone);
        }
        self.local.lock_timeout = lock_timeout;
        self.local.statement_timeout = statement_timeout;
    }

    fn restore_generation(&mut self, previous: u64)
        ensures
            final(self)@ == (AnalysisStateView { data: undone(old(self)@.data, StateChangeView::GenerationCounterSnapshot { previous: previous.deep_view() }), ..old(self)@ }),
    {
        proof {
            reveal(data_of);
        }
        proof {
            reveal(undone);
        }
        self.local.generation_counter = previous;
    }

    fn restore_pending_validation(&mut self, previous: VecSet<(ObjectId, String)>)
        ensures
            final(self)@ == (AnalysisStateView { data: undone(old(self)@.data, StateChangeView::PendingValidationSnapshot { previous: previous.deep_view() }), ..old(self)@ }),
    {
        proof {
            reveal(data_of);
        }
        proof {
            reveal(undone);
        }
        self.local.pending_validation = previous;
    }

    fn restore_role_grantors(&mut self, previous: Vec<RoleMembershipGrantor>, complete: bool)
        ensures
            final(self)@ == (AnalysisStateView { data: undone(old(self)@.data, StateChangeView::RoleMembershipGrantorsSnapshot { previous: previous.deep_view(), complete: complete.deep_view() }), ..old(self)@ }),
    {
        proof {
            reveal(data_of);
        }
        proof {
            reveal(undone);
        }
        self.local.role_membership_grantors = previous;
        self.local.role_membership_grantors_complete = complete;
    }

    fn restore_baseline_foreign_keys(&mut self, previous: VecSet<(ObjectId, String)>)
        ensures
            final(self)@ == (AnalysisStateView { data: undone(old(self)@.data, StateChangeView::BaselineForeignKeysSnapshot { previous: previous.deep_view() }), ..old(self)@ }),
    {
        proof {
            reveal(data_of);
        }
        proof {
            reveal(undone);
        }
        self.baseline_foreign_keys = previous;
    }

    fn restore_confidence(&mut self, previous: Confidence)
        ensures
            final(self)@ == (AnalysisStateView { data: undone(old(self)@.data, StateChangeView::ConfidenceSnapshot { previous: previous.deep_view() }), ..old(self)@ }),
    {
        proof {
            reveal(data_of);
        }
        proof {
            reveal(undone);
        }
        self.local.confidence = previous;
    }

    fn restore_evidence(&mut self, previous: EvidenceLog)
        ensures
            final(self)@ == (AnalysisStateView { data: undone(old(self)@.data, StateChangeView::EvidenceSnapshot { previous: previous.deep_view() }), ..old(self)@ }),
    {
        proof {
            reveal(data_of);
        }
        proof {
            reveal(undone);
        }
        self.local.evidence = previous;
    }

    fn restore_role_context(&mut self, current_role: String, current_role_known: bool, persistent_current_role: String, persistent_current_role_known: bool, session_role: String, session_role_known: bool, persistent_session_role: String, persistent_session_role_known: bool)
        ensures
            final(self)@ == (AnalysisStateView { data: undone(old(self)@.data, StateChangeView::RoleContextSnapshot { current_role: current_role.deep_view(), current_role_known: current_role_known.deep_view(), persistent_current_role: persistent_current_role.deep_view(), persistent_current_role_known: persistent_current_role_known.deep_view(), session_role: session_role.deep_view(), session_role_known: session_role_known.deep_view(), persistent_session_role: persistent_session_role.deep_view(), persistent_session_role_known: persistent_session_role_known.deep_view() }), ..old(self)@ }),
    {
        proof {
            reveal(data_of);
        }
        proof {
            reveal(undone);
        }
        self.local.current_role = current_role;
        self.local.current_role_known = current_role_known;
        self.local.persistent_current_role = persistent_current_role;
        self.local.persistent_current_role_known = persistent_current_role_known;
        self.local.session_role = session_role;
        self.local.session_role_known = session_role_known;
        self.local.persistent_session_role = persistent_session_role;
        self.local.persistent_session_role_known = persistent_session_role_known;
    }

    fn restore_graph_length(&mut self, len: usize)
        ensures
            final(self)@ == (AnalysisStateView { data: undone(old(self)@.data, StateChangeView::GraphLengthMarker { len }), ..old(self)@ }),
    {
        proof {
            reveal(data_of);
        }
        proof {
            reveal(undone);
        }
        self.local.graph.truncate(len);
    }

    fn restore_graph(&mut self, previous: Vec<DependencyEdge>)
        ensures
            final(self)@ == (AnalysisStateView { data: undone(old(self)@.data, StateChangeView::GraphSnapshot { previous: previous.deep_view() }), ..old(self)@ }),
    {
        proof {
            reveal(data_of);
        }
        proof {
            reveal(undone);
        }
        self.local.graph.replace_edges(previous);
    }

    fn restore_constraint(&mut self, table_id: ObjectId, name: String, previous: Option<ConstraintState>)
        ensures
            final(self)@ == (AnalysisStateView { data: undone(old(self)@.data, StateChangeView::ConstraintSnapshot { table_id: table_id@, name: name@, previous: previous.deep_view() }), ..old(self)@ }),
    {
        proof {
            reveal(data_of);
        }
        proof {
            reveal(undone);
        }
        let key = (table_id, name);
        match previous {
            Some(state) => self.local.constraints.insert(key, state),
            None => {
                self.local.constraints.remove(&key);
            },
        }
    }

    fn undo_change(&mut self, change: StateChange)
        ensures
            final(self)@ == (AnalysisStateView { data: undone(old(self)@.data, change@), ..old(self)@ }),
    {
        proof {
            reveal(data_of);
        }
        match change {
            StateChange::SchemaSnapshot { name, previous } => self.restore_schema(name, previous),
            StateChange::RelationSnapshot { id, previous } => self.restore_relation(id, *previous),
            StateChange::TypeSnapshot { id, previous } => self.restore_type(id, previous),
            StateChange::SequenceSnapshot { id, previous } => self.restore_sequence(id, previous),
            StateChange::FunctionSnapshot { id, previous } => self.restore_function(id, previous),
            StateChange::RoleSnapshot { id, previous } => self.restore_role(id, previous),
            StateChange::TriggerSnapshot { id, previous } => self.restore_trigger(id, previous),
            StateChange::PublicationSnapshot { id, previous } => self.restore_publication(id, previous),
            StateChange::SubscriptionSnapshot { id, previous } => self.restore_subscription(id, previous),
            StateChange::NamespaceSnapshot(snapshot) => self.restore_namespace(*snapshot),
            StateChange::CatalogSnapshot(snapshot) => {
                let mut snapshot = *snapshot;
                snapshot.graph = self.graph().edges().dup();
                self.restore_namespace(snapshot);
                proof {
                    reveal(undone);
                }
            },
            StateChange::SearchPathSnapshot { previous, previous_template, previous_session_template } => self.restore_search_path(previous, previous_template, previous_session_template),
            StateChange::TimeoutSettingsSnapshot { lock_timeout, statement_timeout } => self.restore_timeouts(lock_timeout, statement_timeout),
            StateChange::GenerationCounterSnapshot { previous } => self.restore_generation(previous),
            StateChange::PendingValidationSnapshot { previous } => self.restore_pending_validation(previous),
            StateChange::RoleMembershipGrantorsSnapshot { previous, complete } => self.restore_role_grantors(previous, complete),
            StateChange::BaselineForeignKeysSnapshot { previous } => self.restore_baseline_foreign_keys(previous),
            StateChange::ConfidenceSnapshot { previous } => self.restore_confidence(previous),
            StateChange::EvidenceSnapshot { previous } => self.restore_evidence(previous),
            StateChange::RoleContextSnapshot { current_role, current_role_known, persistent_current_role, persistent_current_role_known, session_role, session_role_known, persistent_session_role, persistent_session_role_known } => self.restore_role_context(current_role, current_role_known, persistent_current_role, persistent_current_role_known, session_role, session_role_known, persistent_session_role, persistent_session_role_known),
            StateChange::GraphLengthMarker { len } => self.restore_graph_length(len),
            StateChange::GraphSnapshot { previous } => self.restore_graph(previous),
            StateChange::ConstraintSnapshot { table_id, name, previous } => self.restore_constraint(table_id, name, previous),
        }
    }
}

} // verus!
