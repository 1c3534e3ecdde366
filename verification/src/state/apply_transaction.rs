//! Transactions, savepoints and rollback.
use crate::collections::Dup;
use crate::evidence::{EvidenceCode, EvidenceScope};
use crate::graph::DependencyEdgeView;
use crate::mutations::{ReleaseSavepointMutation, RollbackToSavepointMutation, SavepointMutation};
use crate::settings::ScopedSetting;
use crate::state::journal::{
    edges_undone, kept, kept_as, lemma_kept_gives_back, lemma_own_edges, lemma_undone_concat, tainted, undone, undone_all, undone_by, with_edges,
    EdgeUndo,
};
use crate::state::lookup::{conflict, conflict_with};
use crate::state::search_path::{lemma_kept_frames, refreshed};
use crate::state::{data_of, AnalysisState, AnalysisStateView, MutationResult, MutationResultView, StateData};
use crate::text::join3;
use crate::transaction::{is_savepoint, StateChange, StateChangeView, TransactionFrame, TransactionFrameKindView, TransactionFrameView};
use vstd::prelude::*;

verus! {

pub open spec fn root_frame() -> TransactionFrameView {
    TransactionFrameView { kind: TransactionFrameKindView::Root, undo_log: Seq::empty() }
}

pub open spec fn savepoint_frame(name: Seq<char>) -> TransactionFrameView {
    TransactionFrameView { kind: TransactionFrameKindView::Savepoint(name), undo_log: Seq::empty() }
}

/// The data after every change in these frames was undone, the innermost
/// frame first.
pub open spec fn rolled_back(d: StateData, frames: Seq<TransactionFrameView>) -> StateData
    decreases frames.len(),
{
    if frames.len() == 0 {
        d
    } else {
        rolled_back(undone_all(d, frames.last().undo_log), frames.drop_last())
    }
}

/// The frames of a chained transaction, or none.
pub open spec fn next_frames(chain: bool) -> Seq<TransactionFrameView> {
    if chain {
        seq![root_frame()]
    } else {
        Seq::empty()
    }
}

pub open spec fn session_value(s: ScopedSetting<Option<u64>>) -> ScopedSetting<Option<u64>> {
    ScopedSetting { effective: s.session, ..s }
}

/// The data after the end of a transaction: settings that were local to it
/// give way to those of the session.
pub open spec fn session_restored(d: StateData) -> StateData {
    refreshed(
        StateData {
            current_role: d.persistent_current_role,
            current_role_known: d.persistent_current_role_known,
            session_role: d.persistent_session_role,
            session_role_known: d.persistent_session_role_known,
            search_path_template: d.session_search_path_template,
            lock_timeout: session_value(d.lock_timeout),
            statement_timeout: session_value(d.statement_timeout),
            ..d
        },
    )
}

pub open spec fn unknown_transaction(d: StateData) -> StateData {
    tainted(d, EvidenceCode::TransactionStateUnknown, EvidenceScope::Chain)
}

/// The position of the innermost savepoint of that name, or -1.
pub open spec fn last_savepoint(frames: Seq<TransactionFrameView>, name: Seq<char>) -> int
    decreases frames.len(),
{
    if frames.len() == 0 {
        -1
    } else if is_savepoint(frames.last(), name) {
        frames.len() - 1
    } else {
        last_savepoint(frames.drop_last(), name)
    }
}

/// The changes of these frames in order.
pub open spec fn joined_logs(frames: Seq<TransactionFrameView>) -> Seq<StateChangeView>
    decreases frames.len(),
{
    if frames.len() == 0 {
        Seq::empty()
    } else {
        joined_logs(frames.drop_last()) + frames.last().undo_log
    }
}

pub open spec fn no_such_savepoint(name: Seq<char>) -> MutationResultView {
    conflict("savepoint '"@ + name + "' does not exist"@)
}

pub open spec fn savepoint_outside(name: Seq<char>) -> MutationResultView {
    conflict("savepoint '"@ + name + "' is not inside a transaction"@)
}

impl AnalysisState {
    fn open_frame(&mut self, frame: TransactionFrame)
        ensures
            final(self)@ == (AnalysisStateView { frames: old(self)@.frames.push(frame@), ..old(self)@ }),
    {
        proof {
            reveal(data_of);
        }
        let ghost before = self@.frames;
        let ghost added = frame@;
        self.local.transactions.push(frame);
        assert(self@.frames =~= before.push(added));
    }

    fn pop_frame(&mut self) -> (r: Option<TransactionFrame>)
        ensures
            match r {
                Some(frame) => old(self)@.frames.len() > 0 && frame@ == old(self)@.frames.last() && final(self)@ == (AnalysisStateView {
                    frames: old(self)@.frames.drop_last(),
                    ..old(self)@
                }),
                None => old(self)@.frames.len() == 0 && final(self)@ == old(self)@,
            },
    {
        proof {
            reveal(data_of);
        }
        let ghost before = self@.frames;
        let r = self.local.transactions.pop();
        proof {
            if before.len() > 0 {
                assert(self@.frames =~= before.drop_last());
            } else {
                assert(self@.frames =~= before);
            }
        }
        r
    }

    fn close_frames(&mut self)
        ensures
            final(self)@ == (AnalysisStateView { frames: Seq::empty(), ..old(self)@ }),
    {
        proof {
            reveal(data_of);
        }
        self.local.transactions = Vec::new();
        assert(self@.frames =~= Seq::<TransactionFrameView>::empty());
    }

    fn set_aborted(&mut self, aborted: bool)
        ensures
            final(self)@ == (AnalysisStateView { aborted, ..old(self)@ }),
    {
        proof {
            reveal(data_of);
        }
        self.local.transaction_aborted = aborted;
    }

    /// Opens a new transaction where the last one was chained.
    fn chain_transaction(&mut self, chain: bool)
        requires
            old(self)@.frames.len() == 0,
        ensures
            final(self)@ == (AnalysisStateView { frames: next_frames(chain), ..old(self)@ }),
    {
        if chain {
            self.open_frame(TransactionFrame::root());
        }
        assert(self@.frames =~= next_frames(chain));
    }

    fn refuse_savepoint(&mut self, name: &String) -> (r: MutationResult)
        ensures
            r@ == no_such_savepoint(name@),
            final(self)@.data == unknown_transaction(old(self)@.data),
            kept(old(self)@, AnalysisStateView { aborted: old(self)@.aborted, ..final(self)@ }),
            final(self)@.aborted == (old(self)@.aborted || old(self)@.frames.len() > 0),
    {
        proof {
            reveal(data_of);
        }
        let ghost s = self@;
        self.taint(EvidenceCode::TransactionStateUnknown, EvidenceScope::Chain);
        let ghost t = self@;
        proof {
            lemma_kept_frames(s, self@);
        }
        if self.local.transactions.len() > 0 {
            self.set_aborted(true);
        }
        assert(AnalysisStateView { aborted: s.aborted, ..self@ } == t);
        conflict_with(join3("savepoint '", name, "' does not exist"))
    }

    /// The changes recorded from frame `position` on.
    fn logs_from(&self, position: usize) -> (merged: Vec<StateChange>)
        requires
            position <= self@.frames.len(),
        ensures
            merged.deep_view() == joined_logs(self@.frames.skip(position as int)),
    {
        proof {
            reveal(data_of);
        }
        let ghost inner = self@.frames.skip(position as int);
        let mut merged: Vec<StateChange> = Vec::new();
        let mut i: usize = position;
        let n = self.local.transactions.len();
        assert(merged.deep_view() =~= joined_logs(inner.take(0)));
        while i < n
            invariant
                position <= i <= n,
                n == self.local.transactions.len(),
                self@.frames.len() == n,
                inner == self@.frames.skip(position as int),
                merged.deep_view() == joined_logs(inner.take(i - position)),
            decreases n - i,
        {
            let mut log = self.local.transactions[i].undo_log.dup();
            let ghost added = log.deep_view();
            let ghost before = merged.deep_view();
            merged.append(&mut log);
            proof {
                assert(merged.deep_view() =~= before + added);
                assert(self@.frames[i as int] == self.local.transactions@[i as int]@);
                assert(inner.take(i + 1 - position).drop_last() =~= inner.take(i - position));
                assert(inner.take(i + 1 - position).last() == self@.frames[i as int]);
            }
            i = i + 1;
        }
        assert(inner.take(n - position) =~= inner);
        merged
    }

    /// Keeps the frames before `position`, and adds a log to the last of them.
    fn merge_into(&mut self, position: usize, merged: Vec<StateChange>)
        requires
            0 < position < old(self)@.frames.len(),
        ensures
            ({
                let s = old(self)@;
                let at = position as int;
                final(self)@ == (AnalysisStateView {
                    frames: s.frames.take(at - 1).push(
                        TransactionFrameView { kind: s.frames[at - 1].kind, undo_log: s.frames[at - 1].undo_log + merged.deep_view() },
                    ),
                    ..s
                })
            }),
    {
        proof {
            reveal(data_of);
        }
        let ghost s = self@;
        let ghost added = merged.deep_view();
        let mut merged = merged;
        self.local.transactions.truncate(position);
        assert(self@.frames =~= s.frames.take(position as int));
        match self.local.transactions.pop() {
            None => {
                assert(false);
            },
            Some(outer) => {
                let mut outer = outer;
                let ghost log = outer.undo_log.deep_view();
                outer.undo_log.append(&mut merged);
                assert(outer.undo_log.deep_view() =~= log + added);
                self.local.transactions.push(outer);
            },
        }
        proof {
            let at = position as int;
            assert(self@.frames =~= s.frames.take(at - 1).push(
                TransactionFrameView { kind: s.frames[at - 1].kind, undo_log: s.frames[at - 1].undo_log + added },
            ));
        }
    }

    pub(crate) fn apply_begin_transaction(&mut self) -> (r: MutationResult)
        ensures
            old(self)@.frames.len() == 0 ==> r@ is Applied && final(self)@ == (AnalysisStateView {
                frames: seq![root_frame()],
                ..old(self)@
            }),
            old(self)@.frames.len() > 0 ==> r@ is Skipped && final(self)@ == old(self)@,
    {
        proof {
            reveal(data_of);
        }
        if self.local.transactions.len() == 0 {
            self.local.transactions.push(TransactionFrame::root());
            assert(self@.frames =~= seq![root_frame()]);
            MutationResult::Applied
        } else {
            MutationResult::Skipped
        }
    }

    /// Undoes the frames from position `keep` on.
    fn unwind_to(&mut self, keep: usize)
        requires
            keep <= old(self)@.frames.len(),
        ensures
            final(self)@.data == rolled_back(old(self)@.data, old(self)@.frames.skip(keep as int)),
            final(self)@.frames == old(self)@.frames.take(keep as int),
            final(self)@.aborted == old(self)@.aborted,
    {
        proof {
            reveal(data_of);
        }
        let ghost start = self@;
        let ghost inner = start.frames.skip(keep as int);
        proof {
            assert(start.frames.take(start.frames.len() as int) =~= start.frames);
            assert(inner.take(inner.len() as int) =~= inner);
        }
        while self.local.transactions.len() > keep
            invariant
                keep <= self@.frames.len() <= start.frames.len(),
                self@.frames.len() == self.local.transactions.len(),
                self@.frames == start.frames.take(self@.frames.len() as int),
                inner == start.frames.skip(keep as int),
                self@.aborted == start.aborted,
                rolled_back(start.data, inner) == rolled_back(self@.data, inner.take(self@.frames.len() - keep)),
            decreases self.local.transactions.len(),
        {
            let ghost before = self@;
            match self.pop_frame() {
                None => {},
                Some(frame) => {
                    let ghost n = before.frames.len() - keep;
                    proof {
                        assert(self@.frames =~= start.frames.take(before.frames.len() - 1));
                        assert(inner.take(n).last() == before.frames.last());
                        assert(inner.take(n).drop_last() =~= inner.take(n - 1));
                    }
                    self.rollback_frame(frame);
                },
            }
        }
        assert(inner.take(0) =~= Seq::<TransactionFrameView>::empty());
    }

    fn rollback_frame(&mut self, frame: TransactionFrame)
        ensures
            final(self)@ == (AnalysisStateView { data: undone_all(old(self)@.data, frame@.undo_log), ..old(self)@ }),
    {
        self.rollback_undo_log(frame.undo_log);
    }

    /// Ends the transaction's local settings. Only called outside of any
    /// frame.
    fn restore_persistent_role_context(&mut self)
        requires
            old(self)@.frames.len() == 0,
        ensures
            final(self)@ == (AnalysisStateView { data: session_restored(old(self)@.data), ..old(self)@ }),
    {
        proof {
            reveal(data_of);
        }
        self.local.current_role = self.local.persistent_current_role.clone();
        self.local.current_role_known = self.local.persistent_current_role_known;
        self.local.session_role = self.local.persistent_session_role.clone();
        self.local.session_role_known = self.local.persistent_session_role_known;
        self.local.search_path_template = self.local.session_search_path_template.dup();
        self.local.lock_timeout.reset_effective_to_session();
        self.local.statement_timeout.reset_effective_to_session();
        self.refresh_role_sensitive_search_path();
    }

    pub(crate) fn apply_commit_transaction(&mut self, chain: bool) -> (r: MutationResult)
        ensures
            chain && old(self)@.frames.len() == 0 ==> {
                &&& r@ == conflict("COMMIT AND CHAIN can only be used in transaction blocks"@)
                &&& final(self)@.data == unknown_transaction(old(self)@.data)
                &&& kept(old(self)@, final(self)@)
            },
            !(chain && old(self)@.frames.len() == 0) ==> {
                &&& r@ is Applied
                &&& final(self)@ == (AnalysisStateView {
                    data: if old(self)@.aborted {
                        rolled_back(old(self)@.data, old(self)@.frames)
                    } else {
                        session_restored(old(self)@.data)
                    },
                    frames: next_frames(chain),
                    aborted: false,
                })
            },
    {
        proof {
            reveal(data_of);
        }
        if chain && self.local.transactions.len() == 0 {
            self.taint(EvidenceCode::TransactionStateUnknown, EvidenceScope::Chain);
            return conflict_with("COMMIT AND CHAIN can only be used in transaction blocks".to_owned());
        }
        assert(self@.frames.skip(0) =~= self@.frames);
        assert(self@.frames.take(0) =~= Seq::<TransactionFrameView>::empty());
        if self.local.transaction_aborted {
            self.unwind_to(0);
        } else {
            self.close_frames();
            self.restore_persistent_role_context();
        }
        self.set_aborted(false);
        self.chain_transaction(chain);
        MutationResult::Applied
    }

    pub(crate) fn apply_rollback_transaction(&mut self, chain: bool) -> (r: MutationResult)
        ensures
            chain && old(self)@.frames.len() == 0 ==> {
                &&& r@ == conflict("ROLLBACK AND CHAIN can only be used in transaction blocks"@)
                &&& final(self)@.data == unknown_transaction(old(self)@.data)
                &&& kept(old(self)@, final(self)@)
            },
            !(chain && old(self)@.frames.len() == 0) ==> {
                &&& r@ is Applied
                &&& final(self)@ == (AnalysisStateView {
                    data: rolled_back(old(self)@.data, old(self)@.frames),
                    frames: next_frames(chain),
                    aborted: false,
                })
            },
    {
        proof {
            reveal(data_of);
        }
        if chain && self.local.transactions.len() == 0 {
            self.taint(EvidenceCode::TransactionStateUnknown, EvidenceScope::Chain);
            return conflict_with("ROLLBACK AND CHAIN can only be used in transaction blocks".to_owned());
        }
        assert(self@.frames.skip(0) =~= self@.frames);
        assert(self@.frames.take(0) =~= Seq::<TransactionFrameView>::empty());
        self.unwind_to(0);
        self.set_aborted(false);
        self.chain_transaction(chain);
        MutationResult::Applied
    }

    fn savepoint_position(&self, name: &String) -> (r: Option<usize>)
        ensures
            match r {
                Some(i) => i == last_savepoint(self@.frames, name@) && i < self@.frames.len(),
                None => last_savepoint(self@.frames, name@) == -1,
            },
    {
        proof {
            reveal(data_of);
        }
        let mut i: usize = self.local.transactions.len();
        assert(self@.frames.take(i as int) =~= self@.frames);
        while i > 0
            invariant
                i <= self.local.transactions.len(),
                self@.frames.len() == self.local.transactions.len(),
                last_savepoint(self@.frames, name@) == last_savepoint(self@.frames.take(i as int), name@),
            decreases i,
        {
            proof {
                assert(self@.frames.take(i as int).last() == self@.frames[i - 1]);
                assert(self@.frames.take(i as int).drop_last() =~= self@.frames.take(i - 1));
                assert(self@.frames[i - 1] == self.local.transactions@[i - 1]@);
            }
            if self.local.transactions[i - 1].is_named_savepoint(name) {
                return Some(i - 1);
            }
            i = i - 1;
        }
        None
    }

    pub(crate) fn apply_rollback_to_savepoint(&mut self, rollback: &RollbackToSavepointMutation) -> (r: MutationResult)
        ensures
            ({
                let s = old(self)@;
                let at = last_savepoint(s.frames, rollback.name@);
                &&& at < 0 ==> {
                    &&& r@ == no_such_savepoint(rollback.name@)
                    &&& final(self)@.data == unknown_transaction(s.data)
                    &&& kept(s, AnalysisStateView { aborted: s.aborted, ..final(self)@ })
                    &&& final(self)@.aborted == (s.aborted || s.frames.len() > 0)
                }
                &&& at >= 0 ==> {
                    &&& r@ is Applied
                    &&& final(self)@ == (AnalysisStateView {
                        data: rolled_back(s.data, s.frames.skip(at)),
                        frames: s.frames.take(at).push(savepoint_frame(rollback.name@)),
                        aborted: false,
                    })
                }
            }),
    {
        let ghost s = self@;
        match self.savepoint_position(&rollback.name) {
            None => self.refuse_savepoint(&rollback.name),
            Some(position) => {
                self.unwind_to(position);
                self.open_frame(TransactionFrame::savepoint(&rollback.name));
                self.set_aborted(false);
                MutationResult::Applied
            },
        }
    }

    pub(crate) fn apply_savepoint(&mut self, savepoint: &SavepointMutation) -> (r: MutationResult)
        ensures
            old(self)@.frames.len() == 0 ==> {
                &&& r@ == conflict("SAVEPOINT can only be used in transaction blocks"@)
                &&& final(self)@.data == unknown_transaction(old(self)@.data)
                &&& kept(old(self)@, final(self)@)
            },
            old(self)@.frames.len() > 0 ==> {
                &&& r@ is Applied
                &&& final(self)@ == (AnalysisStateView { frames: old(self)@.frames.push(savepoint_frame(savepoint.name@)), ..old(self)@ })
            },
    {
        proof {
            reveal(data_of);
        }
        if self.local.transactions.len() == 0 {
            self.taint(EvidenceCode::TransactionStateUnknown, EvidenceScope::Chain);
            return conflict_with("SAVEPOINT can only be used in transaction blocks".to_owned());
        }
        self.local.transactions.push(TransactionFrame::savepoint(&savepoint.name));
        assert(self@.frames =~= old(self)@.frames.push(savepoint_frame(savepoint.name@)));
        MutationResult::Applied
    }

    pub(crate) fn apply_release_savepoint(&mut self, release: &ReleaseSavepointMutation) -> (r: MutationResult)
        ensures
            ({
                let s = old(self)@;
                let at = last_savepoint(s.frames, release.name@);
                &&& at < 0 ==> {
                    &&& r@ == no_such_savepoint(release.name@)
                    &&& final(self)@.data == unknown_transaction(s.data)
                    &&& kept(s, AnalysisStateView { aborted: s.aborted, ..final(self)@ })
                    &&& final(self)@.aborted == (s.aborted || s.frames.len() > 0)
                }
                &&& at == 0 ==> {
                    &&& r@ == savepoint_outside(release.name@)
                    &&& final(self)@.data == unknown_transaction(s.data)
                    &&& kept(s, final(self)@)
                }
                &&& at > 0 ==> {
                    &&& r@ is Applied
                    &&& final(self)@ == (AnalysisStateView {
                        frames: s.frames.take(at - 1).push(
                            TransactionFrameView {
                                kind: s.frames[at - 1].kind,
                                undo_log: s.frames[at - 1].undo_log + joined_logs(s.frames.skip(at)),
                            },
                        ),
                        ..s
                    })
                }
            }),
    {
        match self.savepoint_position(&release.name) {
            None => self.refuse_savepoint(&release.name),
            Some(position) => {
                if position == 0 {
                    self.taint(EvidenceCode::TransactionStateUnknown, EvidenceScope::Chain);
                    return conflict_with(join3("savepoint '", &release.name, "' is not inside a transaction"));
                }
                let merged = self.logs_from(position);
                self.merge_into(position, merged);
                MutationResult::Applied
            },
        }
    }

    /// Where the innermost frame stands, so that one statement can be undone.
    pub fn transaction_undo_checkpoint(&self) -> (r: Option<(usize, usize)>)
        ensures
            r == (if self@.frames.len() == 0 {
                None
            } else {
                Some((self@.frames.len() as usize, self@.frames.last().undo_log.len() as usize))
            }),
    {
        proof {
            reveal(data_of);
        }
        let n = self.local.transactions.len();
        if n == 0 {
            None
        } else {
            assert(self@.frames.last() == self.local.transactions@[n - 1]@);
            Some((n, self.local.transactions[n - 1].undo_log.len()))
        }
    }

    /// Undoes what was recorded since a checkpoint of the innermost frame.
    pub fn rollback_to_transaction_undo_checkpoint(&mut self, transaction_depth: usize, undo_len: usize) -> (r: Result<(), &'static str>)
        ensures
            ({
                let s = old(self)@;
                let n = s.frames.len();
                &&& n != transaction_depth ==> r is Err && r->Err_0@ == "statement changed transaction depth while using an undo checkpoint"@
                    && final(self)@ == s
                &&& n == transaction_depth && n == 0 ==> r is Err && r->Err_0@ == "statement undo checkpoint lost its transaction frame"@
                    && final(self)@ == s
                &&& n == transaction_depth && n > 0 && s.frames.last().undo_log.len() < undo_len ==> r is Err && r->Err_0@
                    == "statement shortened the transaction undo log unexpectedly"@ && final(self)@ == s
                &&& n == transaction_depth && n > 0 && s.frames.last().undo_log.len() >= undo_len ==> r is Ok && final(self)@ == (AnalysisStateView {
                    data: undone_all(s.data, s.frames.last().undo_log.skip(undo_len as int)),
                    frames: s.frames.drop_last().push(
                        TransactionFrameView { kind: s.frames.last().kind, undo_log: s.frames.last().undo_log.take(undo_len as int) },
                    ),
                    ..s
                })
            }),
    {
        proof {
            reveal(data_of);
        }
        let ghost s = self@;
        let n = self.local.transactions.len();
        if n != transaction_depth {
            return Err("statement changed transaction depth while using an undo checkpoint");
        }
        if n == 0 {
            return Err("statement undo checkpoint lost its transaction frame");
        }
        assert(s.frames.last() == self.local.transactions@[n - 1]@);
        if self.local.transactions[n - 1].undo_log.len() < undo_len {
            return Err("statement shortened the transaction undo log unexpectedly");
        }
        match self.local.transactions.pop() {
            None => {},
            Some(frame) => {
                let mut frame = frame;
                let ghost log = frame.undo_log.deep_view();
                let statement_undo = frame.undo_log.split_off(undo_len);
                assert(frame.undo_log.deep_view() =~= log.take(undo_len as int));
                assert(statement_undo.deep_view() =~= log.skip(undo_len as int));
                self.local.transactions.push(frame);
                assert(self@.frames =~= s.frames.drop_last().push(
                    TransactionFrameView { kind: s.frames.last().kind, undo_log: s.frames.last().undo_log.take(undo_len as int) },
                ));
                self.rollback_undo_log(statement_undo);
            },
        }
        Ok(())
    }
}

/// A rollback takes a step back, whatever edges it finds once later steps were
/// undone: it goes on with the data from before the step, and with the edges as
/// undoing the step leaves them. Step by step this says what a rollback of any
/// statements gives.
pub proof fn law_rollback_undoes_step(a: AnalysisStateView, b: AnalysisStateView, how: EdgeUndo, found: Seq<DependencyEdgeView>)
    requires
        undone_by(a, b, how),
        a.frames.len() > 0,
    ensures
        rolled_back(with_edges(b.data, found), b.frames) == rolled_back(with_edges(a.data, edges_undone(how, a.data.graph, found)), a.frames),
{
    reveal(undone_by);
    let la = a.frames.last().undo_log;
    let lb = b.frames.last().undo_log;
    assert(lb =~= la + lb.skip(la.len() as int));
    lemma_undone_concat(with_edges(b.data, found), la, lb.skip(la.len() as int));
}

/// Steps that can be undone do not change what a rollback brings back.
pub proof fn law_rollback_restores(a: AnalysisStateView, b: AnalysisStateView, how: EdgeUndo)
    requires
        kept_as(a, b, how),
        a.frames.len() > 0,
    ensures
        rolled_back(b.data, b.frames) == rolled_back(a.data, a.frames),
{
    reveal(kept_as);
    law_rollback_undoes_step(a, b, how, b.data.graph);
    lemma_own_edges(a.data);
    lemma_own_edges(b.data);
}

/// What a transaction changes, its rollback takes back: the state is the one
/// in which the transaction began.
pub proof fn law_begin_then_rollback_is_nothing(start: StateData, b: AnalysisStateView, how: EdgeUndo)
    requires
        kept_as(AnalysisStateView { data: start, frames: seq![root_frame()], aborted: false }, b, how),
    ensures
        rolled_back(b.data, b.frames) == start,
{
    let a = AnalysisStateView { data: start, frames: seq![root_frame()], aborted: false };
    law_rollback_restores(a, b, how);
    assert(a.frames.drop_last() =~= Seq::<TransactionFrameView>::empty());
    assert(a.frames.last().undo_log =~= Seq::<StateChangeView>::empty());
    assert(rolled_back(a.data, a.frames) == rolled_back(undone_all(start, Seq::<StateChangeView>::empty()), Seq::<TransactionFrameView>::empty()));
}

/// Rolling back to a savepoint gives the data that the savepoint was set on.
pub proof fn law_savepoint_restores(s: AnalysisStateView, name: Seq<char>, b: AnalysisStateView, how: EdgeUndo)
    requires
        kept_as(AnalysisStateView { frames: s.frames.push(savepoint_frame(name)), ..s }, b, how),
    ensures
        last_savepoint(b.frames, name) == s.frames.len(),
        rolled_back(b.data, b.frames.skip(s.frames.len() as int)) == s.data,
        b.frames.take(s.frames.len() as int) == s.frames,
{
    let a = AnalysisStateView { frames: s.frames.push(savepoint_frame(name)), ..s };
    lemma_kept_gives_back(a, b, how);
    let inner = b.frames.skip(s.frames.len() as int);
    assert(a.frames.drop_last() =~= s.frames);
    assert(b.frames.take(s.frames.len() as int) =~= b.frames.drop_last());
    assert(inner.last() == b.frames.last());
    assert(inner.drop_last() =~= Seq::<TransactionFrameView>::empty());
    let la = a.frames.last().undo_log;
    let lb = b.frames.last().undo_log;
    assert(lb.skip(la.len() as int) =~= lb);
    assert(undone_all(b.data, lb) == s.data);
    assert(rolled_back(b.data, inner) == rolled_back(undone_all(b.data, lb), Seq::<TransactionFrameView>::empty()));
}

proof fn lemma_rolled_back_joined(d: StateData, frames: Seq<TransactionFrameView>)
    ensures
        rolled_back(d, frames) == undone_all(d, joined_logs(frames)),
    decreases frames.len(),
{
    if frames.len() > 0 {
        lemma_rolled_back_joined(undone_all(d, frames.last().undo_log), frames.drop_last());
        lemma_undone_concat(d, joined_logs(frames.drop_last()), frames.last().undo_log);
    }
}

proof fn lemma_rolled_back_concat(d: StateData, a: Seq<TransactionFrameView>, b: Seq<TransactionFrameView>)
    ensures
        rolled_back(d, a + b) == rolled_back(rolled_back(d, b), a),
    decreases b.len(),
{
    if b.len() == 0 {
        assert(a + b =~= a);
    } else {
        assert((a + b).last() == b.last());
        assert((a + b).drop_last() =~= a + b.drop_last());
        lemma_rolled_back_concat(undone_all(d, b.last().undo_log), a, b.drop_last());
    }
}

/// Releasing a savepoint does not change what a rollback of the transaction
/// brings back.
pub proof fn law_release_keeps_rollback(d: StateData, frames: Seq<TransactionFrameView>, at: int)
    requires
        0 < at < frames.len(),
    ensures
        rolled_back(
            d,
            frames.take(at - 1).push(
                TransactionFrameView { kind: frames[at - 1].kind, undo_log: frames[at - 1].undo_log + joined_logs(frames.skip(at)) },
            ),
        ) == rolled_back(d, frames),
{
    let inner = frames.skip(at);
    let merged = TransactionFrameView { kind: frames[at - 1].kind, undo_log: frames[at - 1].undo_log + joined_logs(inner) };
    let released = frames.take(at - 1).push(merged);
    assert(released.drop_last() =~= frames.take(at - 1));
    assert(frames =~= frames.take(at) + inner);
    lemma_rolled_back_concat(d, frames.take(at), inner);
    lemma_rolled_back_joined(d, inner);
    assert(frames.take(at).drop_last() =~= frames.take(at - 1));
    assert(frames.take(at).last() == frames[at - 1]);
    lemma_undone_concat(d, frames[at - 1].undo_log, joined_logs(inner));
}

} // verus!
