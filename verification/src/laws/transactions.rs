//! Transactions: what survives their end, and what savepoints give back.
use crate::laws::session::{lemma_refreshed, path_follows_template};
use crate::mutations::{Mutation, ReleaseSavepointMutation, RollbackToSavepointMutation, SavepointMutation};
use crate::state::apply::{applied, control_effect, executed, is_control, leaves_aborted, loses_edges, statement_undone_by};
use crate::state::apply_transaction::{
    last_savepoint, law_release_keeps_rollback, law_savepoint_restores, rolled_back, savepoint_frame, session_value,
};
use crate::state::cascade::CascadeView;
use crate::state::journal::{kept_as, tainted};
use crate::state::{AnalysisStateView, MutationResultView, StateData};
use crate::transaction::{TransactionFrameKindView, TransactionFrameView};
use vstd::prelude::*;

verus! {

/// A statement that controls the transaction leads to what it leads to.
proof fn lemma_on_control(s: AnalysisStateView, m: Mutation, c: Option<CascadeView>, t: AnalysisStateView, r: MutationResultView)
    requires
        applied(s, m, c, t, r),
        is_control(m),
        r is Applied || !s.aborted || leaves_aborted(m),
    ensures
        exists|aborted: bool| #[trigger]
            control_effect(s, m, AnalysisStateView { aborted, ..t }, r) && t.aborted == (aborted || (r is Conflict && t.frames.len() > 0)),
{
    let aborted = choose|aborted: bool| #[trigger]
        executed(s, m, c, AnalysisStateView { aborted, ..t }, r) && t.aborted == (aborted || (r is Conflict && t.frames.len() > 0));
    assert(control_effect(s, m, AnalysisStateView { aborted, ..t }, r));
}

/// `BEGIN` opens a transaction and changes nothing; within a transaction it does
/// nothing.
pub proof fn law_begin_changes_nothing(s: AnalysisStateView, c: Option<CascadeView>, t: AnalysisStateView, r: MutationResultView)
    requires
        applied(s, Mutation::BeginTransaction, c, t, r),
        !s.aborted,
    ensures
        t.data == s.data,
        !t.aborted,
        s.frames.len() == 0 ==> r is Applied && t.frames.len() == 1 && t.frames[0].kind is Root && t.frames[0].undo_log.len() == 0,
        s.frames.len() > 0 ==> r is Skipped && t.frames == s.frames,
{
    lemma_on_control(s, Mutation::BeginTransaction, c, t, r);
    reveal(control_effect);
}

/// `COMMIT` keeps what the transaction did to the catalog. What was local to it
/// ends: the roles, the path and the timeouts are those of the session again.
/// With `AND CHAIN` another transaction is open.
pub proof fn law_commit_keeps_the_catalog(s: AnalysisStateView, m: Mutation, c: Option<CascadeView>, t: AnalysisStateView, r: MutationResultView)
    requires
        applied(s, m, c, t, r),
        !s.aborted,
        m is CommitTransaction || m is CommitAndChain,
        m is CommitAndChain ==> s.frames.len() > 0,
    ensures
        r is Applied,
        !t.aborted,
        t.frames.len() == (if m is CommitAndChain {
            1nat
        } else {
            0nat
        }),
        t.data == (StateData {
            current_role: s.data.persistent_current_role,
            current_role_known: s.data.persistent_current_role_known,
            session_role: s.data.persistent_session_role,
            session_role_known: s.data.persistent_session_role_known,
            search_path_template: s.data.session_search_path_template,
            lock_timeout: t.data.lock_timeout,
            statement_timeout: t.data.statement_timeout,
            search_path: t.data.search_path,
            evidence: t.data.evidence,
            confidence: t.data.confidence,
            ..s.data
        }),
        t.data.lock_timeout.effective == s.data.lock_timeout.session,
        t.data.lock_timeout.session == s.data.lock_timeout.session,
        t.data.statement_timeout.effective == s.data.statement_timeout.session,
        t.data.statement_timeout.session == s.data.statement_timeout.session,
        path_follows_template(t.data),
{
    lemma_on_control(s, m, c, t, r);
    reveal(control_effect);
    let d = s.data;
    lemma_refreshed(
        StateData {
            current_role: d.persistent_current_role,
            current_role_known: d.persistent_current_role_known,
            session_role: d.persistent_session_role,
            session_role_known: d.persistent_session_role_known,
            search_path_template: d.session_search_path_template,
            lock_timeout: session_value(d.lock_timeout),
            statement_timeout: session_value(d.statement_timeout),
            ..d
        },
    );
}

/// `AND CHAIN` and `SAVEPOINT` need a transaction: outside of one they are
/// conflicts that change nothing of the catalog.
pub proof fn law_some_need_a_transaction(s: AnalysisStateView, m: Mutation, c: Option<CascadeView>, t: AnalysisStateView, r: MutationResultView)
    requires
        applied(s, m, c, t, r),
        !s.aborted,
        s.frames.len() == 0,
        m is CommitAndChain || m is RollbackAndChain || m is Savepoint || m is RollbackToSavepoint || m is ReleaseSavepoint,
    ensures
        r is Conflict,
        t.data == (StateData { evidence: t.data.evidence, confidence: t.data.confidence, ..s.data }),
{
    lemma_on_control(s, m, c, t, r);
    reveal(control_effect);
    reveal(tainted);
}

/// Whether a frame is the savepoint of that name.
pub open spec fn is_named(frame: TransactionFrameView, name: Seq<char>) -> bool {
    match frame.kind {
        TransactionFrameKindView::Savepoint(x) => x == name,
        TransactionFrameKindView::Root => false,
    }
}

proof fn lemma_last(frames: Seq<TransactionFrameView>, name: Seq<char>)
    ensures
        ({
            let at = last_savepoint(frames, name);
            &&& -1 <= at < frames.len()
            &&& at >= 0 ==> is_named(frames[at], name)
            &&& forall|i: int| at < i < frames.len() ==> !is_named(#[trigger] frames[i], name)
        }),
    decreases frames.len(),
{
    if frames.len() > 0 {
        lemma_last(frames.drop_last(), name);
        let at = last_savepoint(frames, name);
        assert forall|i: int| at < i < frames.len() implies !is_named(#[trigger] frames[i], name) by {
            if i < frames.len() - 1 {
                assert(frames.drop_last()[i] == frames[i]);
            }
        }
    }
}

/// A savepoint that is not there is not rolled back to and not released: there is
/// a conflict that changes nothing of the catalog.
pub proof fn law_savepoint_must_exist(s: AnalysisStateView, m: Mutation, c: Option<CascadeView>, t: AnalysisStateView, r: MutationResultView, name: Seq<char>)
    requires
        applied(s, m, c, t, r),
        !s.aborted,
        match m {
            Mutation::RollbackToSavepoint(x) => x.name@ == name,
            Mutation::ReleaseSavepoint(x) => x.name@ == name,
            _ => false,
        },
        forall|i: int| 0 <= i < s.frames.len() ==> !is_named(#[trigger] s.frames[i], name),
    ensures
        r is Conflict,
        t.data == (StateData { evidence: t.data.evidence, confidence: t.data.confidence, ..s.data }),
{
    lemma_on_control(s, m, c, t, r);
    reveal(control_effect);
    reveal(tainted);
    lemma_last(s.frames, name);
}

/// What follows a savepoint is taken back by rolling back to it, whatever it was
/// and led to, a conflict among it: the data is the one that the savepoint was set
/// on, the savepoint is still there, and the transaction goes on. (What the drop
/// of an index or a constraint, or the detaching of a partition, took from the
/// edges does not come back.)
pub proof fn law_savepoint_gives_back(
    s: AnalysisStateView,
    set: SavepointMutation,
    a: AnalysisStateView,
    q: MutationResultView,
    m: Mutation,
    c: Option<CascadeView>,
    b: AnalysisStateView,
    r: MutationResultView,
    back: RollbackToSavepointMutation,
    t: AnalysisStateView,
    z: MutationResultView,
)
    requires
        s.frames.len() > 0,
        !s.aborted,
        applied(s, Mutation::Savepoint(set), None, a, q),
        applied(a, m, c, b, r),
        !is_control(m),
        loses_edges(m) ==> !(r is Applied),
        applied(b, Mutation::RollbackToSavepoint(back), None, t, z),
        back.name@ == set.name@,
    ensures
        q is Applied,
        a.data == s.data,
        z is Applied,
        t.data == s.data,
        t.frames == a.frames,
        !t.aborted,
{
    let name = set.name@;
    lemma_on_control(s, Mutation::Savepoint(set), None, a, q);
    lemma_on_control(b, Mutation::RollbackToSavepoint(back), None, t, z);
    reveal(control_effect);
    let aborted = choose|aborted: bool| #[trigger]
        executed(a, m, c, AnalysisStateView { aborted, ..b }, r) && b.aborted == (aborted || (r is Conflict && b.frames.len() > 0));
    let u = AnalysisStateView { aborted, ..b };
    assert(statement_undone_by(a, m, u, r));
    let how = crate::state::journal::if_applied(r, crate::state::apply::edge_undo(a.data, m, u.data));
    assert(kept_as(a, u, how));
    assert(a.frames == s.frames.push(savepoint_frame(name)));
    assert(a == AnalysisStateView { frames: s.frames.push(savepoint_frame(name)), ..s });
    law_savepoint_restores(s, name, u, how);
    assert(t.frames =~= a.frames);
}

/// Rolling back to a savepoint leaves the frames outside of it as they are, and
/// opens the innermost savepoint of that name anew.
pub proof fn law_rollback_goes_to_the_innermost(
    s: AnalysisStateView,
    back: RollbackToSavepointMutation,
    c: Option<CascadeView>,
    t: AnalysisStateView,
    r: MutationResultView,
    at: int,
)
    requires
        applied(s, Mutation::RollbackToSavepoint(back), c, t, r),
        0 <= at < s.frames.len(),
        is_named(s.frames[at], back.name@),
        forall|i: int| at < i < s.frames.len() ==> !is_named(#[trigger] s.frames[i], back.name@),
    ensures
        r is Applied,
        !t.aborted,
        t.frames.len() == at + 1,
        forall|i: int| 0 <= i < at ==> #[trigger] t.frames[i] == s.frames[i],
        is_named(t.frames[at], back.name@),
        t.frames[at].undo_log.len() == 0,
        t.data == rolled_back(s.data, s.frames.skip(at)),
{
    lemma_on_control(s, Mutation::RollbackToSavepoint(back), c, t, r);
    reveal(control_effect);
    lemma_last(s.frames, back.name@);
    let found = last_savepoint(s.frames, back.name@);
    if found < at {
        assert(!is_named(s.frames[at], back.name@));
    }
    if found > at {
        assert(!is_named(s.frames[found], back.name@));
    }
}

/// Releasing a savepoint changes nothing that is modeled, takes the savepoint and
/// what is inside of it away, and leaves what a rollback of the transaction brings
/// back.
pub proof fn law_release_changes_nothing(
    s: AnalysisStateView,
    release: ReleaseSavepointMutation,
    c: Option<CascadeView>,
    t: AnalysisStateView,
    r: MutationResultView,
    at: int,
)
    requires
        applied(s, Mutation::ReleaseSavepoint(release), c, t, r),
        !s.aborted,
        0 < at < s.frames.len(),
        is_named(s.frames[at], release.name@),
        forall|i: int| at < i < s.frames.len() ==> !is_named(#[trigger] s.frames[i], release.name@),
    ensures
        r is Applied,
        t.data == s.data,
        !t.aborted,
        t.frames.len() == at,
        forall|i: int| 0 <= i < at ==> (#[trigger] t.frames[i]).kind == s.frames[i].kind,
        rolled_back(t.data, t.frames) == rolled_back(s.data, s.frames),
{
    lemma_on_control(s, Mutation::ReleaseSavepoint(release), c, t, r);
    reveal(control_effect);
    lemma_last(s.frames, release.name@);
    let found = last_savepoint(s.frames, release.name@);
    if found < at {
        assert(!is_named(s.frames[at], release.name@));
    }
    if found > at {
        assert(!is_named(s.frames[found], release.name@));
    }
    law_release_keeps_rollback(s.data, s.frames, at);
}

} // verus!
