//! What is not modeled: it is on record, and changes nothing else.
use crate::evidence::{EvidenceCode, EvidenceScope};
use crate::laws::{has_evidence, lemma_on_others};
use crate::mutations::{Mutation, OpaqueMutation};
use crate::state::apply::{applied, executed, other_effect};
use crate::state::cascade::CascadeView;
use crate::state::journal::{placed, tainted};
use crate::state::{AnalysisStateView, MutationResultView, StateData};
use vstd::prelude::*;

verus! {

/// What recording a gap does: the gap is on record, with what was on record
/// before, and nothing but the evidence and the trust in it differs.
proof fn lemma_gap_is_recorded(d: StateData, code: EvidenceCode, scope: EvidenceScope, k: int)
    ensures
        ({
            let e = tainted(d, code, scope);
            &&& has_evidence(e, code)
            &&& e == (StateData { evidence: e.evidence, confidence: e.confidence, ..d })
            &&& 0 <= k < d.evidence.len() ==> e.evidence[k] == d.evidence[k]
            &&& e.evidence.len() >= d.evidence.len()
        }),
{
    reveal(tainted);
    let e = tainted(d, code, scope);
    let record = placed(d, crate::evidence::EvidenceRecord { code, scope, location: None });
    if d.evidence.contains(record) {
        let i = choose|i: int| 0 <= i < d.evidence.len() && d.evidence[i] == record;
        assert(e.evidence[i].code == code);
    } else {
        assert(e.evidence[d.evidence.len() as int].code == code);
    }
}

/// Whether a statement is about types, routines, publications or subscriptions.
pub open spec fn is_on_unmodeled(m: Mutation) -> bool {
    ||| m is CreateType || m is AlterType || m is RenameType || m is DropType
    ||| m is CreateDomain || m is AlterDomain || m is DropDomain
    ||| m is CreateFunction || m is AlterFunction || m is DropFunction
    ||| m is CreateProcedure || m is AlterProcedure || m is DropProcedure
    ||| m is CreateAggregate || m is AlterAggregate || m is DropAggregate
    ||| m is CreatePublication || m is AlterPublication || m is DropPublication
    ||| m is CreateSubscription || m is AlterSubscription || m is DropSubscription
}

/// A statement on types, routines, publications or subscriptions is skipped, and
/// that is on record. Nothing else differs.
pub proof fn law_unmodeled_is_on_record(s: AnalysisStateView, m: Mutation, c: Option<CascadeView>, t: AnalysisStateView, r: MutationResultView, k: int)
    requires
        applied(s, m, c, t, r),
        !s.aborted,
        is_on_unmodeled(m),
    ensures
        r is Skipped,
        t.data == (StateData { evidence: t.data.evidence, confidence: t.data.confidence, ..s.data }),
        has_evidence(t.data, EvidenceCode::UnmodeledState) || has_evidence(t.data, EvidenceCode::CatalogCoverageIncomplete),
        !(m is DropType || m is DropDomain || m is DropFunction || m is DropProcedure || m is DropAggregate) ==> has_evidence(
            t.data,
            EvidenceCode::UnmodeledState,
        ),
        0 <= k < s.data.evidence.len() ==> t.data.evidence[k] == s.data.evidence[k],
{
    let aborted = choose|aborted: bool| #[trigger]
        executed(s, m, c, AnalysisStateView { aborted, ..t }, r) && t.aborted == (aborted || (r is Conflict && t.frames.len() > 0));
    lemma_gap_is_recorded(s.data, EvidenceCode::UnmodeledState, EvidenceScope::Chain, k);
    lemma_gap_is_recorded(s.data, EvidenceCode::CatalogCoverageIncomplete, EvidenceScope::Chain, k);
}

/// A statement that is not followed is accepted, and that is on record: an
/// unsupported statement and an unresolved reference as such, anything else as
/// semantics that are not supported.
pub proof fn law_opaque_is_on_record(s: AnalysisStateView, opaque: OpaqueMutation, c: Option<CascadeView>, t: AnalysisStateView, r: MutationResultView, k: int)
    requires
        applied(s, Mutation::Opaque(opaque), c, t, r),
        !s.aborted,
    ensures
        r is Applied,
        t.data == (StateData { evidence: t.data.evidence, confidence: t.data.confidence, ..s.data }),
        opaque is UnsupportedStatement ==> has_evidence(t.data, EvidenceCode::UnsupportedStatement),
        opaque is UnresolvedReference ==> has_evidence(t.data, EvidenceCode::UnresolvedReference),
        !(opaque is UnsupportedStatement) && !(opaque is UnresolvedReference) ==> has_evidence(t.data, EvidenceCode::UnsupportedSemantics),
        0 <= k < s.data.evidence.len() ==> t.data.evidence[k] == s.data.evidence[k],
{
    lemma_on_others(s, Mutation::Opaque(opaque), c, t, r);
    reveal(other_effect);
    lemma_gap_is_recorded(s.data, crate::state::apply_settings::opaque_code(opaque), EvidenceScope::Chain, k);
}

/// Statements on databases and `VACUUM` are accepted, and what they leave open is
/// on record. A check of the timeouts changes nothing at all.
pub proof fn law_outside_is_on_record(s: AnalysisStateView, m: Mutation, c: Option<CascadeView>, t: AnalysisStateView, r: MutationResultView)
    requires
        applied(s, m, c, t, r),
        !s.aborted,
        m is CreateDatabase || m is AlterDatabase || m is DropDatabase || m is Vacuum || m is CheckTimeouts,
    ensures
        r is Applied,
        t.data == (StateData { evidence: t.data.evidence, confidence: t.data.confidence, ..s.data }),
        m is CreateDatabase || m is AlterDatabase || m is DropDatabase ==> has_evidence(t.data, EvidenceCode::UnmodeledState),
        m is Vacuum ==> has_evidence(t.data, EvidenceCode::UnsupportedSemantics),
        m is CheckTimeouts ==> t.data == s.data,
{
    lemma_on_others(s, m, c, t, r);
    reveal(other_effect);
    lemma_gap_is_recorded(s.data, EvidenceCode::UnmodeledState, EvidenceScope::Chain, 0);
    lemma_gap_is_recorded(s.data, EvidenceCode::UnsupportedSemantics, EvidenceScope::Statement, 0);
}

} // verus!
