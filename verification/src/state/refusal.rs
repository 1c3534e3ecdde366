//! Why a statement leaves the modeled state as it is.
use crate::evidence::{EvidenceCode, EvidenceScope};
use crate::state::journal::{group_kept, kept, tainted};
use crate::state::lookup::{conflict, conflict_with, relation_lookup, RelationFilter};
use crate::state::{AnalysisState, MutationResult, MutationResultView, ObjectLookup, StateData};
use crate::identifiers::{ObjectId, ObjectIdView};
use vstd::prelude::*;

verus! {

broadcast use group_kept;

/// Why a statement is not applied.
pub enum Refusal {
    /// The server rejects it.
    Conflict(String),
    /// It does nothing.
    NoEffect,
    /// It names an object of which nothing is known.
    Unknown,
    /// What it does depends on catalog rows that are not there.
    Uncovered,
}

pub enum RefusalView {
    Conflict(Seq<char>),
    NoEffect,
    Unknown,
    Uncovered,
}

impl View for Refusal {
    type V = RefusalView;

    open spec fn view(&self) -> RefusalView {
        match self {
            Refusal::Conflict(reason) => RefusalView::Conflict(reason@),
            Refusal::NoEffect => RefusalView::NoEffect,
            Refusal::Unknown => RefusalView::Unknown,
            Refusal::Uncovered => RefusalView::Uncovered,
        }
    }
}

impl DeepView for Refusal {
    type V = RefusalView;

    open spec fn deep_view(&self) -> RefusalView {
        self@
    }
}

/// What refusing a statement leads to.
#[verifier::opaque]
pub open spec fn refused(d: StateData, refusal: RefusalView) -> (StateData, MutationResultView) {
    match refusal {
        RefusalView::Conflict(reason) => (d, conflict(reason)),
        RefusalView::NoEffect => (d, MutationResultView::Skipped),
        RefusalView::Unknown => (tainted(d, EvidenceCode::UnknownObjectState, EvidenceScope::Chain), MutationResultView::Skipped),
        RefusalView::Uncovered => (tainted(d, EvidenceCode::CatalogCoverageIncomplete, EvidenceScope::Chain), MutationResultView::Skipped),
    }
}

/// Why a relation cannot be used.
pub open spec fn relation_refusal(d: StateData, id: ObjectIdView, filter: RelationFilter, missing: Seq<char>, wrong_kind: Seq<char>) -> Option<RefusalView> {
    match relation_lookup(d, id, filter) {
        ObjectLookup::Present => None,
        ObjectLookup::WrongKind => Some(RefusalView::Conflict(wrong_kind)),
        ObjectLookup::Unknown => Some(RefusalView::Unknown),
        _ => Some(RefusalView::Conflict(missing)),
    }
}

/// A statement that is refused is never applied.
pub proof fn lemma_refused(d: StateData, refusal: RefusalView)
    ensures
        !(refused(d, refusal).1 is Applied),
{
    reveal(refused);
}

impl AnalysisState {
    pub(crate) fn refuse(&mut self, refusal: Refusal) -> (r: MutationResult)
        ensures
            (final(self)@.data, r@) == refused(old(self)@.data, refusal@),
            !(r@ is Applied),
            kept(old(self)@, final(self)@),
    {
        proof {
            reveal(refused);
        }
        match refusal {
            Refusal::Conflict(reason) => conflict_with(reason),
            Refusal::NoEffect => MutationResult::Skipped,
            Refusal::Unknown => {
                self.taint(EvidenceCode::UnknownObjectState, EvidenceScope::Chain);
                MutationResult::Skipped
            },
            Refusal::Uncovered => {
                self.taint(EvidenceCode::CatalogCoverageIncomplete, EvidenceScope::Chain);
                MutationResult::Skipped
            },
        }
    }

    pub(crate) fn relation_refusal(&self, id: &ObjectId, filter: RelationFilter, missing: String, wrong_kind: String) -> (r: Option<Refusal>)
        ensures
            r.deep_view() == relation_refusal(self@.data, id@, filter, missing@, wrong_kind@),
    {
        match self.relation_lookup(id, filter) {
            ObjectLookup::Present => None,
            ObjectLookup::WrongKind => Some(Refusal::Conflict(wrong_kind)),
            ObjectLookup::Unknown => Some(Refusal::Unknown),
            _ => Some(Refusal::Conflict(missing)),
        }
    }
}

} // verus!
