//! Statements whose effect lies outside of the modeled catalog.
use crate::evidence::{EvidenceCode, EvidenceScope};
use crate::identifiers::ObjectId;
use crate::mutations::{AlterDatabaseMutation, CreateDatabaseMutation, DropDatabaseMutation};
use crate::state::journal::{group_kept, kept, tainted};
use crate::state::{AnalysisState, MutationResult, StateData};
use vstd::prelude::*;

verus! {

broadcast use group_kept;

/// Databases are not part of the modeled catalog.
pub open spec fn unmodeled(d: StateData) -> StateData {
    tainted(d, EvidenceCode::UnmodeledState, EvidenceScope::Chain)
}

impl AnalysisState {
    pub(crate) fn apply_check_timeouts(&mut self) -> (r: MutationResult)
        ensures
            r@ is Applied,
            final(self)@ == old(self)@,
    {
        MutationResult::Applied
    }

    pub(crate) fn apply_create_database(&mut self, _create_database: &CreateDatabaseMutation) -> (r: MutationResult)
        ensures
            r@ is Applied,
            final(self)@.data == unmodeled(old(self)@.data),
            kept(old(self)@, final(self)@),
    {
        self.taint(EvidenceCode::UnmodeledState, EvidenceScope::Chain);
        MutationResult::Applied
    }

    pub(crate) fn apply_alter_database(&mut self, _alter_database: &AlterDatabaseMutation) -> (r: MutationResult)
        ensures
            r@ is Applied,
            final(self)@.data == unmodeled(old(self)@.data),
            kept(old(self)@, final(self)@),
    {
        self.taint(EvidenceCode::UnmodeledState, EvidenceScope::Chain);
        MutationResult::Applied
    }

    pub(crate) fn apply_drop_database(&mut self, _drop_database: &DropDatabaseMutation) -> (r: MutationResult)
        ensures
            r@ is Applied,
            final(self)@.data == unmodeled(old(self)@.data),
            kept(old(self)@, final(self)@),
    {
        self.taint(EvidenceCode::UnmodeledState, EvidenceScope::Chain);
        MutationResult::Applied
    }

    /// `VACUUM` changes storage and statistics, which the relation model does
    /// not hold.
    pub(crate) fn apply_vacuum(&mut self, _table_id: &Option<ObjectId>, _is_full: bool) -> (r: MutationResult)
        ensures
            r@ is Applied,
            final(self)@.data == tainted(old(self)@.data, EvidenceCode::UnsupportedSemantics, EvidenceScope::Statement),
            kept(old(self)@, final(self)@),
    {
        self.taint(EvidenceCode::UnsupportedSemantics, EvidenceScope::Statement);
        MutationResult::Applied
    }
}

} // verus!
