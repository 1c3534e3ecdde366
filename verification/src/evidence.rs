//! Why an analysis result is not exact.
use crate::collections::{Dup, Key};
use vstd::prelude::*;

verus! {

/// What is missing or not modeled.
#[derive(Clone, Copy, Debug, PartialEq, Eq, Structural)]
pub enum EvidenceCode {
    CatalogCoverageIncomplete,
    TransactionStateUnknown,
    UnknownObjectState,
    UnmodeledState,
    UnresolvedReference,
    UnsupportedSemantics,
    UnsupportedStatement,
}

impl DeepView for EvidenceCode {
    type V = EvidenceCode;

    open spec fn deep_view(&self) -> EvidenceCode {
        *self
    }
}

impl Dup for EvidenceCode {
    fn dup(&self) -> (r: Self) {
        *self
    }
}

impl Key for EvidenceCode {
    fn same(&self, other: &Self) -> (r: bool) {
        *self == *other
    }
}

/// How far a gap reaches.
#[derive(Clone, Copy, Debug, PartialEq, Eq, Structural)]
pub enum EvidenceScope {
    Statement,
    Chain,
}

impl DeepView for EvidenceScope {
    type V = EvidenceScope;

    open spec fn deep_view(&self) -> EvidenceScope {
        *self
    }
}

impl Dup for EvidenceScope {
    fn dup(&self) -> (r: Self) {
        *self
    }
}

impl Key for EvidenceScope {
    fn same(&self, other: &Self) -> (r: bool) {
        *self == *other
    }
}

/// Where in the migration a gap was found.
#[derive(Clone, Copy, Debug, PartialEq, Eq, Structural)]
pub struct EvidenceLocation {
    pub line: u64,
    pub column: u64,
}

/// One reason why a result is not exact.
#[derive(Clone, Copy, Debug, PartialEq, Eq, Structural)]
pub struct EvidenceRecord {
    pub code: EvidenceCode,
    pub scope: EvidenceScope,
    pub location: Option<EvidenceLocation>,
}

impl DeepView for EvidenceLocation {
    type V = EvidenceLocation;

    open spec fn deep_view(&self) -> EvidenceLocation {
        *self
    }
}

impl Dup for EvidenceLocation {
    fn dup(&self) -> (r: Self) {
        *self
    }
}

impl DeepView for EvidenceRecord {
    type V = EvidenceRecord;

    open spec fn deep_view(&self) -> EvidenceRecord {
        *self
    }
}

impl Dup for EvidenceRecord {
    fn dup(&self) -> (r: Self) {
        *self
    }
}

impl Key for EvidenceRecord {
    fn same(&self, other: &Self) -> (r: bool) {
        let same_location = match (self.location, other.location) {
            (Some(a), Some(b)) => a == b,
            (None, None) => true,
            _ => false,
        };
        self.code == other.code && self.scope == other.scope && same_location
    }
}

impl EvidenceRecord {
    pub fn new(code: EvidenceCode, scope: EvidenceScope) -> (r: Self)
        ensures
            r == evidence(code, scope),
    {
        EvidenceRecord { code, scope, location: None }
    }
}

/// A record that has not been placed in the migration yet.
pub open spec fn evidence(code: EvidenceCode, scope: EvidenceScope) -> EvidenceRecord {
    EvidenceRecord { code, scope, location: None }
}

/// The records gathered so far, each once.
#[derive(Clone, Debug)]
pub struct EvidenceLog {
    records: Vec<EvidenceRecord>,
}

impl View for EvidenceLog {
    type V = Seq<EvidenceRecord>;

    closed spec fn view(&self) -> Seq<EvidenceRecord> {
        self.records@
    }
}

impl DeepView for EvidenceLog {
    type V = Seq<EvidenceRecord>;

    open spec fn deep_view(&self) -> Seq<EvidenceRecord> {
        self@
    }
}

impl Dup for EvidenceLog {
    fn dup(&self) -> (r: Self) {
        let records = self.records.dup();
        proof {
            assert(records.deep_view() =~= records@);
            assert(self.records.deep_view() =~= self.records@);
        }
        EvidenceLog { records }
    }
}

impl Default for EvidenceLog {
    fn default() -> (r: Self)
        ensures
            r@ == Seq::<EvidenceRecord>::empty(),
    {
        EvidenceLog { records: Vec::new() }
    }
}

/// The log with a record added, unless it is there already.
pub open spec fn logged(log: Seq<EvidenceRecord>, record: EvidenceRecord) -> Seq<EvidenceRecord> {
    if log.contains(record) {
        log
    } else {
        log.push(record)
    }
}

impl EvidenceLog {
    pub fn contains(&self, record: &EvidenceRecord) -> (r: bool)
        ensures
            r == self@.contains(*record),
    {
        proof {
            assert(self.records.deep_view() =~= self.records@);
        }
        crate::collections::vec_contains(&self.records, record)
    }

    pub fn insert(&mut self, record: EvidenceRecord)
        ensures
            final(self)@ == logged(old(self)@, record),
    {
        if !self.contains(&record) {
            self.records.push(record);
        }
    }

    pub fn records(&self) -> (r: &[EvidenceRecord])
        ensures
            r@ == self@,
    {
        self.records.as_slice()
    }
}

} // verus!
