//! The result of an analysis run.
use crate::collections::vec_contains;
use crate::evidence::{EvidenceCode, EvidenceRecord, EvidenceScope};
use crate::state::Confidence;
use vstd::prelude::*;

verus! {

pub open spec fn code_rank(code: EvidenceCode) -> int {
    match code {
        EvidenceCode::CatalogCoverageIncomplete => 0,
        EvidenceCode::TransactionStateUnknown => 1,
        EvidenceCode::UnknownObjectState => 2,
        EvidenceCode::UnmodeledState => 3,
        EvidenceCode::UnresolvedReference => 4,
        EvidenceCode::UnsupportedSemantics => 5,
        EvidenceCode::UnsupportedStatement => 6,
    }
}

pub open spec fn scope_rank(scope: EvidenceScope) -> int {
    match scope {
        EvidenceScope::Statement => 0,
        EvidenceScope::Chain => 1,
    }
}

/// Whether one record comes before another or is the same: by code, then by
/// scope, then by place, with records without a place first.
pub open spec fn comes_first(a: EvidenceRecord, b: EvidenceRecord) -> bool {
    if a.code != b.code {
        code_rank(a.code) < code_rank(b.code)
    } else if a.scope != b.scope {
        scope_rank(a.scope) < scope_rank(b.scope)
    } else {
        match (a.location, b.location) {
            (None, _) => true,
            (Some(_), None) => false,
            (Some(p), Some(q)) => p.line < q.line || (p.line == q.line && p.column <= q.column),
        }
    }
}

pub open spec fn in_order(records: Seq<EvidenceRecord>) -> bool {
    forall|i: int, j: int| 0 <= i < j < records.len() ==> comes_first(#[trigger] records[i], #[trigger] records[j])
}

/// What is left after a record was attached: what was there, where it holds
/// the record, and else all of them and the record, in order.
pub open spec fn attached(before: Seq<EvidenceRecord>, after: Seq<EvidenceRecord>, record: EvidenceRecord) -> bool {
    if before.contains(record) {
        after == before
    } else {
        in_order(after) && after.to_multiset() == before.push(record).to_multiset()
    }
}

/// The order of records is total: of two records one comes first, and both do
/// only where they are the same.
pub proof fn law_record_order_is_total(a: EvidenceRecord, b: EvidenceRecord, c: EvidenceRecord)
    ensures
        comes_first(a, b) || comes_first(b, a),
        comes_first(a, b) && comes_first(b, a) ==> a == b,
        comes_first(a, b) && comes_first(b, c) ==> comes_first(a, c),
{
}

fn find_code_rank(code: EvidenceCode) -> (r: u8)
    ensures
        r == code_rank(code),
{
    match code {
        EvidenceCode::CatalogCoverageIncomplete => 0,
        EvidenceCode::TransactionStateUnknown => 1,
        EvidenceCode::UnknownObjectState => 2,
        EvidenceCode::UnmodeledState => 3,
        EvidenceCode::UnresolvedReference => 4,
        EvidenceCode::UnsupportedSemantics => 5,
        EvidenceCode::UnsupportedStatement => 6,
    }
}

fn does_come_first(a: &EvidenceRecord, b: &EvidenceRecord) -> (r: bool)
    ensures
        r == comes_first(*a, *b),
{
    if a.code != b.code {
        return find_code_rank(a.code) < find_code_rank(b.code);
    }
    if a.scope != b.scope {
        return match a.scope {
            EvidenceScope::Statement => true,
            EvidenceScope::Chain => false,
        };
    }
    match (&a.location, &b.location) {
        (None, _) => true,
        (Some(_), None) => false,
        (Some(p), Some(q)) => p.line < q.line || (p.line == q.line && p.column <= q.column),
    }
}

/// Moves the last record to its place among the others, which are in order.
fn insert_in_order(records: &mut Vec<EvidenceRecord>, n: usize)
    requires
        n < old(records).len(),
        in_order(old(records)@.take(n as int)),
    ensures
        final(records).len() == old(records).len(),
        in_order(final(records)@.take(n + 1)),
        final(records)@.to_multiset() == old(records)@.to_multiset(),
        forall|i: int| n < i < final(records).len() ==> final(records)@[i] == old(records)@[i],
{
    let ghost start = records@;
    let mut k: usize = n;
    assert(start.take(n as int).len() == n);
    assert forall|i: int, j: int| 0 <= i < j <= n && j != n implies comes_first(#[trigger] records@[i], #[trigger] records@[j]) by {
        assert(start.take(n as int)[i] == records@[i]);
        assert(start.take(n as int)[j] == records@[j]);
    }
    while k > 0
        invariant
            k <= n,
            n < records.len(),
            records.len() == start.len(),
            start == old(records)@,
            records@.to_multiset() == start.to_multiset(),
            forall|i: int, j: int| 0 <= i < j <= n && j != k && i != k ==> comes_first(#[trigger] records@[i], #[trigger] records@[j]),
            forall|j: int| k < j <= n ==> comes_first(records@[k as int], #[trigger] records@[j]),
            forall|i: int| n < i < records.len() ==> records@[i] == start[i],
        decreases k,
    {
        if does_come_first(&records[k - 1], &records[k]) {
            let ghost s = records@;
            assert forall|i: int, j: int| 0 <= i < j <= n implies comes_first(#[trigger] s[i], #[trigger] s[j]) by {
                if j == k && i < k - 1 {
                    law_record_order_is_total(s[i], s[k - 1], s[k as int]);
                }
            }
            proof {
                lemma_prefix_in_order(s, n);
            }
            return;
        }
        let ghost s = records@;
        let a = records[k - 1];
        let b = records[k];
        records.set(k - 1, b);
        records.set(k, a);
        proof {
            assert(records@ =~= s.update(k - 1, b).update(k as int, a));
            lemma_swap_multiset(s, k - 1, k as int);
            law_record_order_is_total(a, b, b);
            assert forall|i: int, j: int| 0 <= i < j <= n && j != k - 1 && i != k - 1 implies comes_first(
                #[trigger] records@[i],
                #[trigger] records@[j],
            ) by {
                if i == k {
                    assert(comes_first(s[k - 1], s[j]));
                } else if j == k {
                    assert(comes_first(s[i], s[k - 1]));
                } else {
                    assert(comes_first(s[i], s[j]));
                }
            }
            assert forall|j: int| k - 1 < j <= n implies comes_first(records@[k - 1], #[trigger] records@[j]) by {
                if j != k {
                    assert(comes_first(s[k as int], s[j]));
                }
            }
        }
        k = k - 1;
    }
    proof {
        lemma_prefix_in_order(records@, n);
    }
}

proof fn lemma_prefix_in_order(s: Seq<EvidenceRecord>, n: usize)
    requires
        n < s.len(),
        forall|i: int, j: int| 0 <= i < j <= n ==> comes_first(#[trigger] s[i], #[trigger] s[j]),
    ensures
        in_order(s.take(n + 1)),
{
    let t = s.take(n + 1);
    assert forall|i: int, j: int| 0 <= i < j < t.len() implies comes_first(#[trigger] t[i], #[trigger] t[j]) by {
        assert(comes_first(s[i], s[j]));
    }
}

proof fn lemma_swap_multiset(s: Seq<EvidenceRecord>, i: int, j: int)
    requires
        0 <= i < j < s.len(),
    ensures
        s.update(i, s[j]).update(j, s[i]).to_multiset() == s.to_multiset(),
{
    broadcast use vstd::seq_lib::group_to_multiset_ensures;

    vstd::seq_lib::to_multiset_update(s, i, s[j]);
    vstd::seq_lib::to_multiset_update(s.update(i, s[j]), j, s[i]);
    assert(s.update(i, s[j]).update(j, s[i]).to_multiset() =~= s.to_multiset());
}

fn sort_records(records: &mut Vec<EvidenceRecord>)
    ensures
        in_order(final(records)@),
        final(records)@.to_multiset() == old(records)@.to_multiset(),
{
    let n = records.len();
    let mut i: usize = 0;
    while i < n
        invariant
            i <= n,
            n == records.len(),
            in_order(records@.take(i as int)),
            records@.to_multiset() == old(records)@.to_multiset(),
        decreases n - i,
    {
        insert_in_order(records, i);
        i = i + 1;
    }
    assert(records@.take(n as int) =~= records@);
}

/// What an analysis run found, and how far it can be relied on.
#[derive(Clone, Debug)]
pub struct AnalysisOutcome<T> {
    pub findings: Vec<T>,
    pub confidence: Confidence,
    pub evidence: Vec<EvidenceRecord>,
}

impl<T> AnalysisOutcome<T> {
    pub fn new(findings: Vec<T>, confidence: Confidence, evidence: Vec<EvidenceRecord>) -> (r: Self)
        ensures
            r.findings == findings,
            r.confidence == confidence,
            r.evidence == evidence,
    {
        AnalysisOutcome { findings, confidence, evidence }
    }

    /// Attaches a record after the run, such as a missing or stale baseline.
    /// It makes the verdict uncertain and leaves the findings as they are. A
    /// record that is there already is not added again; one that is added
    /// leaves all of them in order.
    pub fn with_evidence(self, record: EvidenceRecord) -> (r: Self)
        ensures
            r.findings == self.findings,
            r.confidence == Confidence::Tainted,
            attached(self.evidence@, r.evidence@, record),
    {
        let mut r = self;
        proof {
            assert(r.evidence.deep_view() =~= r.evidence@);
        }
        if !vec_contains(&r.evidence, &record) {
            let mut evidence = r.evidence;
            evidence.push(record);
            sort_records(&mut evidence);
            r.evidence = evidence;
        }
        r.confidence = Confidence::Tainted;
        r
    }
}

/// Attaching a record again leaves what the first time left.
pub proof fn law_record_is_attached_once(before: Seq<EvidenceRecord>, once: Seq<EvidenceRecord>, twice: Seq<EvidenceRecord>, record: EvidenceRecord)
    requires
        attached(before, once, record),
        attached(once, twice, record),
    ensures
        once.contains(record),
        twice == once,
{
    broadcast use vstd::seq_lib::group_to_multiset_ensures;

    if !before.contains(record) {
        let pushed = before.push(record);
        assert(pushed[pushed.len() - 1] == record);
        assert(pushed.to_multiset().count(record) > 0);
    }
}

/// What attaching a record leaves is determined by what was there.
pub proof fn law_attached_is_determined(before: Seq<EvidenceRecord>, one: Seq<EvidenceRecord>, other: Seq<EvidenceRecord>, record: EvidenceRecord)
    requires
        attached(before, one, record),
        attached(before, other, record),
    ensures
        one == other,
{
    if !before.contains(record) {
        let order = |a: EvidenceRecord, b: EvidenceRecord| comes_first(a, b);
        assert(vstd::relations::total_ordering(order)) by {
            assert forall|a: EvidenceRecord, b: EvidenceRecord, c: EvidenceRecord| #[trigger] order(a, b) && #[trigger] order(b, c) implies order(a, c) by {
                law_record_order_is_total(a, b, c);
            }
            assert forall|a: EvidenceRecord, b: EvidenceRecord| #[trigger] order(a, b) || order(b, a) by {
                law_record_order_is_total(a, b, b);
            }
            assert forall|a: EvidenceRecord, b: EvidenceRecord| #[trigger] order(a, b) && order(b, a) implies a == b by {
                law_record_order_is_total(a, b, b);
            }
        }
        assert(vstd::relations::sorted_by(one, order));
        assert(vstd::relations::sorted_by(other, order));
        vstd::seq_lib::lemma_sorted_unique(one, other, order);
    }
}

} // verus!
