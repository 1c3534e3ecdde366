use safe_migrate::evidence::{EvidenceCode, EvidenceRecord, EvidenceScope};
use safe_migrate::outcome::AnalysisOutcome;
use safe_migrate::state::Confidence;

#[test]
fn attached_evidence_is_in_order_and_there_once() {
    let late = EvidenceRecord::new(EvidenceCode::UnsupportedStatement, EvidenceScope::Statement);
    let early = EvidenceRecord::new(EvidenceCode::CatalogCoverageIncomplete, EvidenceScope::Chain);
    let outcome = AnalysisOutcome::new(vec![7u32], Confidence::Exact, vec![late]);
    let once = outcome.with_evidence(early);
    assert_eq!(once.evidence, vec![early, late]);
    assert_eq!(once.confidence, Confidence::Tainted);
    assert_eq!(once.findings, vec![7]);
    let twice = once.with_evidence(early);
    assert_eq!(twice.evidence, vec![early, late]);
}

#[test]
fn new_outcome_holds_what_it_was_given() {
    let outcome = AnalysisOutcome::new(vec!["finding"], Confidence::Exact, Vec::new());
    assert_eq!(outcome.findings, vec!["finding"]);
    assert_eq!(outcome.confidence, Confidence::Exact);
    assert!(outcome.evidence.is_empty());
}
