use endeavor::batch::{aggregate_outcomes, dedup_ids, SubmissionOutcome};
use endeavor::error::SessionError;

fn ids(v: &[&str]) -> Vec<String> {
    v.iter().map(|s| s.to_string()).collect()
}

#[test]
fn dedup_collapses_duplicates_keeping_first_order() {
    let unique = dedup_ids(&ids(&["1", "2", "2", "3"]));
    assert_eq!(unique, ids(&["1", "2", "3"]));
}

#[test]
fn dedup_keeps_singletons_unchanged() {
    let unique = dedup_ids(&ids(&["7", "3", "5"]));
    assert_eq!(unique, ids(&["7", "3", "5"]));
}

#[test]
fn dedup_of_empty_is_empty() {
    let unique = dedup_ids(&Vec::new());
    assert!(unique.is_empty());
}

#[test]
fn dedup_keeps_first_occurrence_position() {
    let unique = dedup_ids(&ids(&["9", "1", "9", "1", "9", "4"]));
    assert_eq!(unique, ids(&["9", "1", "4"]));
}

#[test]
fn aggregate_succeeds_when_all_succeed() {
    let outcomes = vec![
        SubmissionOutcome { id: "1".to_string(), outcome: Ok(()) },
        SubmissionOutcome { id: "3".to_string(), outcome: Ok(()) },
    ];
    let r = aggregate_outcomes(outcomes).unwrap();
    assert_eq!(r.len(), 2);
}

#[test]
fn aggregate_failure_keeps_every_outcome() {
    // id "2" fails while "1" and "3" succeed: the aggregate fails, but the
    // outcome set still marks "1" and "3" as succeeded
    let rejected = SessionError::RequestRejected {
        url: "/mobile_v2/apontamento.asp?Action=Post&app_id=2".to_string(),
        status: 500,
    };
    let outcomes = vec![
        SubmissionOutcome { id: "1".to_string(), outcome: Ok(()) },
        SubmissionOutcome { id: "2".to_string(), outcome: Err(rejected.clone()) },
        SubmissionOutcome { id: "3".to_string(), outcome: Ok(()) },
    ];
    let failed = aggregate_outcomes(outcomes).unwrap_err();
    assert_eq!(failed.len(), 3);
    assert_eq!(failed[0].id, "1");
    assert!(failed[0].outcome.is_ok());
    assert_eq!(failed[1].id, "2");
    assert_eq!(failed[1].outcome, Err(rejected));
    assert_eq!(failed[2].id, "3");
    assert!(failed[2].outcome.is_ok());
}
