use harbor_router::breaker::Breaker;
use harbor_router::resolver::{outcome_of, UpstreamReply};

fn names(list: &[&str]) -> Vec<String> {
    list.iter().map(|n| n.to_string()).collect()
}

#[test]
fn a_project_that_keeps_failing_is_left_out_for_a_while() {
    let mut breaker = Breaker::new(3, 1_000);
    let projects = names(&["dockerhub", "ghcr", "quay"]);
    breaker.record("ghcr", false, 10);
    breaker.record("ghcr", false, 20);
    assert!(!breaker.is_open("ghcr", 20));
    assert_eq!(breaker.closed(&projects, 20), projects);
    breaker.record("ghcr", false, 30);
    assert!(breaker.is_open("ghcr", 30));
    assert!(breaker.is_open("ghcr", 1_029));
    assert_eq!(breaker.closed(&projects, 500), names(&["dockerhub", "quay"]));
    assert!(!breaker.is_open("ghcr", 1_030));
    assert_eq!(breaker.closed(&projects, 1_030), projects);
}

#[test]
fn one_more_failure_opens_the_circuit_again() {
    let mut breaker = Breaker::new(2, 1_000);
    breaker.record("ghcr", false, 0);
    breaker.record("ghcr", false, 0);
    assert!(!breaker.is_open("ghcr", 1_000));
    breaker.record("ghcr", false, 1_500);
    assert!(breaker.is_open("ghcr", 2_499));
    assert!(!breaker.is_open("ghcr", 2_500));
}

#[test]
fn an_answer_ends_the_row_of_failures() {
    let mut breaker = Breaker::new(2, 1_000);
    breaker.record("ghcr", false, 0);
    breaker.record("ghcr", true, 1);
    breaker.record("ghcr", false, 2);
    assert!(!breaker.is_open("ghcr", 2));
    breaker.record("ghcr", false, 3);
    assert!(breaker.is_open("ghcr", 3));
    breaker.record("ghcr", true, 4);
    assert!(!breaker.is_open("ghcr", 4));
}

#[test]
fn failures_of_one_project_do_not_count_for_another() {
    let mut breaker = Breaker::new(1, 1_000);
    breaker.record("ghcr", false, 0);
    assert!(breaker.is_open("ghcr", 0));
    assert!(!breaker.is_open("quay", 0));
    breaker.record("quay", true, 1);
    assert!(breaker.is_open("ghcr", 1));
}

#[test]
fn only_a_missing_response_is_a_failure() {
    let mut breaker = Breaker::new(1, 1_000);
    let answered = UpstreamReply::Answered {
        status: 404,
        headers: http::HeaderMap::new(),
        body: bytes::Bytes::new(),
    };
    breaker.record_outcome("ghcr", &outcome_of("ghcr", answered), 0);
    assert!(!breaker.is_open("ghcr", 0));
    breaker.record_outcome("ghcr", &outcome_of("ghcr", UpstreamReply::TimedOut), 1);
    assert!(breaker.is_open("ghcr", 1));
}
