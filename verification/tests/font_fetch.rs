use hayate_core::font_fetch::{FailureOutcome, FontFetchTracker, MAX_FETCH_ATTEMPTS};

#[test]
fn requests_until_in_flight_then_clears_on_load() {
    let mut t = FontFetchTracker::new();
    assert!(t.should_request("Noto Sans JP"));
    t.mark_requested("Noto Sans JP");
    assert!(!t.should_request("Noto Sans JP"), "in-flight suppresses re-request");
    t.mark_loaded("Noto Sans JP");
    assert!(t.should_request("Noto Sans JP"), "a loaded family can be requested afresh");
}

#[test]
fn failure_reopens_until_budget_is_exhausted() {
    let mut t = FontFetchTracker::new();
    for _ in 0..MAX_FETCH_ATTEMPTS - 1 {
        t.mark_requested("Noto Sans JP");
        assert_eq!(t.mark_failed("Noto Sans JP"), FailureOutcome::WillRetry);
        assert!(t.should_request("Noto Sans JP"), "a retryable failure reopens the request");
    }
    t.mark_requested("Noto Sans JP");
    assert_eq!(t.mark_failed("Noto Sans JP"), FailureOutcome::GaveUp);
    assert!(!t.should_request("Noto Sans JP"), "an exhausted family is never requested again");
}

#[test]
fn families_are_tracked_independently_and_a_load_resets_the_budget() {
    let mut t = FontFetchTracker::new();
    t.mark_requested("Noto Sans JP");
    assert!(t.should_request("Noto Sans KR"));
    for _ in 0..MAX_FETCH_ATTEMPTS {
        t.mark_requested("Noto Sans KR");
        t.mark_failed("Noto Sans KR");
    }
    assert!(!t.should_request("Noto Sans KR"));
    assert!(!t.should_request("Noto Sans JP"));
    t.mark_loaded("Noto Sans KR");
    assert!(t.should_request("Noto Sans KR"));
    t.mark_requested("Noto Sans KR");
    assert_eq!(t.mark_failed("Noto Sans KR"), FailureOutcome::WillRetry);
}

#[test]
fn giving_up_is_final_until_a_load() {
    let mut t = FontFetchTracker::new();
    for _ in 0..MAX_FETCH_ATTEMPTS {
        t.mark_requested("Noto Sans KR");
        t.mark_failed("Noto Sans KR");
    }
    for _ in 0..4 {
        t.mark_requested("Noto Sans KR");
        assert_eq!(t.mark_failed("Noto Sans KR"), FailureOutcome::GaveUp);
        assert!(!t.should_request("Noto Sans KR"));
    }
    t.mark_loaded("Noto Sans KR");
    assert!(t.should_request("Noto Sans KR"));
}
