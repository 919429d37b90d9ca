use mashup_hour::retry::{RetryDecision, SearchRetry, INITIAL_SEARCH_ATTEMPTS, SEARCH_ATTEMPTS};
use mashup_hour::Error;

#[test]
fn budget_of_three_all_empty_gives_up_on_third() {
    let mut retry = SearchRetry::new(3);
    let mut attempts = 0;
    let outcome = loop {
        attempts += 1;
        match retry.record(Some(0)) {
            RetryDecision::Accept => break Ok(()),
            RetryDecision::RetryAfterDelay => continue,
            RetryDecision::GiveUp(e) => break Err(e),
        }
    };
    assert_eq!(attempts, 3);
    assert_eq!(retry.attempts(), 3);
    assert!(matches!(outcome, Err(Error::CriticalError(_))));
}

#[test]
fn failures_and_empty_results_both_count() {
    let mut retry = SearchRetry::new(3);
    assert!(matches!(retry.record(None), RetryDecision::RetryAfterDelay));
    assert!(matches!(retry.record(Some(0)), RetryDecision::RetryAfterDelay));
    assert!(matches!(retry.record(None), RetryDecision::GiveUp(Error::CriticalError(_))));
}

#[test]
fn non_empty_result_is_accepted() {
    let mut retry = SearchRetry::new(SEARCH_ATTEMPTS);
    assert!(matches!(retry.record(None), RetryDecision::RetryAfterDelay));
    assert!(matches!(retry.record(Some(42)), RetryDecision::Accept));
    assert_eq!(retry.attempts(), 2);
}

#[test]
fn no_attempt_beyond_budget() {
    let mut retry = SearchRetry::new(INITIAL_SEARCH_ATTEMPTS);
    for _ in 0..10 {
        let _ = retry.record(None);
    }
    assert_eq!(retry.attempts(), INITIAL_SEARCH_ATTEMPTS);
    assert!(matches!(retry.record(Some(5)), RetryDecision::GiveUp(_)));
}

#[test]
fn zero_budget_gives_up_at_once() {
    let mut retry = SearchRetry::new(0);
    assert!(matches!(retry.record(Some(5)), RetryDecision::GiveUp(_)));
    assert_eq!(retry.attempts(), 0);
}

use mashup_hour::refresh::{RefreshRun, RefreshStep};

#[test]
fn refresh_steps_run_in_order() {
    let mut run = RefreshRun::new();
    assert_eq!(run.current(), RefreshStep::Build);
    assert_eq!(run.advance(true), RefreshStep::Persist);
    assert_eq!(run.advance(true), RefreshStep::Rewindow);
    assert_eq!(run.advance(true), RefreshStep::RefreshCache);
    assert_eq!(run.advance(true), RefreshStep::Prune);
    assert_eq!(run.advance(true), RefreshStep::Done);
    assert_eq!(run.advance(false), RefreshStep::Done);
}

#[test]
fn failed_persist_aborts_before_prune() {
    let mut run = RefreshRun::new();
    assert_eq!(run.advance(true), RefreshStep::Persist);
    assert_eq!(run.advance(false), RefreshStep::Aborted);
    assert_eq!(run.advance(true), RefreshStep::Aborted);
    assert_eq!(run.current(), RefreshStep::Aborted);
}
