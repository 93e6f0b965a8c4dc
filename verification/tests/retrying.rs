use store::error::Error;
use store::retry::{
    decide, Failure, RetryController, RetryPolicy, Verdict, MAX_BACKOFF, MAX_COMMIT_ATTEMPTS,
    MAX_COMMIT_TIME, MIN_BACKOFF,
};
use store::sql::SqlFailure;

fn failed(code: Option<&str>) -> SqlFailure {
    SqlFailure { code: code.map(|c| c.to_string()), message: "boom".to_string() }
}

#[test]
fn commit_policy() {
    let policy = RetryPolicy::commit();
    assert_eq!(policy.max_attempts, MAX_COMMIT_ATTEMPTS);
    assert_eq!(policy.max_time, MAX_COMMIT_TIME);
    assert_eq!((policy.min_backoff, policy.max_backoff), (50, 300));
    assert_eq!((MIN_BACKOFF, MAX_BACKOFF), (50, 300));
    let purge = RetryPolicy::purge();
    assert_eq!(purge.max_attempts, MAX_COMMIT_ATTEMPTS);
    assert_eq!(purge.max_time, u64::MAX);
    assert_eq!((purge.min_backoff, purge.max_backoff), (0, 0));
}

#[test]
fn recoverable_conflict_is_retried_within_budget() {
    let policy = RetryPolicy::commit();
    let conflict = Failure::Recoverable("conflict".to_string());
    assert_eq!(decide(conflict.clone(), &policy, 0, 0, 120), Verdict::Retry { backoff: 120 });
    assert_eq!(
        decide(conflict.clone(), &policy, MAX_COMMIT_ATTEMPTS - 1, MAX_COMMIT_TIME - 1, 50),
        Verdict::Retry { backoff: 50 }
    );
    assert_eq!(
        decide(conflict.clone(), &policy, MAX_COMMIT_ATTEMPTS, 0, 50),
        Verdict::Surface(Error::Backend("conflict".to_string()))
    );
    assert_eq!(
        decide(conflict, &policy, 0, MAX_COMMIT_TIME, 50),
        Verdict::Surface(Error::Backend("conflict".to_string()))
    );
}

#[test]
fn lost_document_id_is_retried_then_surfaces_as_assertion() {
    let policy = RetryPolicy::commit();
    assert_eq!(decide(Failure::AllocatorRetry, &policy, 3, 10, 77), Verdict::Retry { backoff: 77 });
    assert_eq!(
        decide(Failure::AllocatorRetry, &policy, MAX_COMMIT_ATTEMPTS, 10, 77),
        Verdict::Surface(Error::AssertValueFailed)
    );
    assert_eq!(
        decide(Failure::AllocatorRetry, &policy, 0, MAX_COMMIT_TIME, 77),
        Verdict::Surface(Error::AssertValueFailed)
    );
}

#[test]
fn other_failures_surface_at_once() {
    let policy = RetryPolicy::commit();
    assert_eq!(
        decide(Failure::AssertValueFailed, &policy, 0, 0, 50),
        Verdict::Surface(Error::AssertValueFailed)
    );
    assert_eq!(
        decide(Failure::Internal("Value too large".to_string()), &policy, 0, 0, 50),
        Verdict::Surface(Error::InternalError("Value too large".to_string()))
    );
    assert_eq!(
        decide(Failure::Fatal("disk".to_string()), &policy, 0, 0, 50),
        Verdict::Surface(Error::Backend("disk".to_string()))
    );
}

#[test]
fn errors_of_the_engine_are_not_recovered_from() {
    assert_eq!(Failure::from_error(Error::AssertValueFailed), Failure::AssertValueFailed);
    assert_eq!(
        Failure::from_error(Error::InternalError("x".to_string())),
        Failure::Internal("x".to_string())
    );
    assert_eq!(Failure::from_error(Error::Backend("y".to_string())), Failure::Fatal("y".to_string()));
}

#[test]
fn controller_counts_attempts_and_backs_off_at_random() {
    let mut controller = RetryController::new(RetryPolicy::commit());
    assert_eq!(controller.retries(), 0);
    let mut seen = std::collections::BTreeSet::new();
    for attempt in 0..MAX_COMMIT_ATTEMPTS {
        match controller.on_failure(Failure::Recoverable("conflict".to_string()), 5) {
            Verdict::Retry { backoff } => {
                assert!((50..=300).contains(&backoff));
                seen.insert(backoff);
            }
            other => panic!("attempt {} was not retried: {:?}", attempt, other),
        }
        assert_eq!(controller.retries(), attempt + 1);
    }
    assert!(seen.len() > 1);
    assert_eq!(
        controller.on_failure(Failure::Recoverable("conflict".to_string()), 5),
        Verdict::Surface(Error::Backend("conflict".to_string()))
    );
    assert_eq!(controller.retries(), MAX_COMMIT_ATTEMPTS);
}

#[test]
fn controller_gives_up_when_time_is_over() {
    let mut controller = RetryController::new(RetryPolicy::commit());
    assert_eq!(
        controller.on_failure(Failure::AllocatorRetry, MAX_COMMIT_TIME),
        Verdict::Surface(Error::AssertValueFailed)
    );
    assert_eq!(controller.retries(), 0);
    assert_eq!(
        controller.on_failure(Failure::AssertValueFailed, 0),
        Verdict::Surface(Error::AssertValueFailed)
    );
    assert_eq!(controller.retries(), 0);
}

#[test]
fn purge_is_retried_without_a_pause() {
    let mut controller = RetryController::new(RetryPolicy::purge());
    for _ in 0..MAX_COMMIT_ATTEMPTS {
        assert_eq!(
            controller.on_failure(Failure::Recoverable("conflict".to_string()), u64::MAX - 1),
            Verdict::Retry { backoff: 0 }
        );
    }
    assert_eq!(
        controller.on_failure(Failure::Recoverable("conflict".to_string()), 0),
        Verdict::Surface(Error::Backend("conflict".to_string()))
    );
}

#[test]
fn sql_states_are_classified() {
    assert_eq!(failed(Some("40001")).classify(false), Failure::Recoverable("boom".to_string()));
    assert_eq!(failed(Some("40P01")).classify(false), Failure::Recoverable("boom".to_string()));
    assert_eq!(failed(Some("40001")).classify(true), Failure::Recoverable("boom".to_string()));
    assert_eq!(failed(Some("23505")).classify(false), Failure::AssertValueFailed);
    assert_eq!(failed(Some("23505")).classify(true), Failure::AllocatorRetry);
    assert_eq!(failed(Some("42P01")).classify(false), Failure::Fatal("boom".to_string()));
    assert_eq!(failed(Some("42P01")).classify(true), Failure::Fatal("boom".to_string()));
    assert_eq!(failed(None).classify(true), Failure::Fatal("boom".to_string()));
}
