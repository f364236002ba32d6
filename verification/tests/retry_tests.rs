use placerepo::errors::{write_outcome, RepoError};
use placerepo::retry::{
    initial_state, run_acquisition, step, AcquireAction, AcquireEvent, AcquireState, RETRY_DELAY_SECS,
    RETRY_LIMIT,
};

#[test]
fn sustained_exhaustion_fails_after_exactly_five_attempts() {
    let outcomes = vec![AcquireEvent::Failure; RETRY_LIMIT];
    let run = run_acquisition(&outcomes);
    assert_eq!(run.outcome, Err(RepoError::PoolExhausted));
    assert_eq!(run.attempts, 5);
    assert_eq!(run.slept_secs, 15);
}

#[test]
fn acquisition_stops_at_the_first_success() {
    let outcomes = vec![
        AcquireEvent::Failure,
        AcquireEvent::Failure,
        AcquireEvent::Success,
        AcquireEvent::Failure,
        AcquireEvent::Failure,
    ];
    let run = run_acquisition(&outcomes);
    assert_eq!(run.outcome, Ok(2));
    assert_eq!(run.attempts, 3);
    assert_eq!(run.slept_secs, 2 * RETRY_DELAY_SECS);
}

#[test]
fn immediate_success_sleeps_not_at_all() {
    let mut outcomes = vec![AcquireEvent::Failure; RETRY_LIMIT];
    outcomes[0] = AcquireEvent::Success;
    let run = run_acquisition(&outcomes);
    assert_eq!(run.outcome, Ok(0));
    assert_eq!(run.attempts, 1);
    assert_eq!(run.slept_secs, 0);
}

#[test]
fn state_machine_walks_attempts_to_exhaustion() {
    let mut state = initial_state();
    assert_eq!(state, AcquireState::Attempting(1));
    for n in 1..RETRY_LIMIT {
        let (next, action) = step(state, AcquireEvent::Failure);
        assert_eq!(action, AcquireAction::Backoff(RETRY_DELAY_SECS));
        assert_eq!(next, AcquireState::Attempting(n + 1));
        state = next;
    }
    let (last, action) = step(state, AcquireEvent::Failure);
    assert_eq!(action, AcquireAction::Backoff(RETRY_DELAY_SECS));
    assert_eq!(last, AcquireState::Exhausted);
}

#[test]
fn success_transition_acquires() {
    let (next, action) = step(AcquireState::Attempting(3), AcquireEvent::Success);
    assert_eq!(next, AcquireState::Acquired);
    assert_eq!(action, AcquireAction::UseConnection);
}

#[test]
fn write_outcomes_propagate_failures() {
    assert_eq!(write_outcome(Ok(3)), Ok(3));
    let err = write_outcome(Err(String::from("duplicate key"))).unwrap_err();
    assert_eq!(err, RepoError::StorageFailure(String::from("duplicate key")));
    assert_eq!(err.message(), "storage failure: duplicate key");
    assert_eq!(RepoError::PoolExhausted.message(), "connection pool exhausted");
}
