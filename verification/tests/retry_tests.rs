use adguardian::retry::{retry_notice, RetryState, RetryStep};

/// Runs the retry decisions over the given attempt outcomes; returns the number
/// of attempts made and whether the run succeeded.
fn simulate(attempts: u32, outcomes: &[bool]) -> (usize, bool) {
    let mut state = RetryState::new(attempts);
    let mut calls = 0;
    loop {
        let ok = outcomes[calls];
        calls += 1;
        match state.after_attempt(ok) {
            RetryStep::Succeed => return (calls, true),
            RetryStep::GiveUp => return (calls, false),
            RetryStep::Retry => {}
        }
    }
}

#[test]
fn retries_stop_at_the_limit() {
    assert_eq!(simulate(3, &[false, false, false, false]), (3, false));
    assert_eq!(simulate(1, &[false, false]), (1, false));
    assert_eq!(simulate(0, &[false, false]), (1, false));
}

#[test]
fn retries_stop_at_first_success() {
    assert_eq!(simulate(3, &[true]), (1, true));
    assert_eq!(simulate(3, &[false, true, false]), (2, true));
    assert_eq!(simulate(3, &[false, false, true]), (3, true));
    assert_eq!(simulate(0, &[true]), (1, true));
}

#[test]
fn retry_state_moves() {
    let mut s = RetryState::new(3);
    assert_eq!(s, RetryState { attempt: 1, attempts: 3 });
    assert_eq!(s.after_attempt(false), RetryStep::Retry);
    assert_eq!(s.attempt, 2);
    assert_eq!(s.after_attempt(true), RetryStep::Succeed);
    assert_eq!(s.attempt, 2);
}

#[test]
fn notice_text() {
    assert_eq!(
        retry_notice("AdGuard connection", 1, 3, "connection refused", 5),
        "AdGuard connection failed (attempt 1/3): connection refused\nRetrying in 5s..."
    );
}
