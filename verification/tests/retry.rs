use packing::api::{
    retry_after_seconds, share_retry, start, step, transient_status, Attempt, Retry, RetryAction,
    RetryError,
    RetryEvent, RetryState,
};

const MS: u128 = 1_000_000;
const SEC: u128 = 1_000_000_000;
const FAST: u128 = 50 * MS;

fn transient() -> Attempt<u32> {
    Attempt::Transient { after: None }
}

/// Drive the policy for sharing against a scripted server on a fake clock.
/// Each entry is how long the attempt runs and how it ends; an attempt never
/// runs past the time it is given. Returns the result, each attempt's
/// allowed time, and each wait.
fn run(
    script: Vec<(u128, Attempt<u32>)>,
    cancel_after: Option<usize>,
) -> (Result<u32, RetryError>, Vec<u128>, Vec<u128>) {
    let policy = share_retry();
    let mut clock: u128 = 0;
    let mut timeouts: Vec<u128> = Vec::new();
    let mut waits: Vec<u128> = Vec::new();
    let mut script = script.into_iter();
    let (mut state, mut action) = start::<u32>(&policy);
    loop {
        let cancelled = cancel_after.is_some_and(|n| timeouts.len() >= n);
        let event = match action {
            RetryAction::Check => RetryEvent::Checked { cancelled, elapsed: clock },
            RetryAction::Send { timeout } => {
                timeouts.push(timeout);
                let (runs, outcome) = script.next().expect("attempt scripted");
                clock += runs.min(timeout);
                RetryEvent::Answered { outcome, elapsed: clock }
            }
            RetryAction::Sleep { wait } => {
                waits.push(wait);
                clock += wait;
                RetryEvent::Woke {
                    cancelled: cancel_after.is_some_and(|n| timeouts.len() >= n),
                }
            }
            RetryAction::Finish(r) => return (r, timeouts, waits),
        };
        let (next_state, next_action) = step(&policy, state, event);
        state = next_state;
        action = next_action;
    }
}

#[test]
fn a_network_error_then_success_retries_once() {
    let (result, timeouts, waits) = run(vec![(FAST, transient()), (FAST, Attempt::Done(7))], None);
    assert_eq!(result, Ok(7));
    assert_eq!(timeouts.len(), 2);
    assert_eq!(waits, [400 * MS]);
}

#[test]
fn repeated_server_errors_exhaust_the_attempts_with_backoff() {
    let (result, timeouts, waits) = run((0..4).map(|_| (FAST, transient())).collect(), None);
    assert_eq!(result, Err(RetryError::Failed));
    assert_eq!(timeouts.len(), 4);
    assert_eq!(waits, [400 * MS, 800 * MS, 1600 * MS]);
}

#[test]
fn a_permanent_failure_is_not_retried() {
    let (result, timeouts, waits) = run(vec![(FAST, Attempt::Permanent)], None);
    assert_eq!(result, Err(RetryError::Failed));
    assert_eq!(timeouts.len(), 1);
    assert!(waits.is_empty());
}

#[test]
fn retry_after_is_honored_exactly() {
    let wait = 3 * SEC;
    let (result, _, waits) = run(
        vec![(FAST, Attempt::Transient { after: Some(wait) }), (FAST, Attempt::Done(1))],
        None,
    );
    assert_eq!(result, Ok(1));
    assert_eq!(waits, [wait]);
}

#[test]
fn a_retry_after_past_the_budget_gives_up_instead_of_retrying_early() {
    let later = Attempt::Transient { after: Some(60 * SEC) };
    let (result, timeouts, waits) = run(vec![(FAST, later)], None);
    assert_eq!(result, Err(RetryError::Failed));
    assert_eq!(timeouts.len(), 1);
    assert!(waits.is_empty());
}

#[test]
fn hung_requests_are_cut_off_within_the_budget() {
    let hang = 3600 * SEC;
    let (result, timeouts, waits) = run((0..4).map(|_| (hang, transient())).collect(), None);
    assert_eq!(result, Err(RetryError::Failed));
    // Each attempt gets the timeout, or whatever is left of the budget.
    assert_eq!(timeouts, [8000 * MS, 8000 * MS, 2800 * MS], "{waits:?}");
    let total: u128 = timeouts.iter().chain(&waits).sum();
    assert!(total <= share_retry().budget, "{total:?}");
}

#[test]
fn an_enormous_retry_after_gives_up_without_overflowing() {
    let forever = Attempt::Transient { after: Some(u64::MAX as u128 * SEC) };
    let (result, timeouts, waits) = run(vec![(FAST, forever)], None);
    assert_eq!(result, Err(RetryError::Failed));
    assert_eq!(timeouts.len(), 1);
    assert!(waits.is_empty());
}

#[test]
fn cancelling_during_a_wait_sends_nothing_more() {
    let (result, timeouts, waits) = run(vec![(FAST, transient()), (FAST, Attempt::Done(1))], Some(1));
    assert_eq!(result, Err(RetryError::Cancelled));
    assert_eq!(timeouts.len(), 1, "no request after cancelling");
    assert_eq!(waits.len(), 1);
}

#[test]
fn cancelling_before_the_first_attempt_sends_nothing() {
    let (result, timeouts, waits) = run(vec![], Some(0));
    assert_eq!(result, Err(RetryError::Cancelled));
    assert!(timeouts.is_empty());
    assert!(waits.is_empty());
}

#[test]
fn only_timeouts_rate_limits_and_server_errors_are_transient() {
    for status in [408, 425, 429, 500, 502, 503, 504] {
        assert!(transient_status(status), "{status}");
    }
    for status in [400, 401, 403, 404, 413, 422] {
        assert!(!transient_status(status), "{status}");
    }
}

#[test]
fn transient_status_bounds_are_the_server_error_range() {
    assert!(!transient_status(499));
    assert!(transient_status(599));
    assert!(!transient_status(600));
    assert!(!transient_status(200));
}

#[test]
fn the_share_policy_has_its_documented_timings() {
    let p = share_retry();
    assert_eq!(p.attempts, 4);
    assert_eq!(p.budget, 20 * SEC);
    assert_eq!(p.timeout, 8 * SEC);
    assert_eq!(p.backoff, 400 * MS);
}

#[test]
fn a_policy_without_attempts_fails_at_once() {
    let p = Retry { attempts: 0, budget: SEC, timeout: SEC, backoff: MS };
    let (state, action) = start::<u32>(&p);
    assert_eq!(state, RetryState::Finished);
    assert_eq!(action, RetryAction::Finish(Err(RetryError::Failed)));
}

#[test]
fn an_exhausted_budget_sends_nothing() {
    let p = share_retry();
    let (state, _) = start::<u32>(&p);
    let (state, action) =
        step(&p, state, RetryEvent::<u32>::Checked { cancelled: false, elapsed: 20 * SEC });
    assert_eq!(state, RetryState::Finished);
    assert_eq!(action, RetryAction::Finish(Err(RetryError::Failed)));
}

#[test]
fn a_wait_is_always_shorter_than_what_is_left() {
    // Law: every action fits the budget from the clock reading it was
    // decided on.
    let p = share_retry();
    let (state, action) = step(
        &p,
        RetryState::Sending { attempt: 0 },
        RetryEvent::<u32>::Answered { outcome: Attempt::Transient { after: None }, elapsed: 19_600 * MS },
    );
    assert_eq!(state, RetryState::Finished);
    assert_eq!(action, RetryAction::Finish(Err(RetryError::Failed)));
    let (_, action) = step(
        &p,
        RetryState::Sending { attempt: 0 },
        RetryEvent::<u32>::Answered { outcome: Attempt::Transient { after: None }, elapsed: 19_599 * MS },
    );
    assert_eq!(action, RetryAction::Sleep { wait: 400 * MS });
}

#[test]
fn retry_after_seconds_reads_delta_seconds_like_std() {
    assert_eq!(retry_after_seconds("120"), Some(120));
    assert_eq!(retry_after_seconds(" 7 "), Some(7));
    assert_eq!(retry_after_seconds("Wed, 21 Oct 2015 07:28:00 GMT"), None);
    assert_eq!(retry_after_seconds("soon"), None);
    assert_eq!(retry_after_seconds("+5"), Some(5));
    assert_eq!(retry_after_seconds("-5"), None);
    assert_eq!(retry_after_seconds("+"), None);
    assert_eq!(retry_after_seconds(""), None);
    assert_eq!(retry_after_seconds("\u{3000}9\t\n"), Some(9));
    assert_eq!(retry_after_seconds("18446744073709551615"), Some(u64::MAX));
    assert_eq!(retry_after_seconds("18446744073709551616"), None);
    assert_eq!(retry_after_seconds("0000000000000000000000000012"), Some(12));
    for s in [
        "1 2", "12a", "\u{a0}3\u{2028}", "\u{200b}4", "٣", "9999999999999999999999", "+-1", "0", " ",
        "\u{85}10\u{205f}", "1.5", "1e3",
    ] {
        assert_eq!(retry_after_seconds(s), s.trim().parse::<u64>().ok(), "{s:?}");
    }
}
