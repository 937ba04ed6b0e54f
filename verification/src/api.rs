//! The retry policy for requests to the backend, as a state machine: the
//! caller performs each action it returns (check the clock and the
//! cancellation flag, send a request, sleep) and reports what happened.
//! Durations are in nanoseconds.
use vstd::prelude::*;
use vstd::arithmetic::power2::{lemma2_to64, lemma_pow2_strictly_increases, lemma_pow2_unfold, pow2};
use crate::text::chars_of;

verus! {

/// Largest duration the platform's clock type holds, in nanoseconds.
pub const DURATION_MAX_NANOS: u128 = 18_446_744_073_709_551_615_999_999_999;

/// Bounded retries: at most `attempts` requests, each cut off after
/// `timeout`, all within one `budget` that also covers the waits between.
#[derive(Clone, Copy, Debug, PartialEq, Eq, Structural)]
pub struct Retry {
    pub attempts: u32,
    pub budget: u128,
    pub timeout: u128,
    /// First wait between attempts, doubling each time unless the server
    /// sends Retry-After.
    pub backoff: u128,
}

/// The policy for creating a short share link: four attempts within twenty
/// seconds, each cut off after eight, first waiting 400 ms.
pub fn share_retry() -> (r: Retry)
    ensures
        r.attempts == 4,
        r.budget == 20_000_000_000,
        r.timeout == 8_000_000_000,
        r.backoff == 400_000_000,
{
    Retry { attempts: 4, budget: 20_000_000_000, timeout: 8_000_000_000, backoff: 400_000_000 }
}

/// How one attempt ended.
#[derive(Clone, Copy, Debug, PartialEq, Eq)]
pub enum Attempt<T> {
    Done(T),
    /// Worth another try: a network error, a timeout, or a 408, 425, 429 or
    /// 5xx status. `after` is the server's Retry-After, if it sent one.
    Transient { after: Option<u128> },
    /// Retrying won't help: the server rejected the request.
    Permanent,
}

#[derive(Clone, Copy, Debug, PartialEq, Eq, Structural)]
pub enum RetryError {
    /// Attempts or time ran out, or the server refused.
    Failed,
    /// The caller went away, so nothing more should happen.
    Cancelled,
}

/// Where a run of the policy stands. `attempt` counts from zero.
#[derive(Clone, Copy, Debug, PartialEq, Eq, Structural)]
pub enum RetryState {
    /// About to start an attempt: waiting for the cancellation flag and
    /// the elapsed time.
    Checking { attempt: u32 },
    /// A request is out: waiting for its outcome and the elapsed time.
    Sending { attempt: u32 },
    /// Sleeping before the next attempt: waiting to wake and for the
    /// cancellation flag.
    Waiting { attempt: u32 },
    /// The run has ended.
    Finished,
}

/// What the caller reports back.
#[derive(Clone, Copy, Debug, PartialEq, Eq)]
pub enum RetryEvent<T> {
    /// Answer to [`RetryAction::Check`].
    Checked { cancelled: bool, elapsed: u128 },
    /// Answer to [`RetryAction::Send`]: the outcome and the elapsed time
    /// once it ended.
    Answered { outcome: Attempt<T>, elapsed: u128 },
    /// Answer to [`RetryAction::Sleep`], with the cancellation flag.
    Woke { cancelled: bool },
}

/// What the caller must do next.
#[derive(Debug, PartialEq, Eq)]
pub enum RetryAction<T> {
    /// Read the cancellation flag and the elapsed time.
    Check,
    /// Send one request, allowing it `timeout`.
    Send { timeout: u128 },
    /// Wait `wait` before the next attempt.
    Sleep { wait: u128 },
    /// The run is over with this result.
    Finish(Result<T, RetryError>),
}

/// What is left of `budget` after `elapsed`, never below zero.
pub open spec fn left(budget: u128, elapsed: u128) -> u128 {
    if elapsed >= budget {
        0
    } else {
        (budget - elapsed) as u128
    }
}

/// The state's attempt number is one the policy allows.
pub open spec fn state_ok(p: Retry, s: RetryState) -> bool {
    match s {
        RetryState::Checking { attempt } => attempt < p.attempts,
        RetryState::Sending { attempt } => attempt < p.attempts,
        RetryState::Waiting { attempt } => attempt + 1 < p.attempts,
        RetryState::Finished => true,
    }
}

/// The event answers the action the state is waiting for.
pub open spec fn answers<T>(s: RetryState, e: RetryEvent<T>) -> bool {
    match s {
        RetryState::Checking { .. } => e is Checked,
        RetryState::Sending { .. } => e is Answered,
        RetryState::Waiting { .. } => e is Woke,
        RetryState::Finished => false,
    }
}

/// The default wait after attempt `k`: `backoff` doubled `k` times.
pub open spec fn backoff_wait(p: Retry, k: nat) -> int {
    p.backoff * pow2(k)
}

/// The step is defined: computing the default wait would neither overflow
/// the doubling factor nor the platform's durations.
pub open spec fn step_defined<T>(p: Retry, s: RetryState, e: RetryEvent<T>) -> bool {
    match (s, e) {
        (RetryState::Sending { attempt }, RetryEvent::Answered { outcome, .. }) => (outcome matches Attempt::Transient { after: None } && attempt + 1 != p.attempts) ==> attempt < 32
            && backoff_wait(p, attempt as nat) <= DURATION_MAX_NANOS,
        _ => true,
    }
}

/// The first state of a run and its first action.
pub fn start<T>(p: &Retry) -> (r: (RetryState, RetryAction<T>))
    ensures
        r == spec_start::<T>(*p),
        p.attempts == 0 ==> r == (RetryState::Finished, RetryAction::<T>::Finish(Err(RetryError::Failed))),
        p.attempts > 0 ==> r == (RetryState::Checking { attempt: 0 }, RetryAction::<T>::Check),
        state_ok(*p, r.0),
{
    if p.attempts == 0 {
        (RetryState::Finished, RetryAction::Finish(Err(RetryError::Failed)))
    } else {
        (RetryState::Checking { attempt: 0 }, RetryAction::Check)
    }
}

/// `2^k`, for `k < 32`.
fn doubling(k: u32) -> (r: u32)
    requires
        k < 32,
    ensures
        r == pow2(k as nat),
{
    let mut r: u32 = 1;
    let mut i: u32 = 0;
    proof {
        lemma2_to64();
    }
    while i < k
        invariant
            i <= k < 32,
            r == pow2(i as nat),
        decreases k - i,
    {
        proof {
            lemma_pow2_unfold((i + 1) as nat);
            lemma2_to64();
            if i + 1 < 31 {
                lemma_pow2_strictly_increases((i + 1) as nat, 31);
            }
        }
        r = r * 2;
        i = i + 1;
    }
    r
}

/// The next state and action after event `e` in state `s`.
pub open spec fn spec_step<T>(p: Retry, s: RetryState, e: RetryEvent<T>) -> (RetryState, RetryAction<T>) {
    match (s, e) {
        (RetryState::Checking { attempt }, RetryEvent::Checked { cancelled, elapsed }) => if cancelled {
            (RetryState::Finished, RetryAction::Finish(Err(RetryError::Cancelled)))
        } else if left(p.budget, elapsed) == 0 {
            (RetryState::Finished, RetryAction::Finish(Err(RetryError::Failed)))
        } else {
            (
                RetryState::Sending { attempt },
                RetryAction::Send {
                    timeout: if left(p.budget, elapsed) < p.timeout {
                        left(p.budget, elapsed)
                    } else {
                        p.timeout
                    },
                },
            )
        },
        (RetryState::Sending { attempt }, RetryEvent::Answered { outcome, elapsed }) => match outcome {
            Attempt::Done(v) => (RetryState::Finished, RetryAction::Finish(Ok(v))),
            Attempt::Permanent => (RetryState::Finished, RetryAction::Finish(Err(RetryError::Failed))),
            Attempt::Transient { after } => {
                let wait: int = match after {
                    Some(w) => w as int,
                    None => backoff_wait(p, attempt as nat),
                };
                if attempt + 1 == p.attempts || wait >= left(p.budget, elapsed) {
                    (RetryState::Finished, RetryAction::Finish(Err(RetryError::Failed)))
                } else {
                    (RetryState::Waiting { attempt }, RetryAction::Sleep { wait: wait as u128 })
                }
            },
        },
        (RetryState::Waiting { attempt }, RetryEvent::Woke { cancelled }) => if cancelled {
            (RetryState::Finished, RetryAction::Finish(Err(RetryError::Cancelled)))
        } else {
            (RetryState::Checking { attempt: (attempt + 1) as u32 }, RetryAction::Check)
        },
        _ => (RetryState::Finished, RetryAction::Finish(Err(RetryError::Failed))),
    }
}

/// Advance the policy by one event. A Retry-After is honored exactly: if it
/// would outlast the budget, the run gives up rather than retrying early.
/// Cancellation is checked before every attempt and after every wait.
pub fn step<T>(p: &Retry, s: RetryState, e: RetryEvent<T>) -> (r: (RetryState, RetryAction<T>))
    requires
        state_ok(*p, s),
        answers(s, e),
        step_defined(*p, s, e),
    ensures
        r == spec_step(*p, s, e),
        state_ok(*p, r.0),
        r.0 == RetryState::Finished <==> r.1 is Finish,
{
    match s {
        RetryState::Checking { attempt } => match e {
            RetryEvent::Checked { cancelled, elapsed } => {
                if cancelled {
                    return (RetryState::Finished, RetryAction::Finish(Err(RetryError::Cancelled)));
                }
                let left = p.budget.saturating_sub(elapsed);
                if left == 0 {
                    return (RetryState::Finished, RetryAction::Finish(Err(RetryError::Failed)));
                }
                let timeout = if left < p.timeout {
                    left
                } else {
                    p.timeout
                };
                (RetryState::Sending { attempt }, RetryAction::Send { timeout })
            },
            _ => (RetryState::Finished, RetryAction::Finish(Err(RetryError::Failed))),
        },
        RetryState::Sending { attempt } => match e {
            RetryEvent::Answered { outcome, elapsed } => {
                let after = match outcome {
                    Attempt::Done(v) => {
                        return (RetryState::Finished, RetryAction::Finish(Ok(v)));
                    },
                    Attempt::Permanent => {
                        return (RetryState::Finished, RetryAction::Finish(Err(RetryError::Failed)));
                    },
                    Attempt::Transient { after } => after,
                };
                if attempt + 1 == p.attempts {
                    return (RetryState::Finished, RetryAction::Finish(Err(RetryError::Failed)));
                }
                let wait = match after {
                    Some(w) => w,
                    None => p.backoff * (doubling(attempt) as u128),
                };
                if wait >= p.budget.saturating_sub(elapsed) {
                    return (RetryState::Finished, RetryAction::Finish(Err(RetryError::Failed)));
                }
                (RetryState::Waiting { attempt }, RetryAction::Sleep { wait })
            },
            _ => (RetryState::Finished, RetryAction::Finish(Err(RetryError::Failed))),
        },
        RetryState::Waiting { attempt } => match e {
            RetryEvent::Woke { cancelled } => {
                if cancelled {
                    return (RetryState::Finished, RetryAction::Finish(Err(RetryError::Cancelled)));
                }
                (RetryState::Checking { attempt: attempt + 1 }, RetryAction::Check)
            },
            _ => (RetryState::Finished, RetryAction::Finish(Err(RetryError::Failed))),
        },
        RetryState::Finished => (RetryState::Finished, RetryAction::Finish(Err(RetryError::Failed))),
    }
}

/// Statuses worth retrying: request timeouts, rate limits and server errors.
pub fn transient_status(status: u16) -> (r: bool)
    ensures
        r == (status == 408 || status == 425 || status == 429 || (500 <= status <= 599)),
{
    status == 408 || status == 425 || status == 429 || (500 <= status && status <= 599)
}

/// How a failed response ends an attempt: retrying won't help unless its
/// status is worth retrying, and then the server's wait, if it sent one,
/// is kept.
pub fn failed_attempt<T>(status: u16, after: Option<u128>) -> (r: Attempt<T>)
    ensures
        r == (if status == 408 || status == 425 || status == 429 || (500 <= status <= 599) {
            Attempt::<T>::Transient { after }
        } else {
            Attempt::<T>::Permanent
        }),
{
    if transient_status(status) {
        Attempt::Transient { after }
    } else {
        Attempt::Permanent
    }
}

/// Requests that a run starting in `s` sends while it is answered by
/// `events`, up to the first event that does not answer its state.
pub open spec fn sends<T>(p: Retry, s: RetryState, events: Seq<RetryEvent<T>>) -> nat
    decreases events.len(),
{
    if events.len() == 0 || !state_ok(p, s) || !answers(s, events[0]) || !step_defined(p, s, events[0]) {
        0
    } else {
        let (next, action) = spec_step(p, s, events[0]);
        (if action is Send {
            1nat
        } else {
            0nat
        }) + sends(p, next, events.drop_first())
    }
}

/// Requests a run may still send from state `s`.
pub open spec fn requests_left(p: Retry, s: RetryState) -> int {
    match s {
        RetryState::Checking { attempt } => p.attempts - attempt,
        RetryState::Sending { attempt } => p.attempts - attempt - 1,
        RetryState::Waiting { attempt } => p.attempts - attempt - 1,
        RetryState::Finished => 0,
    }
}

/// At most `attempts` requests: however the caller answers, a run sends no
/// more requests than the policy has attempts left.
pub proof fn law_at_most_attempts<T>(p: Retry, s: RetryState, events: Seq<RetryEvent<T>>)
    requires
        state_ok(p, s),
    ensures
        sends(p, s, events) <= requests_left(p, s),
    decreases events.len(),
{
    if events.len() == 0 || !answers(s, events[0]) || !step_defined(p, s, events[0]) {
    } else {
        let (next, action) = spec_step(p, s, events[0]);
        lemma_step_keeps_state_ok(p, s, events[0]);
        law_at_most_attempts(p, next, events.drop_first());
    }
}

/// A step from a state the policy allows leads to a state it allows.
pub proof fn lemma_step_keeps_state_ok<T>(p: Retry, s: RetryState, e: RetryEvent<T>)
    requires
        state_ok(p, s),
        answers(s, e),
    ensures
        state_ok(p, spec_step(p, s, e).0),
{
}

/// Every action ends within the budget measured from the clock reading it
/// was decided on: a request gets at most the timeout and never more than
/// what is left, and a wait is always shorter than what is left.
pub proof fn law_actions_fit_budget<T>(p: Retry, s: RetryState, e: RetryEvent<T>)
    requires
        state_ok(p, s),
        answers(s, e),
        step_defined(p, s, e),
    ensures
        match (e, spec_step(p, s, e).1) {
            (RetryEvent::Checked { elapsed, .. }, RetryAction::Send { timeout }) => timeout <= p.timeout
                && elapsed + timeout <= p.budget,
            (RetryEvent::Answered { elapsed, .. }, RetryAction::Sleep { wait }) => elapsed + wait < p.budget,
            _ => true,
        },
{
}

/// The clock reading after event `e` answers action `a` taken at reading
/// `c`: a check or an answer reads the clock, and a wait adds its length.
pub open spec fn clock_after<T>(a: RetryAction<T>, c: int, e: RetryEvent<T>) -> int {
    match e {
        RetryEvent::Checked { elapsed, .. } => elapsed as int,
        RetryEvent::Answered { elapsed, .. } => elapsed as int,
        RetryEvent::Woke { .. } => match a {
            RetryAction::Sleep { wait } => c + wait,
            _ => c,
        },
    }
}

/// `e` is what an honest clock reports for action `a` taken at reading
/// `c`: a check reads the current time, and a request ends within the time
/// it was given.
pub open spec fn honest<T>(a: RetryAction<T>, c: int, e: RetryEvent<T>) -> bool {
    match (a, e) {
        (RetryAction::Check, RetryEvent::Checked { elapsed, .. }) => elapsed == c,
        (RetryAction::Send { timeout }, RetryEvent::Answered { elapsed, .. }) => c <= elapsed <= c
            + timeout,
        (RetryAction::Sleep { .. }, RetryEvent::Woke { .. }) => true,
        _ => false,
    }
}

/// Along the part of a run from state `s` and action `a`, taken at clock
/// reading `c`, that `events` answer honestly, every clock reading stays
/// within the budget.
pub open spec fn stays_within_budget<T>(
    p: Retry,
    s: RetryState,
    a: RetryAction<T>,
    c: int,
    events: Seq<RetryEvent<T>>,
) -> bool
    decreases events.len(),
{
    if events.len() == 0 || !honest(a, c, events[0]) || !answers(s, events[0]) || !step_defined(
        p,
        s,
        events[0],
    ) {
        true
    } else {
        let c2 = clock_after(a, c, events[0]);
        let (s2, a2) = spec_step(p, s, events[0]);
        c2 <= p.budget && stays_within_budget(p, s2, a2, c2, events.drop_first())
    }
}

/// The action is the one the state waits on, and it fits what is left of
/// the budget at reading `c`.
pub open spec fn action_fits<T>(p: Retry, s: RetryState, a: RetryAction<T>, c: int) -> bool {
    &&& 0 <= c <= p.budget
    &&& state_ok(p, s)
    &&& match (s, a) {
        (RetryState::Checking { .. }, RetryAction::Check) => true,
        (RetryState::Sending { .. }, RetryAction::Send { timeout }) => c + timeout <= p.budget,
        (RetryState::Waiting { .. }, RetryAction::Sleep { wait }) => c + wait < p.budget,
        (RetryState::Finished, RetryAction::Finish(_)) => true,
        _ => false,
    }
}

/// The first state and action of a run.
pub open spec fn spec_start<T>(p: Retry) -> (RetryState, RetryAction<T>) {
    if p.attempts == 0 {
        (RetryState::Finished, RetryAction::Finish(Err(RetryError::Failed)))
    } else {
        (RetryState::Checking { attempt: 0 }, RetryAction::Check)
    }
}

/// From an action that fits the budget, an honestly answered run stays
/// within it.
proof fn lemma_stays_within_budget<T>(
    p: Retry,
    s: RetryState,
    a: RetryAction<T>,
    c: int,
    events: Seq<RetryEvent<T>>,
)
    requires
        action_fits(p, s, a, c),
    ensures
        stays_within_budget(p, s, a, c, events),
    decreases events.len(),
{
    if events.len() == 0 || !honest(a, c, events[0]) || !answers(s, events[0]) || !step_defined(
        p,
        s,
        events[0],
    ) {
    } else {
        let e = events[0];
        let c2 = clock_after(a, c, e);
        let (s2, a2) = spec_step(p, s, e);
        lemma_step_keeps_state_ok(p, s, e);
        assert(action_fits(p, s2, a2, c2));
        lemma_stays_within_budget(p, s2, a2, c2, events.drop_first());
    }
}

/// A run never outlasts its budget: when every request ends within the
/// time it is given and every wait takes its length, no reading of the
/// clock during the run passes the budget, however the requests end.
pub proof fn law_run_within_budget<T>(p: Retry, events: Seq<RetryEvent<T>>)
    ensures
        stays_within_budget(p, spec_start::<T>(p).0, spec_start::<T>(p).1, 0, events),
{
    lemma_stays_within_budget(p, spec_start::<T>(p).0, spec_start::<T>(p).1, 0, events);
}

/// A Retry-After is honored exactly: the run either waits exactly that
/// long or gives up; it never retries early.
pub proof fn law_retry_after_honored<T>(p: Retry, s: RetryState, w: u128, elapsed: u128)
    requires
        s is Sending,
    ensures
        ({
            let r = spec_step(p, s, RetryEvent::<T>::Answered { outcome: Attempt::Transient { after: Some(w) }, elapsed });
            r.1 == RetryAction::<T>::Sleep { wait: w } || r.1 == RetryAction::<T>::Finish(Err(RetryError::Failed))
        }),
{
}

/// Cancellation ends the run at once, and only cancellation ends it with
/// [`RetryError::Cancelled`].
pub proof fn law_cancel_stops<T>(p: Retry, s: RetryState, e: RetryEvent<T>)
    requires
        answers(s, e),
    ensures
        (e matches RetryEvent::Checked { cancelled, .. } && cancelled) || (e matches RetryEvent::Woke { cancelled } && cancelled)
            <==> spec_step(p, s, e).1 == RetryAction::<T>::Finish(Err(RetryError::Cancelled)),
{
}

/// A permanent failure is not retried, and a success ends the run with
/// its value.
pub proof fn law_outcome_ends<T>(p: Retry, s: RetryState, v: T, elapsed: u128)
    requires
        s is Sending,
    ensures
        spec_step(p, s, RetryEvent::<T>::Answered { outcome: Attempt::Permanent, elapsed }) == (
            RetryState::Finished,
            RetryAction::<T>::Finish(Err(RetryError::Failed)),
        ),
        spec_step(p, s, RetryEvent::Answered { outcome: Attempt::Done(v), elapsed }) == (
            RetryState::Finished,
            RetryAction::<T>::Finish(Ok(v)),
        ),
{
}

/// Unicode White_Space: the characters trimmed from both ends of a header
/// value.
pub open spec fn white_space(c: char) -> bool {
    let u = c as u32;
    ||| 9 <= u <= 13
    ||| u == 32
    ||| u == 0x85
    ||| u == 0xa0
    ||| u == 0x1680
    ||| 0x2000 <= u <= 0x200a
    ||| u == 0x2028
    ||| u == 0x2029
    ||| u == 0x202f
    ||| u == 0x205f
    ||| u == 0x3000
}

/// `s` without its leading white space.
pub open spec fn trim_start(s: Seq<char>) -> Seq<char>
    decreases s.len(),
{
    if s.len() > 0 && white_space(s[0]) {
        trim_start(s.drop_first())
    } else {
        s
    }
}

/// `s` without its trailing white space.
pub open spec fn trim_end(s: Seq<char>) -> Seq<char>
    decreases s.len(),
{
    if s.len() > 0 && white_space(s.last()) {
        trim_end(s.drop_last())
    } else {
        s
    }
}

/// `s` without white space at either end.
pub open spec fn trimmed(s: Seq<char>) -> Seq<char> {
    trim_end(trim_start(s))
}

/// `c` is an ASCII decimal digit.
pub open spec fn is_digit(c: char) -> bool {
    '0' <= c <= '9'
}

/// The number the decimal digits `s` spell.
pub open spec fn digits_value(s: Seq<char>) -> nat
    decreases s.len(),
{
    if s.len() == 0 {
        0
    } else {
        digits_value(s.drop_last()) * 10 + (s.last() as nat - 48) as nat
    }
}

/// `s` without a leading `+`.
pub open spec fn unsigned_digits(s: Seq<char>) -> Seq<char> {
    if s.len() > 0 && s[0] == '+' {
        s.drop_first()
    } else {
        s
    }
}

/// Every character of `d` is a decimal digit.
pub open spec fn all_digits(d: Seq<char>) -> bool {
    forall|i: int| 0 <= i < d.len() ==> is_digit(#[trigger] d[i])
}

/// `s` as an unsigned 64-bit decimal: an optional `+`, then one or more
/// digits, no more than `u64::MAX`.
pub open spec fn parse_u64(s: Seq<char>) -> Option<u64> {
    let d = unsigned_digits(s);
    if d.len() > 0 && all_digits(d) && digits_value(d) <= u64::MAX {
        Some(digits_value(d) as u64)
    } else {
        None
    }
}

/// Skipping `k` leading white-space characters, up to one that is not,
/// trims the start.
proof fn lemma_trim_start(s: Seq<char>, k: int)
    requires
        0 <= k <= s.len(),
        forall|j: int| 0 <= j < k ==> white_space(#[trigger] s[j]),
        k == s.len() || !white_space(s[k]),
    ensures
        trim_start(s) == s.subrange(k, s.len() as int),
    decreases k,
{
    if k > 0 {
        let t = s.drop_first();
        assert forall|j: int| 0 <= j < k - 1 implies white_space(#[trigger] t[j]) by {
            assert(t[j] == s[j + 1]);
        }
        if k < s.len() {
            assert(t[k - 1] == s[k]);
        }
        lemma_trim_start(t, k - 1);
        assert(t.subrange(k - 1, t.len() as int) =~= s.subrange(k, s.len() as int));
    } else {
        assert(s.subrange(0, s.len() as int) =~= s);
    }
}

/// Dropping the white space after index `m`, when the character before it
/// is not white space, trims the end.
proof fn lemma_trim_end(s: Seq<char>, m: int)
    requires
        0 <= m <= s.len(),
        forall|j: int| m <= j < s.len() ==> white_space(#[trigger] s[j]),
        m == 0 || !white_space(s[m - 1]),
    ensures
        trim_end(s) == s.subrange(0, m),
    decreases s.len() - m,
{
    if m < s.len() {
        let t = s.drop_last();
        assert forall|j: int| m <= j < t.len() implies white_space(#[trigger] t[j]) by {
            assert(t[j] == s[j]);
        }
        if m > 0 {
            assert(t[m - 1] == s[m - 1]);
        }
        assert(white_space(s.last()));
        lemma_trim_end(t, m);
        assert(t.subrange(0, m) =~= s.subrange(0, m));
    } else {
        assert(s.subrange(0, m) =~= s);
    }
}

/// `c` is Unicode White_Space.
fn is_white_space(c: char) -> (r: bool)
    ensures
        r == white_space(c),
{
    let u = c as u32;
    (9 <= u && u <= 13) || u == 32 || u == 0x85 || u == 0xa0 || u == 0x1680 || (0x2000 <= u && u
        <= 0x200a) || u == 0x2028 || u == 0x2029 || u == 0x202f || u == 0x205f || u == 0x3000
}

/// The delta-seconds form of a Retry-After value: the value, without white
/// space at either end, read as an unsigned 64-bit decimal; `None` when it
/// is not one (an HTTP-date, for instance).
pub fn retry_after_seconds(value: &str) -> (r: Option<u64>)
    ensures
        r == parse_u64(trimmed(value@)),
{
    let cs = chars_of(value);
    let ghost s = value@;
    let mut start: usize = 0;
    while start < cs.len() && is_white_space(cs[start])
        invariant
            cs@ == s,
            start <= cs.len(),
            forall|j: int| 0 <= j < start ==> white_space(#[trigger] s[j]),
        decreases cs.len() - start,
    {
        start = start + 1;
    }
    proof {
        lemma_trim_start(s, start as int);
    }
    let ghost rest = s.subrange(start as int, s.len() as int);
    let mut end: usize = cs.len();
    while end > start && is_white_space(cs[end - 1])
        invariant
            cs@ == s,
            rest == s.subrange(start as int, s.len() as int),
            start <= end <= cs.len(),
            forall|j: int| end <= j < cs.len() ==> white_space(#[trigger] s[j]),
        decreases end,
    {
        end = end - 1;
    }
    proof {
        assert forall|j: int| end - start <= j < rest.len() implies white_space(#[trigger] rest[j]) by {
            assert(rest[j] == s[j + start]);
        }
        if end > start {
            assert(rest[end - start - 1] == s[end - 1]);
        }
        lemma_trim_end(rest, end - start);
        assert(rest.subrange(0, end - start) =~= s.subrange(start as int, end as int));
    }
    let ghost t = s.subrange(start as int, end as int);
    assert(trimmed(s) == t);
    let mut i: usize = start;
    if i < end && cs[i] == '+' {
        i = i + 1;
    }
    let ghost d = s.subrange(i as int, end as int);
    assert(d == unsigned_digits(t));
    if i == end {
        assert(d.len() == 0);
        assert(parse_u64(t) is None);
        return None;
    }
    let first = i;
    let mut v: u64 = 0;
    let mut overflow = false;
    while i < end
        invariant
            cs@ == s,
            s == value@,
            t == trimmed(s),
            d == unsigned_digits(t),
            start <= first <= i <= end <= cs.len(),
            d == s.subrange(first as int, end as int),
            forall|j: int| 0 <= j < i - first ==> is_digit(#[trigger] d[j]),
            !overflow ==> v == digits_value(d.subrange(0, i - first)),
            overflow ==> digits_value(d.subrange(0, i - first)) > u64::MAX,
        decreases end - i,
    {
        let c = cs[i];
        if !('0' <= c && c <= '9') {
            assert(!is_digit(d[i - first]));
            assert(!all_digits(d));
            return None;
        }
        let digit = (c as u32 - 48) as u64;
        let ghost before = d.subrange(0, i - first);
        let ghost after = d.subrange(0, i + 1 - first);
        assert(after.drop_last() =~= before);
        assert(after.last() == c);
        assert(digits_value(after) == digits_value(before) * 10 + digit);
        if !overflow {
            match v.checked_mul(10) {
                Some(t10) => match t10.checked_add(digit) {
                    Some(next) => {
                        v = next;
                    },
                    None => {
                        overflow = true;
                    },
                },
                None => {
                    overflow = true;
                },
            }
        }
        i = i + 1;
    }
    assert(d.subrange(0, d.len() as int) =~= d);
    if overflow {
        None
    } else {
        Some(v)
    }
}

} // verus!
