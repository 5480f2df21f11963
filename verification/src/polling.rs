//! Waiting for an operation of two phases: poll, and poll again after a
//! pause, until the operation is complete or the time is up.

use crate::common::AeronCError;
use vstd::prelude::*;

verus! {

/// The status code of a wait that ran out of time.
pub const TIMED_OUT: i32 = -234324;

/// What to do after a poll.
#[derive(Debug, Clone, Copy, PartialEq, Eq, Structural)]
pub enum PollStep {
    /// The operation is complete.
    Ready,
    /// Pause for the interval, then poll again.
    Retry,
    /// Give up: the next poll would come after the deadline.
    TimedOut,
}

/// What to do after a poll that came back `ready`, `elapsed` after the wait
/// began: a complete operation ends the wait; else the wait goes on as long
/// as the pause before the next poll ends by the deadline. Without a pause
/// there is no second poll.
pub open spec fn spec_after_poll(ready: bool, elapsed: int, timeout: int, interval: int) -> PollStep {
    if ready {
        PollStep::Ready
    } else if interval <= 0 || elapsed + interval > timeout {
        PollStep::TimedOut
    } else {
        PollStep::Retry
    }
}

/// How a wait ends for an operation that is complete from the poll number
/// `ready_at + 1` on, when only the pauses take time: after `polls` polls
/// that found nothing, the next poll comes at `polls * interval`.
pub open spec fn wait_outcome(ready_at: int, timeout: int, interval: int, polls: int) -> PollStep
    decreases ready_at - polls,
{
    let step = spec_after_poll(polls >= ready_at, polls * interval, timeout, interval);
    if step == PollStep::Retry && polls < ready_at {
        wait_outcome(ready_at, timeout, interval, polls + 1)
    } else {
        step
    }
}

/// An operation that is not ready for the first `n` polls and ready on the
/// next is waited for with success where the timeout is greater than `n`
/// pauses, and with the timeout error where it is smaller.
pub proof fn lemma_wait_converges(n: int, timeout: int, interval: int)
    requires
        0 <= n,
        0 <= timeout,
        0 < interval,
    ensures
        timeout > n * interval ==> wait_outcome(n, timeout, interval, 0) == PollStep::Ready,
        timeout < n * interval ==> wait_outcome(n, timeout, interval, 0) == PollStep::TimedOut,
{
    lemma_wait_from(n, timeout, interval, 0);
    if n == 0 {
        assert(n * interval == 0) by (nonlinear_arith)
            requires
                n == 0,
        ;
    }
}

proof fn lemma_wait_from(n: int, timeout: int, interval: int, polls: int)
    requires
        0 <= polls <= n,
        0 < interval,
    ensures
        timeout > n * interval ==> wait_outcome(n, timeout, interval, polls) == PollStep::Ready,
        timeout < n * interval && polls < n ==> wait_outcome(n, timeout, interval, polls)
            == PollStep::TimedOut,
    decreases n - polls,
{
    if polls < n {
        assert((polls + 1) * interval == polls * interval + interval) by (nonlinear_arith);
        assert(polls * interval + interval <= n * interval) by (nonlinear_arith)
            requires
                polls + 1 <= n,
                0 < interval,
        ;
        lemma_wait_from(n, timeout, interval, polls + 1);
    }
}

/// What to do after a poll, with the times in milliseconds.
pub fn after_poll(ready: bool, elapsed_ms: u64, timeout_ms: u64, interval_ms: u64) -> (step:
    PollStep)
    ensures
        step == spec_after_poll(ready, elapsed_ms as int, timeout_ms as int, interval_ms as int),
{
    if ready {
        PollStep::Ready
    } else if interval_ms == 0 || elapsed_ms > timeout_ms || interval_ms > timeout_ms - elapsed_ms {
        PollStep::TimedOut
    } else {
        PollStep::Retry
    }
}

/// How a wait ends over a given run of poll answers, from the poll number
/// `polls + 1` on, when each pause takes the interval: with the first answer
/// that holds a value, or with the timeout error at the first empty answer
/// after which the next poll would come too late. `None` where the run ends
/// before the wait does.
pub open spec fn run_outcome<T>(
    answers: Seq<Option<T>>,
    timeout: int,
    interval: int,
    polls: int,
) -> Option<Result<T, AeronCError>>
    decreases answers.len() - polls,
{
    if polls < 0 || polls >= answers.len() {
        None
    } else {
        match answers[polls] {
            Some(value) => Some(Ok(value)),
            None => if spec_after_poll(false, polls * interval, timeout, interval)
                == PollStep::Retry {
                run_outcome(answers, timeout, interval, polls + 1)
            } else {
                Some(Err(AeronCError { code: TIMED_OUT }))
            },
        }
    }
}

/// Empty answers after which the wait goes on do not decide how it ends.
pub proof fn lemma_run_goes_on<T>(
    answers: Seq<Option<T>>,
    timeout: int,
    interval: int,
    from: int,
    to: int,
)
    requires
        0 <= from <= to <= answers.len(),
        forall|i: int|
            from <= i < to ==> (#[trigger] answers[i]) is None && spec_after_poll(
                false,
                i * interval,
                timeout,
                interval,
            ) == PollStep::Retry,
    ensures
        run_outcome(answers, timeout, interval, from) == run_outcome(
            answers,
            timeout,
            interval,
            to,
        ),
    decreases to - from,
{
    if from < to {
        assert(answers[from] is None);
        lemma_run_goes_on(answers, timeout, interval, from + 1, to);
    }
}

/// Over a run that is empty for the first `n` polls and holds `value` at
/// the next, the wait ends as the model says: with `value` where the model
/// is ready, and with the timeout error where it is timed out.
pub proof fn lemma_run_is_wait<T>(
    answers: Seq<Option<T>>,
    value: T,
    n: int,
    timeout: int,
    interval: int,
    polls: int,
)
    requires
        0 <= polls <= n < answers.len(),
        forall|i: int| 0 <= i < n ==> (#[trigger] answers[i]) is None,
        answers[n] == Some(value),
    ensures
        run_outcome(answers, timeout, interval, polls) == (if wait_outcome(
            n,
            timeout,
            interval,
            polls,
        ) == PollStep::Ready {
            Some(Ok::<T, AeronCError>(value))
        } else {
            Some(Err::<T, AeronCError>(AeronCError { code: TIMED_OUT }))
        }),
        wait_outcome(n, timeout, interval, polls) != PollStep::Retry,
    decreases n - polls,
{
    if polls < n {
        assert(answers[polls] is None);
        lemma_run_is_wait(answers, value, n, timeout, interval, polls + 1);
    }
}

/// How a wait ends over the run of poll answers `answers`: the decision
/// after each answer is that of `after_poll`, and each pause takes the
/// interval. `None` where the run ends before the wait does.
pub fn wait_over<T>(answers: Vec<Option<T>>, timeout_ms: u64, interval_ms: u64) -> (r: Option<
    Result<T, AeronCError>,
>)
    ensures
        r == run_outcome(answers@, timeout_ms as int, interval_ms as int, 0),
{
    let ghost all = answers@;
    let mut rest = answers;
    let mut elapsed_ms: u64 = 0;
    let mut polls: usize = 0;
    while polls < rest.len()
        invariant
            all == answers@,
            polls <= rest.len(),
            rest@.len() == all.len(),
            forall|i: int| polls <= i < all.len() ==> #[trigger] rest@[i] == all[i],
            elapsed_ms <= timeout_ms,
            elapsed_ms == polls * interval_ms,
            run_outcome(all, timeout_ms as int, interval_ms as int, 0) == run_outcome(
                all,
                timeout_ms as int,
                interval_ms as int,
                polls as int,
            ),
        decreases rest.len() - polls,
    {
        if rest[polls].is_some() {
            assert(all[polls as int] is Some);
            let found = rest.swap_remove(polls);
            match found {
                Some(value) => {
                    return Some(Ok(value));
                },
                None => {
                    return None;
                },
            }
        }
        assert(all[polls as int] is None);
        match after_poll(false, elapsed_ms, timeout_ms, interval_ms) {
            PollStep::Retry => {
                proof {
                    assert((polls + 1) * interval_ms == polls * interval_ms + interval_ms)
                        by (nonlinear_arith);
                }
                elapsed_ms = elapsed_ms + interval_ms;
                polls += 1;
            },
            _ => {
                return Some(Err(AeronCError::from_code(TIMED_OUT)));
            },
        }
    }
    None
}

/// Polls until the operation is complete or the time is up, pausing between
/// two polls. The time is counted in pauses: `sleep` is called with the
/// interval, and each call counts for that much.
///
/// What comes back is how the wait ends over the answers that `poll` gave,
/// one after the other.
pub fn poll_blocking<T, P: Fn() -> Option<T>, S: Fn(u64) -> ()>(
    poll: P,
    sleep: S,
    timeout_ms: u64,
    interval_ms: u64,
) -> (r: Result<T, AeronCError>)
    requires
        call_requires(poll, ()),
        forall|ms: u64| call_requires(sleep, (ms,)),
    ensures
        match r {
            Ok(value) => call_ensures(poll, (), Some(value)),
            Err(e) => e.code == TIMED_OUT && call_ensures(poll, (), None::<T>),
        },
        exists|answers: Seq<Option<T>>|
            {
                &&& forall|i: int|
                    0 <= i < answers.len() ==> call_ensures(poll, (), #[trigger] answers[i])
                &&& run_outcome(answers, timeout_ms as int, interval_ms as int, 0) == Some(r)
            },
{
    let mut elapsed_ms: u64 = 0;
    let ghost mut answers: Seq<Option<T>> = Seq::empty();
    loop
        invariant
            call_requires(poll, ()),
            forall|ms: u64| call_requires(sleep, (ms,)),
            elapsed_ms <= timeout_ms,
            elapsed_ms == answers.len() * interval_ms,
            forall|i: int| 0 <= i < answers.len() ==> call_ensures(poll, (), #[trigger] answers[i]),
            forall|i: int|
                0 <= i < answers.len() ==> (#[trigger] answers[i]) is None && spec_after_poll(
                    false,
                    i * interval_ms,
                    timeout_ms as int,
                    interval_ms as int,
                ) == PollStep::Retry,
        decreases timeout_ms - elapsed_ms,
    {
        let polled = poll();
        let ghost before = answers;
        proof {
            answers = before.push(polled);
            assert forall|i: int| 0 <= i < before.len() implies (#[trigger] answers[i]) is None
                && spec_after_poll(false, i * interval_ms, timeout_ms as int, interval_ms as int)
                == PollStep::Retry by {
                assert(answers[i] == before[i]);
            }
            lemma_run_goes_on(
                answers,
                timeout_ms as int,
                interval_ms as int,
                0,
                before.len() as int,
            );
        }
        match polled {
            Some(value) => {
                assert(answers[before.len() as int] == Some(value));
                return Ok(value);
            },
            None => {},
        }
        match after_poll(false, elapsed_ms, timeout_ms, interval_ms) {
            PollStep::Retry => {
                sleep(interval_ms);
                proof {
                    assert((before.len() + 1) * interval_ms == before.len() * interval_ms
                        + interval_ms) by (nonlinear_arith);
                }
                elapsed_ms = elapsed_ms + interval_ms;
            },
            _ => {
                assert(answers[before.len() as int] is None);
                return Err(AeronCError::from_code(TIMED_OUT));
            },
        }
    }
}

} // verus!
