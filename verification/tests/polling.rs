use rusteron::common::AeronCError;
use rusteron::polling::{after_poll, poll_blocking, wait_over, PollStep, TIMED_OUT};
use std::cell::Cell;

/// A poll that finds nothing for the first `n` calls and `value` from then on.
fn ready_after(n: u32, calls: &Cell<u32>) -> impl Fn() -> Option<&'static str> + '_ {
    move || {
        calls.set(calls.get() + 1);
        if calls.get() > n {
            Some("ready")
        } else {
            None
        }
    }
}

#[test]
fn a_wait_converges_within_its_timeout() {
    // not ready for 5 polls; a pause of 100 ms; more than 500 ms are enough
    let calls = Cell::new(0);
    let slept = Cell::new(0u64);
    let r = poll_blocking(ready_after(5, &calls), |ms| slept.set(slept.get() + ms), 501, 100);
    assert_eq!(r, Ok("ready"));
    assert_eq!(calls.get(), 6);
    assert_eq!(slept.get(), 500);
}

#[test]
fn a_wait_gives_up_at_its_timeout() {
    let calls = Cell::new(0);
    let slept = Cell::new(0u64);
    let r = poll_blocking(ready_after(5, &calls), |ms| slept.set(slept.get() + ms), 499, 100);
    assert_eq!(r, Err(AeronCError::from_code(TIMED_OUT)));
    assert_eq!(r.unwrap_err().code, -234324);
    assert_eq!(calls.get(), 5);
    assert_eq!(slept.get(), 400);
}

#[test]
fn a_ready_operation_needs_no_time() {
    let calls = Cell::new(0);
    assert_eq!(poll_blocking(ready_after(0, &calls), |_| (), 0, 100), Ok("ready"));
    assert_eq!(calls.get(), 1);
    let calls = Cell::new(0);
    assert_eq!(poll_blocking(ready_after(1, &calls), |_| (), 1000, 0), Err(AeronCError::from_code(TIMED_OUT)));
    assert_eq!(calls.get(), 1);
}

#[test]
fn the_decision_after_a_poll() {
    assert_eq!(after_poll(true, 900, 100, 10), PollStep::Ready);
    assert_eq!(after_poll(false, 0, 100, 100), PollStep::Retry);
    assert_eq!(after_poll(false, 1, 100, 100), PollStep::TimedOut);
    assert_eq!(after_poll(false, 0, 100, 0), PollStep::TimedOut);
    assert_eq!(after_poll(false, u64::MAX, u64::MAX, 1), PollStep::TimedOut);
    assert_eq!(after_poll(false, u64::MAX - 1, u64::MAX, 1), PollStep::Retry);
}

#[test]
fn a_wait_over_a_given_run() {
    let run = |n: usize| {
        let mut answers: Vec<Option<u8>> = vec![None; n];
        answers.push(Some(9));
        answers
    };
    // five empty polls, then a value: more than 500 ms are enough, less are not
    assert_eq!(wait_over(run(5), 501, 100), Some(Ok(9)));
    assert_eq!(wait_over(run(5), 500, 100), Some(Ok(9)));
    assert_eq!(wait_over(run(5), 499, 100), Some(Err(AeronCError::from_code(TIMED_OUT))));
    assert_eq!(wait_over(run(0), 0, 100), Some(Ok(9)));
    assert_eq!(wait_over(run(1), 1000, 0), Some(Err(AeronCError::from_code(TIMED_OUT))));
    // the run ends before the wait does
    assert_eq!(wait_over(vec![None::<u8>, None], 1000, 100), None);
    assert_eq!(wait_over(Vec::<Option<u8>>::new(), 1000, 100), None);
    assert_eq!(wait_over(vec![None, Some(1u8), Some(2)], 1000, 100), Some(Ok(1)));
}
