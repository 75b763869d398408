use std::time::{Duration, Instant};

use future_wrap::{
    charge, Abort, Budget, Computation, Counted, Forward, Interceptor, PollResult, Present,
    WrapFuture, WrappedFuture,
};

/// Pending for `left` cycles, then ready with `value`; counts its polls.
#[derive(Debug, Clone, PartialEq)]
struct Steps {
    left: u32,
    value: u64,
    polls: u32,
    work: Duration,
}

impl Steps {
    fn new(left: u32, value: u64) -> Steps {
        Steps { left, value, polls: 0, work: Duration::ZERO }
    }
}

impl Computation<()> for Steps {
    type Output = u64;

    fn poll(&mut self, _cx: &mut ()) -> PollResult<u64> {
        self.polls += 1;
        let start = Instant::now();
        while start.elapsed() < self.work {}
        if self.left == 0 {
            PollResult::Ready(self.value)
        } else {
            self.left -= 1;
            PollResult::Pending
        }
    }
}

fn drive<T: Computation<()>>(c: &mut T, max: usize) -> Vec<PollResult<T::Output>> {
    let mut outs = Vec::new();
    let mut cx = ();
    for _ in 0..max {
        let r = c.poll(&mut cx);
        let done = r.is_ready();
        outs.push(r);
        if done {
            break;
        }
    }
    outs
}

/// Reports a failure on its first invocation.
struct Failing;

impl Interceptor<Steps, (), Result<u64, String>> for Failing {
    fn intercept(&mut self, _inner: &mut Steps, _cx: &mut ()) -> PollResult<Result<u64, String>> {
        PollResult::Ready(Err(String::from("disk on fire")))
    }
}

#[test]
fn forward_gives_same_outcomes_as_direct_polling() {
    let mut direct = Steps::new(3, 42);
    let expected = drive(&mut direct, 10);
    let mut wrapped = Steps::new(3, 42).wrap(Forward);
    let got = drive(&mut wrapped, 10);
    assert_eq!(got, expected);
    assert_eq!(
        got,
        vec![PollResult::Pending, PollResult::Pending, PollResult::Pending, PollResult::Ready(42)]
    );
    assert_eq!(wrapped.get_ref().polls, 4);
    assert_eq!(direct.polls, 4);
}

#[test]
fn counter_equals_poll_cycles() {
    let mut wrapped = Steps::new(5, 1).wrap(Counted::new());
    let outs = drive(&mut wrapped, 100);
    assert_eq!(outs.len(), 6);
    assert_eq!(outs.last(), Some(&PollResult::Ready(1)));
    assert_eq!(wrapped.interceptor_ref().count, 6);
    assert_eq!(wrapped.get_ref().polls, 6);
}

#[test]
fn counter_stops_at_max() {
    let mut wrapped = Steps::new(2, 1).wrap(Counted { count: u64::MAX - 1 });
    let outs = drive(&mut wrapped, 100);
    assert_eq!(outs.len(), 3);
    assert_eq!(wrapped.interceptor_ref().count, u64::MAX);
}

#[test]
fn budget_runs_out_before_completion() {
    let mut inner = Steps::new(4, 9);
    inner.work = Duration::from_millis(3);
    let mut wrapped = inner.wrap(Budget::new(10_000_000));
    let outs = drive(&mut wrapped, 10);
    let cycles = outs.len();
    assert_eq!(outs.last(), Some(&PollResult::Ready(None)));
    assert!(cycles >= 3 && cycles <= 4, "ended after {} cycles", cycles);
    assert!(cycles < 5);
    assert_eq!(wrapped.interceptor_ref().remaining, 0);
    assert_eq!(wrapped.get_ref().polls as usize, cycles);
}

#[test]
fn budget_large_enough_lets_value_through() {
    let mut wrapped = Steps::new(2, 5).wrap(Budget::new(u64::MAX));
    let outs = drive(&mut wrapped, 10);
    assert_eq!(
        outs,
        vec![PollResult::Pending, PollResult::Pending, PollResult::Ready(Some(5))]
    );
    assert!(wrapped.interceptor_ref().remaining < u64::MAX);
}

#[test]
fn early_abort_never_polls_inner() {
    let mut wrapped: WrappedFuture<Steps, Abort, Option<u64>> = Steps::new(3, 7).wrap(Abort);
    let outs = drive(&mut wrapped, 10);
    assert_eq!(outs, vec![PollResult::Ready(None)]);
    let (inner, _f) = wrapped.into_parts();
    assert_eq!(inner, Steps::new(3, 7));
    assert_eq!(inner.polls, 0);
}

#[test]
fn present_wraps_final_value() {
    let mut wrapped = Steps::new(1, 77).wrap(Present);
    let outs = drive(&mut wrapped, 10);
    assert_eq!(outs, vec![PollResult::Pending, PollResult::Ready(Some(77))]);
}

#[test]
fn failure_surfaces_unchanged() {
    let mut wrapped = Steps::new(1, 3).wrap(Failing);
    let mut cx = ();
    let r = wrapped.poll(&mut cx);
    assert_eq!(r, PollResult::Ready(Err(String::from("disk on fire"))));
    assert_eq!(wrapped.get_ref().polls, 0);
}

#[test]
fn wrap_polls_nothing() {
    let wrapped: WrappedFuture<Steps, Counted, u64> = Steps::new(2, 3).wrap(Counted::new());
    assert_eq!(wrapped.get_ref(), &Steps::new(2, 3));
    assert_eq!(wrapped.interceptor_ref(), &Counted { count: 0 });
    let direct: WrappedFuture<Steps, Forward, u64> = WrappedFuture::new(Steps::new(2, 3), Forward);
    assert_eq!(direct.get_ref().polls, 0);
}

#[test]
fn wrappers_nest() {
    let mut outer = Steps::new(2, 8).wrap(Counted::new()).wrap(Present);
    let outs = drive(&mut outer, 10);
    assert_eq!(
        outs,
        vec![PollResult::Pending, PollResult::Pending, PollResult::Ready(Some(8))]
    );
    assert_eq!(outer.get_ref().interceptor_ref().count, 3);
}

#[test]
fn charge_takes_time_off_budget() {
    assert_eq!(charge(10, 4, PollResult::Ready(3u8)), (6, PollResult::Ready(Some(3u8))));
    assert_eq!(charge(10, 3, PollResult::<u8>::Pending), (7, PollResult::Pending));
}

#[test]
fn charge_ends_when_budget_overdrawn() {
    assert_eq!(charge(10, 12, PollResult::Ready(3u8)), (0, PollResult::Ready(None)));
    assert_eq!(charge(10, 11, PollResult::<u8>::Pending), (0, PollResult::Ready(None)));
    assert_eq!(charge(0, 1, PollResult::<u8>::Pending), (0, PollResult::Ready(None)));
}

#[test]
fn charge_spending_exactly_the_budget_goes_on() {
    assert_eq!(charge(10, 10, PollResult::<u8>::Pending), (0, PollResult::Pending));
    assert_eq!(charge(10, 10, PollResult::Ready(4u8)), (0, PollResult::Ready(Some(4u8))));
    assert_eq!(charge(0, 0, PollResult::<u8>::Pending), (0, PollResult::Pending));
}

#[test]
fn charge_three_millis_per_cycle_ends_at_fourth() {
    let mut remaining: u64 = 10_000_000;
    let mut outs = Vec::new();
    for _ in 0..5 {
        let (left, r) = charge(remaining, 3_000_000, PollResult::<u8>::Pending);
        remaining = left;
        let done = r.is_ready();
        outs.push(r);
        if done {
            break;
        }
    }
    assert_eq!(
        outs,
        vec![
            PollResult::Pending,
            PollResult::Pending,
            PollResult::Pending,
            PollResult::Ready(None)
        ]
    );
}

#[test]
fn poll_result_queries() {
    let r: PollResult<u8> = PollResult::Ready(1);
    let p: PollResult<u8> = PollResult::Pending;
    assert!(r.is_ready() && !r.is_pending());
    assert!(p.is_pending() && !p.is_ready());
    assert_eq!(r.into_present(), PollResult::Ready(Some(1)));
    assert_eq!(p.into_present(), PollResult::Pending);
}
