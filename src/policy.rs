use vstd::prelude::*;

use crate::clock::nanos_since;
use crate::poll::{present, PollResult};
use crate::wrapped::{Computation, Interceptor};

verus! {

/// Polls the inner computation once and reports its outcome unchanged.
#[derive(Clone, Copy, Debug, PartialEq, Eq, Structural)]
pub struct Forward;

impl<Fut: Computation<C>, C> Interceptor<Fut, C, Fut::Output> for Forward {
    open spec fn intercepted(
        pre: Self,
        inner: Fut,
        cx: C,
        post: Self,
        inner_post: Fut,
        cx_post: C,
        r: PollResult<Fut::Output>,
    ) -> bool {
        Fut::polled(inner, cx, inner_post, cx_post, r)
    }

    fn intercept(&mut self, inner: &mut Fut, cx: &mut C) -> (r: PollResult<Fut::Output>) {
        inner.poll(cx)
    }
}

/// `n + 1`, or `n` where that is already `u64::MAX`.
pub open spec fn count_up(n: u64) -> u64 {
    if n == u64::MAX {
        n
    } else {
        (n + 1) as u64
    }
}

/// Counts its invocations, and on each one polls the inner computation once and
/// reports its outcome unchanged. The count stops at `u64::MAX`.
#[derive(Clone, Copy, Debug, PartialEq, Eq, Structural)]
pub struct Counted {
    pub count: u64,
}

impl Counted {
    pub fn new() -> (c: Counted)
        ensures
            c.count == 0,
    {
        Counted { count: 0 }
    }
}

impl<Fut: Computation<C>, C> Interceptor<Fut, C, Fut::Output> for Counted {
    open spec fn intercepted(
        pre: Self,
        inner: Fut,
        cx: C,
        post: Self,
        inner_post: Fut,
        cx_post: C,
        r: PollResult<Fut::Output>,
    ) -> bool {
        &&& post.count == count_up(pre.count)
        &&& Fut::polled(inner, cx, inner_post, cx_post, r)
    }

    fn intercept(&mut self, inner: &mut Fut, cx: &mut C) -> (r: PollResult<Fut::Output>) {
        if self.count < u64::MAX {
            self.count = self.count + 1;
        }
        inner.poll(cx)
    }
}

/// Polls the inner computation once and reports a value `v` it produces as
/// `Some(v)`.
#[derive(Clone, Copy, Debug, PartialEq, Eq, Structural)]
pub struct Present;

impl<Fut: Computation<C>, C> Interceptor<Fut, C, Option<Fut::Output>> for Present {
    open spec fn intercepted(
        pre: Self,
        inner: Fut,
        cx: C,
        post: Self,
        inner_post: Fut,
        cx_post: C,
        r: PollResult<Option<Fut::Output>>,
    ) -> bool {
        exists|r0: PollResult<Fut::Output>|
            #[trigger] Fut::polled(inner, cx, inner_post, cx_post, r0) && r == present(r0)
    }

    fn intercept(&mut self, inner: &mut Fut, cx: &mut C) -> (r: PollResult<Option<Fut::Output>>) {
        let r0 = inner.poll(cx);
        r0.into_present()
    }
}

/// Ends the computation at once with `None`, without touching the inner
/// computation.
#[derive(Clone, Copy, Debug, PartialEq, Eq, Structural)]
pub struct Abort;

impl<Fut, C, T> Interceptor<Fut, C, Option<T>> for Abort {
    open spec fn intercepted(
        pre: Self,
        inner: Fut,
        cx: C,
        post: Self,
        inner_post: Fut,
        cx_post: C,
        r: PollResult<Option<T>>,
    ) -> bool {
        post == pre && inner_post == inner && cx_post == cx && r == PollResult::<Option<T>>::Ready(None)
    }

    fn intercept(&mut self, inner: &mut Fut, cx: &mut C) -> (r: PollResult<Option<T>>) {
        PollResult::Ready(None)
    }
}

/// `remaining - spent`, or zero where `spent` is larger.
pub open spec fn spend(remaining: u64, spent: u64) -> u64 {
    if spent >= remaining {
        0
    } else {
        (remaining - spent) as u64
    }
}

/// What a budget policy reports when a cycle spent `spent` with `remaining`
/// left before it: `Ready(None)` when the spending overdraws the budget, else the
/// inner outcome `res` with its value marked present.
pub open spec fn charged<T>(remaining: u64, spent: u64, res: PollResult<T>) -> PollResult<
    Option<T>,
> {
    if spent > remaining {
        PollResult::Ready(None)
    } else {
        present(res)
    }
}

/// One step of a work budget: takes `spent` off `remaining` and decides what the
/// cycle reports, given the inner outcome `res`. The budget is exhausted only
/// when `spent` exceeds what remained; spending exactly what remained leaves
/// zero and still reports the inner outcome.
pub fn charge<T>(remaining: u64, spent: u64, res: PollResult<T>) -> (r: (
    u64,
    PollResult<Option<T>>,
))
    ensures
        r.0 == spend(remaining, spent),
        r.1 == charged(remaining, spent, res),
{
    if spent > remaining {
        (0, PollResult::Ready(None))
    } else {
        (remaining - spent, res.into_present())
    }
}

/// A budget of work time, in nanoseconds, for the inner computation's polls.
///
/// Each invocation polls the inner computation once and measures how long that
/// took. At the cycle where the total time spent first exceeds the budget it
/// reports `Ready(None)`; until then it reports a value `v` of the inner
/// computation as `Some(v)`.
#[derive(Clone, Copy, Debug, PartialEq, Eq, Structural)]
pub struct Budget {
    pub remaining: u64,
}

impl Budget {
    pub fn new(nanos: u64) -> (b: Budget)
        ensures
            b.remaining == nanos,
    {
        Budget { remaining: nanos }
    }
}

impl<Fut: Computation<C>, C> Interceptor<Fut, C, Option<Fut::Output>> for Budget {
    /// The time measured is whatever the clock gave: any amount may be spent.
    open spec fn intercepted(
        pre: Self,
        inner: Fut,
        cx: C,
        post: Self,
        inner_post: Fut,
        cx_post: C,
        r: PollResult<Option<Fut::Output>>,
    ) -> bool {
        exists|r0: PollResult<Fut::Output>, spent: u64|
            #![trigger Fut::polled(inner, cx, inner_post, cx_post, r0), spend(pre.remaining, spent)]
            {
                &&& Fut::polled(inner, cx, inner_post, cx_post, r0)
                &&& post.remaining == spend(pre.remaining, spent)
                &&& r == charged(pre.remaining, spent, r0)
            }
    }

    fn intercept(&mut self, inner: &mut Fut, cx: &mut C) -> (r: PollResult<Option<Fut::Output>>) {
        let start = std::time::Instant::now();
        let res = inner.poll(cx);
        let spent = nanos_since(&start);
        let (left, r) = charge(self.remaining, spent, res);
        self.remaining = left;
        r
    }
}

} // verus!
