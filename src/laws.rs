use vstd::prelude::*;

use crate::poll::{present, PollResult};
use crate::policy::{charged, spend, Abort, Budget, Counted, Forward, Present};
use crate::wrapped::{Computation, Interceptor, WrappedFuture};

verus! {

/// `n` poll cycles of `T` one after the other: `states[i]` is the computation
/// before cycle `i`, `cxs[i]` the context it was given and as the cycle left it,
/// and `outs[i]` what the cycle reported.
pub open spec fn is_run<T: Computation<C>, C>(
    states: Seq<T>,
    cxs: Seq<(C, C)>,
    outs: Seq<PollResult<T::Output>>,
) -> bool {
    &&& states.len() == outs.len() + 1
    &&& cxs.len() == outs.len()
    &&& forall|i: int|
        0 <= i < outs.len() ==> #[trigger] T::polled(
            states[i],
            cxs[i].0,
            states[i + 1],
            cxs[i].1,
            outs[i],
        )
}

/// The inner computations of a sequence of wrappers.
pub open spec fn inners<Fut, F, O>(ws: Seq<WrappedFuture<Fut, F, O>>) -> Seq<Fut> {
    ws.map_values(|w: WrappedFuture<Fut, F, O>| w.inner())
}

/// Wrapping with [`Forward`] changes nothing: cycles of the wrapper form a run
/// exactly when the same cycles of the inner computation, polled directly with
/// the same contexts, form a run with the same outcomes. Each cycle of the
/// wrapper is one cycle of the inner computation.
pub proof fn forward_is_identity<Fut: Computation<C>, C>(
    ws: Seq<WrappedFuture<Fut, Forward, Fut::Output>>,
    cxs: Seq<(C, C)>,
    outs: Seq<PollResult<Fut::Output>>,
)
    ensures
        is_run(ws, cxs, outs) <==> is_run(inners(ws), cxs, outs),
{
    let ins = inners(ws);
    assert(ins.len() == ws.len());
    if is_run(ws, cxs, outs) {
        assert forall|i: int| 0 <= i < outs.len() implies #[trigger] Fut::polled(
            ins[i],
            cxs[i].0,
            ins[i + 1],
            cxs[i].1,
            outs[i],
        ) by {
            assert(WrappedFuture::<Fut, Forward, Fut::Output>::polled(
                ws[i],
                cxs[i].0,
                ws[i + 1],
                cxs[i].1,
                outs[i],
            ));
        }
    }
    if is_run(ins, cxs, outs) {
        assert forall|i: int| 0 <= i < outs.len() implies #[trigger] WrappedFuture::<
            Fut,
            Forward,
            Fut::Output,
        >::polled(ws[i], cxs[i].0, ws[i + 1], cxs[i].1, outs[i]) by {
            assert(Fut::polled(ins[i], cxs[i].0, ins[i + 1], cxs[i].1, outs[i]));
        }
    }
}

/// Each cycle of `T` has one possible result: from the same computation and
/// context, every cycle leads to the same computation and context and reports
/// the same outcome.
pub open spec fn deterministic<T: Computation<C>, C>() -> bool {
    forall|s: T, cx: C, p1: T, c1: C, r1: PollResult<T::Output>, p2: T, c2: C, r2: PollResult<
        T::Output,
    >|
        #![trigger T::polled(s, cx, p1, c1, r1), T::polled(s, cx, p2, c2, r2)]
        T::polled(s, cx, p1, c1, r1) && T::polled(s, cx, p2, c2, r2) ==> p1 == p2 && c1 == c2
            && r1 == r2
}

/// Two runs of a deterministic computation from the same start, given the same
/// contexts, agree up to cycle `k`: same states, same outcomes.
proof fn runs_agree_up_to<T: Computation<C>, C>(
    a: Seq<T>,
    cxa: Seq<(C, C)>,
    outa: Seq<PollResult<T::Output>>,
    b: Seq<T>,
    cxb: Seq<(C, C)>,
    outb: Seq<PollResult<T::Output>>,
    k: int,
)
    requires
        deterministic::<T, C>(),
        is_run(a, cxa, outa),
        is_run(b, cxb, outb),
        outa.len() == outb.len(),
        a[0] == b[0],
        forall|i: int| 0 <= i < outa.len() ==> #[trigger] cxa[i].0 == cxb[i].0,
        0 <= k <= outa.len(),
    ensures
        a[k] == b[k],
        forall|i: int| 0 <= i < k ==> outa[i] == outb[i],
    decreases k,
{
    if k > 0 {
        runs_agree_up_to(a, cxa, outa, b, cxb, outb, k - 1);
        let i = k - 1;
        assert(cxa[i].0 == cxb[i].0);
        assert(T::polled(a[i], cxa[i].0, a[i + 1], cxa[i].1, outa[i]));
        assert(T::polled(b[i], cxb[i].0, b[i + 1], cxb[i].1, outb[i]));
    }
}

/// For a deterministic inner computation, wrapping it with [`Forward`] and
/// polling an identical copy directly, with the same contexts, give the same
/// outcomes cycle by cycle, and the wrapper's inner computation goes through the
/// same states as the copy.
pub proof fn forward_matches_direct_copy<Fut: Computation<C>, C>(
    ws: Seq<WrappedFuture<Fut, Forward, Fut::Output>>,
    cxs: Seq<(C, C)>,
    outs: Seq<PollResult<Fut::Output>>,
    cs: Seq<Fut>,
    cxs_direct: Seq<(C, C)>,
    outs_direct: Seq<PollResult<Fut::Output>>,
)
    requires
        deterministic::<Fut, C>(),
        is_run(ws, cxs, outs),
        is_run(cs, cxs_direct, outs_direct),
        outs.len() == outs_direct.len(),
        ws[0].inner() == cs[0],
        forall|i: int| 0 <= i < outs.len() ==> #[trigger] cxs[i].0 == cxs_direct[i].0,
    ensures
        outs == outs_direct,
        inners(ws) == cs,
{
    forward_is_identity(ws, cxs, outs);
    let ins = inners(ws);
    assert(ins[0] == ws[0].inner());
    assert forall|k: int| 0 <= k < ins.len() implies ins[k] == cs[k] by {
        runs_agree_up_to(ins, cxs, outs, cs, cxs_direct, outs_direct, k);
    }
    runs_agree_up_to(ins, cxs, outs, cs, cxs_direct, outs_direct, outs.len() as int);
    assert(outs =~= outs_direct);
    assert(ins =~= cs);
}

/// With [`Counted`], after a run of `n` cycles the count has grown by `n`
/// (stopping at `u64::MAX`), and each cycle polled the inner computation once:
/// started from zero, the count is the number of cycles the executor ran.
pub proof fn counted_counts_cycles<Fut: Computation<C>, C>(
    ws: Seq<WrappedFuture<Fut, Counted, Fut::Output>>,
    cxs: Seq<(C, C)>,
    outs: Seq<PollResult<Fut::Output>>,
)
    requires
        is_run(ws, cxs, outs),
    ensures
        ws.last().interceptor().count == (if ws[0].interceptor().count + outs.len() >= u64::MAX {
            u64::MAX as int
        } else {
            ws[0].interceptor().count + outs.len()
        }),
        is_run(inners(ws), cxs, outs),
    decreases outs.len(),
{
    let n = outs.len() as int;
    let ins = inners(ws);
    assert forall|i: int| 0 <= i < n implies #[trigger] Fut::polled(ins[i], cxs[i].0, ins[i + 1], cxs[i].1,
        outs[i],
    ) by {
        assert(WrappedFuture::<Fut, Counted, Fut::Output>::polled(ws[i], cxs[i].0, ws[i + 1], cxs[i].1,
            outs[i],
        ));
    }
    if n > 0 {
        let ws0 = ws.drop_last();
        let cxs0 = cxs.drop_last();
        let outs0 = outs.drop_last();
        assert forall|i: int| 0 <= i < outs0.len() implies #[trigger] WrappedFuture::<
            Fut,
            Counted,
            Fut::Output,
        >::polled(ws0[i], cxs0[i].0, ws0[i + 1], cxs0[i].1, outs0[i]) by {
            assert(WrappedFuture::<Fut, Counted, Fut::Output>::polled(ws[i], cxs[i].0, ws[i + 1], cxs[i].1,
                outs[i],
            ));
        }
        counted_counts_cycles(ws0, cxs0, outs0);
        assert(WrappedFuture::<Fut, Counted, Fut::Output>::polled(ws[n - 1], cxs[n - 1].0, ws[n], cxs[n - 1].1,
            outs[n - 1],
        ));
        assert(ws0.last() == ws[n - 1]);
    }
}

/// With [`Abort`], the first cycle already ends the wrapper with `None`, and the
/// inner computation is left as it was: it is never polled.
pub proof fn abort_ends_at_once<Fut, C, T>(
    pre: WrappedFuture<Fut, Abort, Option<T>>,
    cx: C,
    post: WrappedFuture<Fut, Abort, Option<T>>,
    cx_post: C,
    r: PollResult<Option<T>>,
)
    requires
        WrappedFuture::<Fut, Abort, Option<T>>::polled(pre, cx, post, cx_post, r),
    ensures
        r == PollResult::<Option<T>>::Ready(None),
        post.inner() == pre.inner(),
        cx_post == cx,
{
}

/// With [`Present`], a cycle of the wrapper reports `Ready(Some(v))` exactly when
/// the same cycle of the inner computation reports `Ready(v)`, and `Pending`
/// exactly when it does; it never reports `Ready(None)`.
pub proof fn present_marks_value<Fut: Computation<C>, C>(
    pre: WrappedFuture<Fut, Present, Option<Fut::Output>>,
    cx: C,
    post: WrappedFuture<Fut, Present, Option<Fut::Output>>,
    cx_post: C,
    v: Fut::Output,
)
    ensures
        WrappedFuture::<Fut, Present, Option<Fut::Output>>::polled(
            pre,
            cx,
            post,
            cx_post,
            PollResult::Ready(Some(v)),
        ) <==> Fut::polled(pre.inner(), cx, post.inner(), cx_post, PollResult::Ready(v)),
        WrappedFuture::<Fut, Present, Option<Fut::Output>>::polled(
            pre,
            cx,
            post,
            cx_post,
            PollResult::Pending,
        ) <==> Fut::polled(pre.inner(), cx, post.inner(), cx_post, PollResult::Pending),
        !WrappedFuture::<Fut, Present, Option<Fut::Output>>::polled(
            pre,
            cx,
            post,
            cx_post,
            PollResult::Ready(None),
        ),
{
    assert(present(PollResult::<Fut::Output>::Ready(v)) == PollResult::Ready(Some(v)));
    assert(present(PollResult::<Fut::Output>::Pending) == PollResult::<
        Option<Fut::Output>,
    >::Pending);
}

/// A failure that the interceptor reports comes out of the wrapper as it is:
/// where every outcome the interceptor may report for a cycle is
/// `Ready(Err(e))`, the wrapper's cycle reports `Ready(Err(e))`.
pub proof fn failure_passes_through<Fut, F: Interceptor<Fut, C, Result<T, E>>, C, T, E>(
    pre: WrappedFuture<Fut, F, Result<T, E>>,
    cx: C,
    post: WrappedFuture<Fut, F, Result<T, E>>,
    cx_post: C,
    r: PollResult<Result<T, E>>,
    e: E,
)
    requires
        forall|r2: PollResult<Result<T, E>>|
            #[trigger] F::intercepted(
                pre.interceptor(),
                pre.inner(),
                cx,
                post.interceptor(),
                post.inner(),
                cx_post,
                r2,
            ) ==> r2 == PollResult::<Result<T, E>>::Ready(Err(e)),
        WrappedFuture::<Fut, F, Result<T, E>>::polled(pre, cx, post, cx_post, r),
    ensures
        r == PollResult::<Result<T, E>>::Ready(Err(e)),
{
}

/// With [`Budget`], a cycle of the wrapper reports `Ready(None)` exactly when the
/// time measured in it exceeds what remained of the budget; the budget left
/// after it is what remained less that time, never below zero.
pub proof fn budget_ends_when_overdrawn<Fut: Computation<C>, C>(
    pre: WrappedFuture<Fut, Budget, Option<Fut::Output>>,
    cx: C,
    post: WrappedFuture<Fut, Budget, Option<Fut::Output>>,
    cx_post: C,
    r: PollResult<Option<Fut::Output>>,
)
    requires
        WrappedFuture::<Fut, Budget, Option<Fut::Output>>::polled(pre, cx, post, cx_post, r),
    ensures
        exists|spent: u64|
            #![trigger spend(pre.interceptor().remaining, spent)]
            {
                &&& post.interceptor().remaining == spend(pre.interceptor().remaining, spent)
                &&& (r == PollResult::<Option<Fut::Output>>::Ready(None)) <==> spent
                    > pre.interceptor().remaining
            },
        r == PollResult::<Option<Fut::Output>>::Ready(None) ==> post.interceptor().remaining == 0,
        post.interceptor().remaining <= pre.interceptor().remaining,
{
}

/// The sum of the times in `d`.
pub open spec fn total(d: Seq<u64>) -> int
    decreases d.len(),
{
    if d.len() == 0 {
        0
    } else {
        total(d.drop_last()) + d.last()
    }
}

/// What remains of a budget `b` after the times in `d` were charged one by one.
pub open spec fn left_after(b: u64, d: Seq<u64>) -> u64
    decreases d.len(),
{
    if d.len() == 0 {
        b
    } else {
        spend(left_after(b, d.drop_last()), d.last())
    }
}

/// While the times charged so far do not exceed the budget, what remains is the
/// budget less their sum.
pub proof fn left_after_is_difference(b: u64, d: Seq<u64>)
    requires
        total(d) <= b,
    ensures
        left_after(b, d) == b - total(d),
    decreases d.len(),
{
    if d.len() > 0 {
        assert(total(d.drop_last()) <= total(d));
        left_after_is_difference(b, d.drop_last());
    }
}

/// Charging a budget `b` with the times `d[0]`, `d[1]`, ... cycle by cycle: the
/// cycle `j` (with no earlier cycle having ended the run) reports `Ready(None)`
/// exactly when the total time of cycles `0..=j` first exceeds `b`, and
/// otherwise reports the inner outcome with its value marked present.
pub proof fn budget_stops_when_total_exceeds<T>(b: u64, d: Seq<u64>, j: int, res: PollResult<T>)
    requires
        0 <= j < d.len(),
        total(d.take(j)) <= b,
    ensures
        (charged(left_after(b, d.take(j)), d[j], res) == PollResult::<Option<T>>::Ready(None))
            <==> total(d.take(j + 1)) > b,
        total(d.take(j + 1)) <= b ==> charged(left_after(b, d.take(j)), d[j], res) == present(
            res,
        ),
{
    left_after_is_difference(b, d.take(j));
    assert(d.take(j + 1).drop_last() =~= d.take(j));
    assert(d.take(j + 1).last() == d[j]);
    match res {
        PollResult::Ready(v) => {
            assert(present(res) == PollResult::Ready(Some(v)));
        },
        PollResult::Pending => {},
    }
}

} // verus!
