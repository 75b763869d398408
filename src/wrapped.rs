use vstd::prelude::*;

use core::marker::PhantomData;

use crate::poll::PollResult;

verus! {

/// A computation that produces a value over one or more poll cycles.
///
/// `C` is the scheduling context that the executor hands to each cycle.
pub trait Computation<C>: Sized {
    type Output;

    /// One poll cycle may lead from the computation `pre`, given the context
    /// `cx`, to `post`, leaving the context as `cx_post` and reporting `r`.
    ///
    /// An implementation that does not state this may do anything in a cycle.
    open spec fn polled(pre: Self, cx: C, post: Self, cx_post: C, r: PollResult<Self::Output>) -> bool {
        true
    }

    /// Runs one poll cycle.
    fn poll(&mut self, cx: &mut C) -> (r: PollResult<Self::Output>)
        ensures
            Self::polled(*old(self), *old(cx), *final(self), *final(cx), r),
    ;
}

/// Caller-supplied logic run on every poll cycle of a [`WrappedFuture`].
///
/// It gets the inner computation and the context, and decides whether and how
/// often the inner computation is polled and what the cycle reports. It may keep
/// state of its own across cycles.
pub trait Interceptor<Fut, C, O>: Sized {
    /// One invocation may lead from the interceptor `pre`, the inner computation
    /// `inner` and the context `cx` to `post`, `inner_post` and `cx_post`,
    /// reporting `r`.
    ///
    /// An implementation that does not state this may do anything.
    open spec fn intercepted(
        pre: Self,
        inner: Fut,
        cx: C,
        post: Self,
        inner_post: Fut,
        cx_post: C,
        r: PollResult<O>,
    ) -> bool {
        true
    }

    fn intercept(&mut self, inner: &mut Fut, cx: &mut C) -> (r: PollResult<O>)
        ensures
            Self::intercepted(
                *old(self),
                *old(inner),
                *old(cx),
                *final(self),
                *final(inner),
                *final(cx),
                r,
            ),
    ;
}

/// A computation together with the interceptor that runs each of its poll cycles.
///
/// It owns both parts. It never polls the inner computation itself.
pub struct WrappedFuture<Fut, F, O> {
    inner: Fut,
    f: F,
    output: PhantomData<O>,
}

impl<Fut, F, O> WrappedFuture<Fut, F, O> {
    /// The inner computation.
    pub closed spec fn inner(&self) -> Fut {
        self.inner
    }

    /// The interceptor, with its state.
    pub closed spec fn interceptor(&self) -> F {
        self.f
    }

    /// Builds the wrapper from its two parts; nothing is polled.
    pub fn new(inner: Fut, f: F) -> (w: Self)
        ensures
            w.inner() == inner,
            w.interceptor() == f,
    {
        WrappedFuture { inner, f, output: PhantomData }
    }

    pub fn get_ref(&self) -> (r: &Fut)
        ensures
            *r == self.inner(),
    {
        &self.inner
    }

    pub fn interceptor_ref(&self) -> (r: &F)
        ensures
            *r == self.interceptor(),
    {
        &self.f
    }

    /// Takes the wrapper apart, giving back the inner computation and the interceptor.
    pub fn into_parts(self) -> (r: (Fut, F))
        ensures
            r.0 == self.inner(),
            r.1 == self.interceptor(),
    {
        (self.inner, self.f)
    }
}

impl<Fut, F, O, C> Computation<C> for WrappedFuture<Fut, F, O> where F: Interceptor<Fut, C, O> {
    type Output = O;

    /// A cycle of the wrapper is one invocation of its interceptor.
    open spec fn polled(pre: Self, cx: C, post: Self, cx_post: C, r: PollResult<O>) -> bool {
        F::intercepted(
            pre.interceptor(),
            pre.inner(),
            cx,
            post.interceptor(),
            post.inner(),
            cx_post,
            r,
        )
    }

    /// Invokes the interceptor once on the inner computation and the context,
    /// and reports its outcome as it is.
    fn poll(&mut self, cx: &mut C) -> (r: PollResult<O>) {
        self.f.intercept(&mut self.inner, cx)
    }
}

/// Adds `wrap` to every type: it pairs a computation with an interceptor.
pub trait WrapFuture<O>: Sized {
    fn wrap<F>(self, f: F) -> (w: WrappedFuture<Self, F, O>)
        ensures
            w.inner() == self,
            w.interceptor() == f,
    {
        WrappedFuture::new(self, f)
    }
}

impl<T, O> WrapFuture<O> for T {

}

} // verus!
