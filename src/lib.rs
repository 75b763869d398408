//! A combinator that intercepts every poll cycle of a computation.
//!
//! A [`Computation`] is advanced by poll cycles. Wrapping it with an
//! [`Interceptor`] gives a [`WrappedFuture`]: on each of its own poll cycles the
//! wrapper hands the inner computation and the context to the interceptor,
//! exactly once, and reports the interceptor's outcome unchanged.
mod clock;
pub mod poll;
pub mod laws;
pub mod policy;
pub mod wrapped;

pub use policy::{charge, Abort, Budget, Counted, Forward, Present};
pub use poll::PollResult;
pub use wrapped::{Computation, Interceptor, WrapFuture, WrappedFuture};
