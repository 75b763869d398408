use vstd::prelude::*;

verus! {

/// The outcome of one poll cycle: a value, or not yet.
#[derive(Clone, Copy, Debug, PartialEq, Eq, Structural)]
pub enum PollResult<T> {
    Ready(T),
    Pending,
}

/// `Ready(v)` becomes `Ready(Some(v))`; `Pending` stays `Pending`.
pub open spec fn present<T>(r: PollResult<T>) -> PollResult<Option<T>> {
    match r {
        PollResult::Ready(v) => PollResult::Ready(Some(v)),
        PollResult::Pending => PollResult::Pending,
    }
}

impl<T> PollResult<T> {
    pub fn is_ready(&self) -> (b: bool)
        ensures
            b == (*self is Ready),
    {
        match self {
            PollResult::Ready(_) => true,
            PollResult::Pending => false,
        }
    }

    pub fn is_pending(&self) -> (b: bool)
        ensures
            b == (*self is Pending),
    {
        match self {
            PollResult::Ready(_) => false,
            PollResult::Pending => true,
        }
    }

    /// Wraps a ready value in `Some`, marking it as present.
    pub fn into_present(self) -> (r: PollResult<Option<T>>)
        ensures
            r == present(self),
    {
        match self {
            PollResult::Ready(v) => PollResult::Ready(Some(v)),
            PollResult::Pending => PollResult::Pending,
        }
    }
}

} // verus!
