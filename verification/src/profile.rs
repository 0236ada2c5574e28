//! The input of an analysis: one execution trace as a list of timed calls.

use vstd::prelude::*;

verus! {

/// On which side of the library boundary a call was made.
#[derive(Clone, Copy, Debug, PartialEq, Eq, Structural)]
pub enum CallKind {
    /// A call of a function that the profiled program's author wrote.
    Function,
    /// A call that crosses into an external library.
    Library,
}

/// One timed call of a trace.
#[derive(Clone, Copy, Debug, PartialEq, Eq)]
pub struct Call {
    /// Identifier of the callee, as the profiler assigned it.
    pub callee: u64,
    /// Where the callee lives.
    pub kind: CallKind,
    /// Measured duration in microseconds; `None` where the trace holds no
    /// timing for this call.
    pub duration: Option<u64>,
}

/// An immutable, already-parsed execution trace.
///
/// Its view is the sequence of its calls, in the order of the trace.
pub struct Profile {
    calls: Vec<Call>,
}

impl View for Profile {
    type V = Seq<Call>;

    closed spec fn view(&self) -> Seq<Call> {
        self.calls@
    }
}

impl Profile {
    /// A profile that holds the given calls, in the given order.
    pub fn new(calls: Vec<Call>) -> (profile: Profile)
        ensures
            profile@ == calls@,
    {
        Profile { calls }
    }

    /// The number of calls in the trace.
    pub fn len(&self) -> (n: usize)
        ensures
            n == self@.len(),
    {
        self.calls.len()
    }

    /// Whether the trace holds no call at all.
    pub fn is_empty(&self) -> (empty: bool)
        ensures
            empty == (self@.len() == 0),
    {
        self.calls.len() == 0
    }

    /// The call at position `index` of the trace, if there is one.
    pub fn call(&self, index: usize) -> (call: Option<Call>)
        ensures
            index < self@.len() ==> call == Some(self@[index as int]),
            index >= self@.len() ==> call.is_none(),
    {
        if index < self.calls.len() {
            Some(self.calls[index])
        } else {
            None
        }
    }

    /// All calls of the trace, in order.
    pub fn calls(&self) -> (calls: &Vec<Call>)
        ensures
            calls@ == self@,
    {
        &self.calls
    }
}

} // verus!
