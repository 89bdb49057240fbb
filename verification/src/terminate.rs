//! Cooperative cancellation of the consumer's drain loop.

use vstd::prelude::*;

verus! {

/// A termination handle the drain loop polls between frames.
///
/// The ghost log of answers is what the cancellation guarantee is stated
/// over: once an answer is `false`, the drain returns without touching
/// another frame.
pub trait Terminate {
    /// Every answer this handle has given so far.
    spec fn polled(&self) -> Seq<bool>;

    /// Whether draining should go on; checked between frames, never inside a
    /// handler.
    fn should_continue(&mut self) -> (r: bool)
        ensures
            final(self).polled() == old(self).polled().push(r),
    ;
}

} // verus!
