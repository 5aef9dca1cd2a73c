use crate::window::Event;
use vstd::prelude::*;

verus! {

/// Something that can be attached to an application shell: it can paint itself
/// and is told of every event the shell dispatches.
///
/// Neither method has a contract. The shell promises when and in which order it
/// calls `handle`; what an implementation does with the call is its own business.
pub trait Widget {
    fn draw(&self);

    fn handle(&self, event: &Event);
}

} // verus!
