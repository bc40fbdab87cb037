use vstd::prelude::*;

verus! {

/// What a thread slot is doing.
#[derive(Clone, Copy, Debug, PartialEq, Eq, Structural)]
pub enum State {
    /// The slot is free: nothing was installed in it, or its work has finished.
    Available,
    /// The slot is the one that executes.
    Running,
    /// The slot holds work that waits for its turn.
    Ready,
}

} // verus!
