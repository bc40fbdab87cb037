use vstd::prelude::*;
use crate::context::ThreadContext;
use crate::pool::Slot;
use crate::state::State;

verus! {

/// The size of a stack where none is asked for: 2 MiB.
pub const DEFAULT_STACK_SIZE: usize = 2 * 1024 * 1024;

/// One slot of a scheduler: a stack, a state and the saved registers.
pub struct Thread {
    pub stack: Vec<u8>,
    pub state: State,
    pub context: ThreadContext,
}

impl View for Thread {
    type V = Slot;

    open spec fn view(&self) -> Slot {
        Slot { state: self.state, stack: self.stack@, context: self.context }
    }
}

impl Thread {
    /// A free slot with a zero-filled stack of [`DEFAULT_STACK_SIZE`] bytes.
    pub fn new() -> (thread: Thread)
        ensures
            thread@ == Slot::fresh(State::Available, DEFAULT_STACK_SIZE as nat),
    {
        Thread::with_stack_size(DEFAULT_STACK_SIZE)
    }

    /// A free slot with a zero-filled stack of `stack_size` bytes.
    pub fn with_stack_size(stack_size: usize) -> (thread: Thread)
        ensures
            thread@ == Slot::fresh(State::Available, stack_size as nat),
    {
        Thread::in_state(State::Available, stack_size)
    }

    /// A slot in `state` with a zero-filled stack of `stack_size` bytes.
    pub fn in_state(state: State, stack_size: usize) -> (thread: Thread)
        ensures
            thread@ == Slot::fresh(state, stack_size as nat),
    {
        let stack: Vec<u8> = vec![0u8; stack_size];
        assert(stack@ =~= Seq::new(stack_size as nat, |i: int| 0u8));
        Thread { stack, state, context: ThreadContext::default() }
    }
}

} // verus!
