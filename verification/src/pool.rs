//! The mathematical model of the slot pool and of its transitions.
//!
//! A [`Pool`] is what a scheduler looks like to its contracts: the slots in
//! order, and the index of the slot that executes. Every operation of the
//! scheduler is stated as a function from pool to pool.

use vstd::prelude::*;
use crate::context::ThreadContext;
use crate::frame::{frame_fits, frame_offset, initial_rsp, with_frame};
use crate::state::State;

verus! {

/// One slot as the contracts see it.
pub struct Slot {
    pub state: State,
    pub stack: Seq<u8>,
    pub context: ThreadContext,
}

impl Slot {
    /// A slot with a zero-filled stack of `stack_size` bytes and a zeroed context.
    pub open spec fn fresh(state: State, stack_size: nat) -> Slot {
        Slot { state, stack: Seq::new(stack_size, |i: int| 0u8), context: ThreadContext::zeroed() }
    }

    /// This slot in another state.
    pub open spec fn with_state(self, state: State) -> Slot {
        Slot { state, ..self }
    }

    /// This slot after it gave up the processor: work that is not finished
    /// waits for its next turn, a finished slot stays free.
    pub open spec fn demoted(self) -> Slot {
        if self.state == State::Available {
            self
        } else {
            self.with_state(State::Ready)
        }
    }

    /// This slot with work installed: the frame is written into the stack,
    /// the saved stack pointer points at it, and the slot waits for its turn.
    pub open spec fn installed(self, base: u64, guard: u64, skip: u64, entry: u64) -> Slot {
        Slot {
            state: State::Ready,
            stack: with_frame(
                self.stack,
                frame_offset(base, self.stack.len()),
                guard,
                skip,
                entry,
            ),
            context: self.context.with_rsp(initial_rsp(base, self.stack.len()) as u64),
        }
    }
}

/// The slots of a scheduler and the index of the one that executes.
pub struct Pool {
    pub slots: Seq<Slot>,
    pub current: int,
}

impl Pool {
    /// The pool of a scheduler that was just built: `capacity` slots with
    /// zero-filled stacks, slot 0 executing and all others free.
    pub open spec fn fresh(capacity: nat, stack_size: nat) -> Pool {
        Pool {
            slots: Seq::new(
                capacity,
                |i: int|
                    Slot::fresh(
                        if i == 0 {
                            State::Running
                        } else {
                            State::Available
                        },
                        stack_size,
                    ),
            ),
            current: 0,
        }
    }

    /// The number of slots.
    pub open spec fn len(self) -> int {
        self.slots.len() as int
    }

    /// The state of slot `i`.
    pub open spec fn state(self, i: int) -> State {
        self.slots[i].state
    }

    /// The current index names a slot.
    pub open spec fn in_bounds(self) -> bool {
        0 <= self.current < self.len()
    }

    /// What holds of a scheduler between any two of its operations: exactly
    /// one slot executes, it is the current one, and slot 0 is never free.
    pub open spec fn wf(self) -> bool {
        &&& self.in_bounds()
        &&& forall|i: int|
            0 <= i < self.len() ==> (#[trigger] self.state(i) == State::Running <==> i
                == self.current)
        &&& self.state(0) != State::Available
    }

    /// The index of the slot that lies `d` places after the current one,
    /// going round from the last slot to the first.
    pub open spec fn after(self, d: int) -> int {
        (self.current + d) % self.len()
    }

    /// The least distance from `d` on, and below the size of the pool, at
    /// which a slot waits for its turn.
    pub open spec fn ready_distance_from(self, d: int) -> Option<int>
        decreases self.len() - d,
    {
        if d >= self.len() {
            None
        } else if self.state(self.after(d)) == State::Ready {
            Some(d)
        } else {
            self.ready_distance_from(d + 1)
        }
    }

    /// The slot that gets the next turn: the first waiting slot after the
    /// current one in ascending order, going round; the current slot itself
    /// is not looked at.
    pub open spec fn next_ready(self) -> Option<int> {
        match self.ready_distance_from(1) {
            Some(d) => Some(self.after(d)),
            None => None,
        }
    }

    /// The pool after a yield. Where no slot waits nothing changes. Else the
    /// current slot is demoted, the next waiting slot executes and becomes
    /// the current one.
    pub open spec fn yielded(self) -> Pool {
        match self.next_ready() {
            None => self,
            Some(next) => Pool {
                slots: self.slots.update(self.current, self.slots[self.current].demoted()).update(
                    next,
                    self.slots[next].with_state(State::Running),
                ),
                current: next,
            },
        }
    }

    /// The pool after `times` yields in a row.
    pub open spec fn yielded_times(self, times: nat) -> Pool
        decreases times,
    {
        if times == 0 {
            self
        } else {
            self.yielded().yielded_times((times - 1) as nat)
        }
    }

    /// Whether slot `i` is the current one after one of the first `turns` yields.
    pub open spec fn gets_turn_within(self, i: int, turns: nat) -> bool {
        exists|k: nat| 1 <= k <= turns && (#[trigger] self.yielded_times(k)).current == i
    }

    /// Every slot but the current one waits for its turn.
    pub open spec fn others_ready(self) -> bool {
        forall|i: int|
            0 <= i < self.len() && i != self.current ==> #[trigger] self.state(i) == State::Ready
    }

    /// The pool with the current slot marked free.
    pub open spec fn retired(self) -> Pool {
        Pool {
            slots: self.slots.update(
                self.current,
                self.slots[self.current].with_state(State::Available),
            ),
            ..self
        }
    }

    /// The pool after the work of the current slot has finished. In slot 0
    /// nothing happens; any other slot is freed and yields.
    pub open spec fn returned(self) -> Pool {
        if self.current == 0 {
            self
        } else {
            self.retired().yielded()
        }
    }

    /// The least index from `i` on whose slot is free.
    pub open spec fn available_from(self, i: int) -> Option<int>
        decreases self.len() - i,
    {
        if i >= self.len() {
            None
        } else if self.state(i) == State::Available {
            Some(i)
        } else {
            self.available_from(i + 1)
        }
    }

    /// The free slot with the least index.
    pub open spec fn first_available(self) -> Option<int> {
        self.available_from(0)
    }

    /// Whether work can be installed: a slot is free, and its stack, lying
    /// at address `base`, holds the frame.
    pub open spec fn can_spawn(self, base: u64) -> bool {
        self.first_available() matches Some(i) && frame_fits(base, self.slots[i].stack.len())
    }

    /// The pool after work was installed in its first free slot.
    pub open spec fn spawned(self, base: u64, guard: u64, skip: u64, entry: u64) -> Pool {
        let i = self.first_available().unwrap();
        Pool {
            slots: self.slots.update(i, self.slots[i].installed(base, guard, skip, entry)),
            ..self
        }
    }
}

} // verus!
