use vstd::prelude::*;
use crate::context::ThreadContext;
use crate::frame::{locate_frame, write_frame};
use crate::pool::{Pool, Slot};
use crate::state::State;
use crate::thread::{Thread, DEFAULT_STACK_SIZE};

verus! {

/// The number of slots where none is asked for: the base slot and three workers.
pub const MAX_THREADS: usize = 4;

/// Why work could not be installed.
#[derive(Clone, Copy, Debug, PartialEq, Eq, Structural)]
pub enum SpawnError {
    /// Every slot is in use.
    NoAvailableSlot,
    /// The stack of the free slot does not lie in the address space as a
    /// whole, or is too small for the frame.
    FrameDoesNotFit,
}

/// A scheduler: a pool of slots of fixed size and the index of the slot that executes.
pub struct Runtime {
    threads: Vec<Thread>,
    current: usize,
}

impl View for Runtime {
    type V = Pool;

    closed spec fn view(&self) -> Pool {
        Pool {
            slots: Seq::new(self.threads.len() as nat, |i: int| self.threads[i]@),
            current: self.current as int,
        }
    }
}

impl Runtime {
    /// A scheduler of [`MAX_THREADS`] slots with stacks of [`DEFAULT_STACK_SIZE`] bytes.
    pub fn new() -> (rt: Runtime)
        ensures
            rt@ == Pool::fresh(MAX_THREADS as nat, DEFAULT_STACK_SIZE as nat),
            rt@.wf(),
    {
        Runtime::with_capacity(MAX_THREADS, DEFAULT_STACK_SIZE)
    }

    /// A scheduler of `capacity` slots with stacks of `stack_size` bytes.
    /// Slot 0 stands for the caller's own flow of control and executes; it
    /// is there even where `capacity` is 0. The other slots are free.
    pub fn with_capacity(capacity: usize, stack_size: usize) -> (rt: Runtime)
        ensures
            rt@ == Pool::fresh(
                if capacity == 0 {
                    1
                } else {
                    capacity as nat
                },
                stack_size as nat,
            ),
            rt@.wf(),
    {
        let mut threads: Vec<Thread> = Vec::new();
        threads.push(Thread::in_state(State::Running, stack_size));
        let mut i: usize = 1;
        while i < capacity
            invariant
                1 <= i,
                i == 1 || i <= capacity,
                threads.len() == i,
                threads[0]@ == Slot::fresh(State::Running, stack_size as nat),
                forall|j: int|
                    1 <= j < i ==> (#[trigger] threads[j])@ == Slot::fresh(
                        State::Available,
                        stack_size as nat,
                    ),
            decreases capacity - i,
        {
            threads.push(Thread::with_stack_size(stack_size));
            i = i + 1;
        }
        let rt = Runtime { threads, current: 0 };
        assert(rt@.slots =~= Pool::fresh(
            if capacity == 0 {
                1
            } else {
                capacity as nat
            },
            stack_size as nat,
        ).slots);
        rt
    }

    /// Hands the processor to the next waiting slot, if there is one.
    ///
    /// Returns whether a switch is due. Where it is, the slot that executed
    /// waits for its next turn and the slot that now executes is the current
    /// one: the caller switches from the context of the old current slot to
    /// that of the new one. Where no other slot waits, nothing changes.
    pub fn t_yield(&mut self) -> (switched: bool)
        requires
            old(self)@.wf(),
        ensures
            final(self)@ == old(self)@.yielded(),
            final(self)@.wf(),
            switched == old(self)@.next_ready().is_some(),
            switched == (final(self)@.current != old(self)@.current),
    {
        proof {
            self@.lemma_yielded();
        }
        self.advance()
    }

    /// Takes note that the work of the current slot has finished.
    ///
    /// In slot 0 nothing happens. Any other slot becomes free and the
    /// processor goes to the next waiting slot, which is then the current
    /// one: the caller switches to its context and never comes back.
    pub fn t_return(&mut self)
        requires
            old(self)@.wf(),
        ensures
            final(self)@ == old(self)@.returned(),
            final(self)@.wf(),
            old(self)@.current != 0 ==> {
                &&& final(self)@.state(old(self)@.current) == State::Available
                &&& final(self)@.current != old(self)@.current
            },
    {
        proof {
            self@.lemma_returned();
        }
        if self.current != 0 {
            let cur: usize = self.current;
            self.threads[cur].state = State::Available;
            assert(self@.slots =~= old(self)@.retired().slots);
            self.advance();
        }
    }

    /// The scan of a yield, for a pool whose current slot may already be free.
    fn advance(&mut self) -> (switched: bool)
        requires
            old(self)@.in_bounds(),
        ensures
            final(self)@ == old(self)@.yielded(),
            switched == old(self)@.next_ready().is_some(),
    {
        let n: usize = self.threads.len();
        let cur: usize = self.current;
        let ghost pool = self@;
        let ghost mut d: int = 0;
        let mut pos: usize = cur;
        proof {
            pool.lemma_after(0);
        }
        loop
            invariant_except_break
                0 <= d < n,
                pool.ready_distance_from(1) == pool.ready_distance_from(d + 1),
            invariant
                self@ == pool,
                pool.in_bounds(),
                n == self.threads.len(),
                cur == self.current,
                pos == pool.after(d),
            ensures
                1 <= d < n,
                pool.ready_distance_from(1) == Some(d),
            decreases n - d,
        {
            pos = pos + 1;
            if pos == n {
                pos = 0;
            }
            proof {
                pool.lemma_after(d);
                d = d + 1;
                pool.lemma_after(d);
            }
            if pos == cur {
                return false;
            }
            if self.threads[pos].state == State::Ready {
                break ;
            }
        }
        if self.threads[cur].state != State::Available {
            self.threads[cur].state = State::Ready;
        }
        self.threads[pos].state = State::Running;
        self.current = pos;
        assert(self@.slots =~= pool.yielded().slots);
        true
    }

    /// The free slot with the least index, if any slot is free.
    pub fn first_available(&self) -> (slot: Option<usize>)
        ensures
            match slot {
                Some(i) => self@.first_available() == Some(i as int),
                None => self@.first_available().is_none(),
            },
    {
        let n: usize = self.threads.len();
        let mut i: usize = 0;
        while i < n
            invariant
                i <= n,
                n == self.threads.len(),
                self@.first_available() == self@.available_from(i as int),
            decreases n - i,
        {
            if self.threads[i].state == State::Available {
                return Some(i);
            }
            i = i + 1;
        }
        None
    }

    /// Installs work in the first free slot, whose stack lies at address
    /// `stack_base`.
    ///
    /// The frame is written at the aligned end of the stack: `entry`, the
    /// address of the work, lowest, above it `skip`, the address of a
    /// routine that only returns, and above that `guard`, the address of the
    /// completion handler. The saved stack pointer of the slot points at
    /// `entry`, and the slot waits for its turn. No other slot changes.
    pub fn spawn(&mut self, stack_base: u64, guard: u64, skip: u64, entry: u64)
        requires
            old(self)@.wf(),
            old(self)@.can_spawn(stack_base),
        ensures
            final(self)@ == old(self)@.spawned(stack_base, guard, skip, entry),
            final(self)@.wf(),
            forall|i: int|
                0 <= i < old(self)@.len() && old(self)@.state(i) != State::Available
                    ==> #[trigger] final(self)@.slots[i] == old(self)@.slots[i],
    {
        let installed = self.try_spawn(stack_base, guard, skip, entry);
        assert(installed.is_ok());
    }

    /// Installs work as [`Runtime::spawn`] does, where that can be done, and
    /// returns the index of the slot that took it.
    ///
    /// Where no slot is free, or the stack of the first free slot cannot
    /// hold the frame, the scheduler is left as it was.
    pub fn try_spawn(&mut self, stack_base: u64, guard: u64, skip: u64, entry: u64) -> (installed:
        Result<usize, SpawnError>)
        requires
            old(self)@.wf(),
        ensures
            final(self)@.wf(),
            forall|i: int|
                0 <= i < old(self)@.len() && old(self)@.state(i) != State::Available
                    ==> #[trigger] final(self)@.slots[i] == old(self)@.slots[i],
            match installed {
                Ok(slot) => {
                    &&& old(self)@.can_spawn(stack_base)
                    &&& old(self)@.first_available() == Some(slot as int)
                    &&& final(self)@ == old(self)@.spawned(stack_base, guard, skip, entry)
                },
                Err(SpawnError::NoAvailableSlot) => {
                    &&& old(self)@.first_available().is_none()
                    &&& final(self)@ == old(self)@
                },
                Err(SpawnError::FrameDoesNotFit) => {
                    &&& old(self)@.first_available().is_some()
                    &&& !old(self)@.can_spawn(stack_base)
                    &&& final(self)@ == old(self)@
                },
            },
    {
        let slot: usize = match self.first_available() {
            Some(slot) => slot,
            None => {
                return Err(SpawnError::NoAvailableSlot);
            },
        };
        proof {
            self@.lemma_available_from(0);
            self@.lemma_spawned(stack_base, guard, skip, entry);
        }
        let size: usize = self.threads[slot].stack.len();
        let at: usize = match locate_frame(stack_base, size) {
            Some(at) => at,
            None => {
                return Err(SpawnError::FrameDoesNotFit);
            },
        };
        write_frame(&mut self.threads[slot].stack, at, guard, skip, entry);
        self.threads[slot].context.rsp = stack_base + (at as u64);
        self.threads[slot].state = State::Ready;
        assert(self@.slots =~= old(self)@.spawned(stack_base, guard, skip, entry).slots);
        Ok(slot)
    }

    /// The slot at index `slot`, or `None` where the pool has no such slot.
    pub fn thread(&self, slot: usize) -> (thread: Option<&Thread>)
        ensures
            match thread {
                Some(t) => slot < self@.len() && t@ == self@.slots[slot as int],
                None => slot >= self@.len(),
            },
    {
        if slot < self.threads.len() {
            Some(&self.threads[slot])
        } else {
            None
        }
    }

    /// The number of slots, the base slot included.
    pub fn capacity(&self) -> (n: usize)
        ensures
            n == self@.len(),
    {
        self.threads.len()
    }

    /// The index of the slot that executes.
    pub fn current(&self) -> (slot: usize)
        ensures
            slot == self@.current,
    {
        self.current
    }
}

} // verus!
