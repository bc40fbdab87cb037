//! What holds of the pool model, whatever the pool.

use vstd::prelude::*;
use vstd::arithmetic::div_mod::{
    lemma_add_mod_noop_right, lemma_fundamental_div_mod_converse, lemma_small_mod,
};
use crate::pool::Pool;
use crate::state::State;

verus! {

impl Pool {
    /// Going `d` places round from the current slot, for `d` up to the size
    /// of the pool, wraps at most once and ends at a slot of the pool.
    pub proof fn lemma_after(self, d: int)
        requires
            self.in_bounds(),
            0 <= d <= self.len(),
        ensures
            0 <= self.after(d) < self.len(),
            self.after(d) == if self.current + d < self.len() {
                self.current + d
            } else {
                self.current + d - self.len()
            },
    {
        let n = self.len();
        let x = self.current + d;
        if x < n {
            lemma_small_mod(x as nat, n as nat);
        } else {
            lemma_fundamental_div_mod_converse(x, n, 1, x - n);
        }
    }

    /// Every slot but the current one is reached by going round from the
    /// current one by some distance between 1 and the size of the pool less
    /// one; the distance is returned.
    pub proof fn lemma_distance_to(self, i: int) -> (d: int)
        requires
            self.in_bounds(),
            0 <= i < self.len(),
            i != self.current,
        ensures
            1 <= d < self.len(),
            self.after(d) == i,
    {
        let d = if i > self.current {
            i - self.current
        } else {
            i - self.current + self.len()
        };
        self.lemma_after(d);
        d
    }

    /// The distance that the scan finds is the least one at which a slot
    /// waits; it finds none only where none waits from `d` on.
    pub proof fn lemma_ready_distance(self, d: int)
        requires
            self.in_bounds(),
            0 <= d,
        ensures
            match self.ready_distance_from(d) {
                Some(r) => {
                    &&& d <= r < self.len()
                    &&& self.state(self.after(r)) == State::Ready
                    &&& forall|e: int|
                        d <= e < r ==> self.state(#[trigger] self.after(e)) != State::Ready
                },
                None => forall|e: int|
                    d <= e < self.len() ==> self.state(#[trigger] self.after(e)) != State::Ready,
            },
        decreases self.len() - d,
    {
        if d < self.len() && self.state(self.after(d)) != State::Ready {
            self.lemma_ready_distance(d + 1);
        }
    }

    /// The slot that gets the next turn is another slot than the current
    /// one and waits for its turn; there is none only where no other slot waits.
    pub proof fn lemma_next_ready(self)
        requires
            self.in_bounds(),
        ensures
            match self.next_ready() {
                Some(next) => {
                    &&& 0 <= next < self.len()
                    &&& next != self.current
                    &&& self.state(next) == State::Ready
                },
                None => forall|i: int|
                    0 <= i < self.len() && i != self.current ==> #[trigger] self.state(i)
                        != State::Ready,
            },
    {
        self.lemma_ready_distance(1);
        match self.ready_distance_from(1) {
            Some(d) => {
                self.lemma_after(d);
            },
            None => {
                assert forall|i: int|
                    0 <= i < self.len() && i != self.current implies #[trigger] self.state(i)
                    != State::Ready by {
                    let d = self.lemma_distance_to(i);
                    assert(self.state(self.after(d)) != State::Ready);
                }
            },
        }
    }

    /// A yield keeps the pool well formed and its size, and reports a switch
    /// exactly where the current slot changes.
    pub proof fn lemma_yielded(self)
        requires
            self.wf(),
        ensures
            self.yielded().wf(),
            self.yielded().len() == self.len(),
            self.next_ready().is_some() <==> self.yielded().current != self.current,
            self.next_ready().is_some() ==> self.yielded().state(self.current) == State::Ready,
    {
        self.lemma_next_ready();
        let y = self.yielded();
        assert(self.state(self.current) == State::Running);
        assert forall|i: int| 0 <= i < y.len() implies (#[trigger] y.state(i) == State::Running
            <==> i == y.current) by {
            assert(self.state(i) == State::Running <==> i == self.current);
        }
    }

    /// A well-formed pool whose current slot is not slot 0 has a waiting
    /// slot: slot 0.
    pub proof fn lemma_base_waits(self)
        requires
            self.wf(),
            self.current != 0,
        ensures
            self.state(0) == State::Ready,
            self.next_ready().is_some(),
            self.retired().next_ready().is_some(),
    {
        self.lemma_next_ready();
        let r = self.retired();
        assert(r.state(0) == State::Ready);
        r.lemma_next_ready();
    }

    /// The end of work keeps the pool well formed and its size. In any slot
    /// but slot 0 it frees the slot and hands the processor to another one.
    pub proof fn lemma_returned(self)
        requires
            self.wf(),
        ensures
            self.returned().wf(),
            self.returned().len() == self.len(),
            self.current != 0 ==> {
                &&& self.returned().state(self.current) == State::Available
                &&& self.returned().current != self.current
                &&& self.returned().current == self.retired().next_ready().unwrap()
            },
            self.current == 0 ==> self.returned() == self,
    {
        if self.current != 0 {
            self.lemma_base_waits();
            let r = self.retired();
            r.lemma_next_ready();
            let y = self.returned();
            assert forall|i: int| 0 <= i < y.len() implies (#[trigger] y.state(i) == State::Running
                <==> i == y.current) by {
                assert(self.state(i) == State::Running <==> i == self.current);
            }
        }
    }

    /// The free slot that the search finds is the one with the least index;
    /// it finds none only where no slot from `i` on is free.
    pub proof fn lemma_available_from(self, i: int)
        requires
            0 <= i,
        ensures
            match self.available_from(i) {
                Some(slot) => {
                    &&& i <= slot < self.len()
                    &&& self.state(slot) == State::Available
                    &&& forall|j: int|
                        i <= j < slot ==> #[trigger] self.state(j) != State::Available
                },
                None => forall|j: int|
                    i <= j < self.len() ==> #[trigger] self.state(j) != State::Available,
            },
        decreases self.len() - i,
    {
        if i < self.len() && self.state(i) != State::Available {
            self.lemma_available_from(i + 1);
        }
    }

    /// Installing work keeps the pool well formed, its size and its current
    /// slot, turns the first free slot into a waiting one, and leaves every
    /// other slot as it was: no slot that is in use is touched.
    pub proof fn lemma_spawned(self, base: u64, guard: u64, skip: u64, entry: u64)
        requires
            self.wf(),
            self.first_available().is_some(),
        ensures
            self.spawned(base, guard, skip, entry).wf(),
            self.spawned(base, guard, skip, entry).len() == self.len(),
            self.spawned(base, guard, skip, entry).current == self.current,
            self.spawned(base, guard, skip, entry).state(self.first_available().unwrap())
                == State::Ready,
            forall|i: int|
                0 <= i < self.len() && self.state(i) != State::Available
                    ==> #[trigger] self.spawned(base, guard, skip, entry).slots[i] == self.slots[i],
            forall|i: int|
                0 <= i < self.len() && i != self.first_available().unwrap()
                    ==> #[trigger] self.spawned(base, guard, skip, entry).slots[i] == self.slots[i],
    {
        self.lemma_available_from(0);
        let s = self.spawned(base, guard, skip, entry);
        assert forall|i: int| 0 <= i < s.len() implies (#[trigger] s.state(i) == State::Running
            <==> i == s.current) by {
            assert(self.state(i) == State::Running <==> i == self.current);
        }
    }

    /// The slot that work has returned from can take new work: it is free,
    /// so the pool has a first free slot, at its index or below. Where no
    /// slot below it is free, new work goes into that very slot.
    pub proof fn lemma_returned_slot_is_reusable(self)
        requires
            self.wf(),
            self.current != 0,
        ensures
            self.returned().state(self.current) == State::Available,
            self.returned().first_available() matches Some(slot) && 0 < slot <= self.current,
            (forall|j: int| 0 <= j < self.current ==> #[trigger] self.state(j) != State::Available)
                ==> self.returned().first_available() == Some(self.current),
    {
        self.lemma_returned();
        self.lemma_base_waits();
        self.retired().lemma_next_ready();
        let after = self.returned();
        after.lemma_available_from(0);
        if forall|j: int| 0 <= j < self.current ==> #[trigger] self.state(j) != State::Available {
            let slot = after.first_available().unwrap();
            if slot < self.current {
                assert(self.state(slot) != State::Available);
            }
        }
    }

    /// Where every slot but the current one waits, a yield hands the
    /// processor to the slot right after the current one, and every slot
    /// but that one waits again.
    pub proof fn lemma_yield_takes_the_neighbour(self)
        requires
            self.wf(),
            self.others_ready(),
        ensures
            self.yielded().wf(),
            self.yielded().others_ready(),
            self.yielded().len() == self.len(),
            self.yielded().current == (self.current + 1) % self.len(),
    {
        self.lemma_yielded();
        self.lemma_next_ready();
        self.lemma_after(1);
        self.lemma_after(0);
        if self.len() > 1 {
            assert(self.state(self.after(1)) == State::Ready);
            assert(self.ready_distance_from(1) == Some(1int));
            let y = self.yielded();
            assert(self.state(self.current) == State::Running);
            assert forall|i: int| 0 <= i < y.len() && i != y.current implies #[trigger] y.state(i)
                == State::Ready by {
                if i != self.current {
                    assert(self.state(i) == State::Ready);
                }
            }
        }
    }

    /// Round-robin order: where every slot but the current one waits, the
    /// slot that executes after `times` yields lies `times` places after
    /// the one that executed first, going round.
    pub proof fn lemma_round_robin(self, times: nat)
        requires
            self.wf(),
            self.others_ready(),
        ensures
            self.yielded_times(times).wf(),
            self.yielded_times(times).others_ready(),
            self.yielded_times(times).len() == self.len(),
            self.yielded_times(times).current == (self.current + times) % self.len(),
        decreases times,
    {
        if times == 0 {
            self.lemma_after(0);
        } else {
            self.lemma_yield_takes_the_neighbour();
            let y = self.yielded();
            y.lemma_round_robin((times - 1) as nat);
            lemma_add_mod_noop_right(times - 1, self.current + 1, self.len());
        }
    }

    /// Fairness over one full cycle: where every slot but the current one
    /// waits, as many yields as the pool has slots let every slot execute
    /// exactly once: no two of them hand the processor to the same slot,
    /// every slot gets it, and the last one hands it back to the slot that
    /// executed first.
    pub proof fn lemma_full_cycle_is_fair(self)
        requires
            self.wf(),
            self.others_ready(),
        ensures
            forall|j: nat, k: nat|
                1 <= j < k <= self.len() ==> (#[trigger] self.yielded_times(j)).current != (
                #[trigger] self.yielded_times(k)).current,
            forall|i: int|
                0 <= i < self.len() ==> #[trigger] self.gets_turn_within(i, self.len() as nat),
            self.yielded_times(self.len() as nat).current == self.current,
    {
        assert forall|j: nat, k: nat| 1 <= j < k <= self.len() implies (
        #[trigger] self.yielded_times(j)).current != (#[trigger] self.yielded_times(k)).current by {
            self.lemma_round_robin(j);
            self.lemma_round_robin(k);
            self.lemma_after(j as int);
            self.lemma_after(k as int);
        }
        assert forall|i: int| 0 <= i < self.len() implies #[trigger] self.gets_turn_within(
            i,
            self.len() as nat,
        ) by {
            let k: nat = if i == self.current {
                self.len() as nat
            } else {
                self.lemma_distance_to(i) as nat
            };
            self.lemma_round_robin(k);
            self.lemma_after(k as int);
            assert(self.yielded_times(k).current == i);
        }
        self.lemma_round_robin(self.len() as nat);
        self.lemma_after(self.len());
    }

    /// A pool that was just built is well formed.
    pub proof fn lemma_fresh(capacity: nat, stack_size: nat)
        requires
            capacity >= 1,
        ensures
            Pool::fresh(capacity, stack_size).wf(),
            Pool::fresh(capacity, stack_size).len() == capacity,
    {
    }
}

} // verus!
