//! A whole run of the scheduler, for work whose yields are known in advance.
//!
//! The work in a slot is described by what it still does: it yields a given
//! number of times and then returns, or it keeps the processor for ever.
//! Slot 0 runs the scheduling loop: it yields for as long as a yield reports
//! a switch, and ends the run when one does not.

use vstd::prelude::*;
use crate::pool::Pool;
use crate::state::State;

verus! {

/// What the work in a slot still does.
pub enum Work {
    /// It yields this many times more and then returns.
    Yields(nat),
    /// It neither yields nor returns.
    Spins,
}

/// Whether the work in every slot that is in use, slot 0 aside, comes to an end.
pub open spec fn all_work_ends(pool: Pool, work: Seq<Work>) -> bool {
    forall|i: int|
        1 <= i < pool.len() && pool.state(i) != State::Available ==> #[trigger] work[i] is Yields
}

/// How a run went, as far as it was followed.
pub struct Outcome {
    /// Whether the loop in slot 0 saw a yield without a switch and ended.
    pub finished: bool,
    /// The pool where the run was left.
    pub pool: Pool,
    /// The switches away from work units: after a yield of theirs or their return.
    pub unit_switches: nat,
    /// The switches away from slot 0, made by the scheduling loop.
    pub base_switches: nat,
    /// The switches into work units, from slot 0 or from another unit.
    pub unit_entries: nat,
}

/// 1 where the processor went to another slot, else 0.
pub open spec fn switched(before: Pool, after: Pool) -> nat {
    if after.current != before.current {
        1
    } else {
        0
    }
}

/// 1 where the processor went to another slot that is not slot 0, else 0.
pub open spec fn entered_unit(before: Pool, after: Pool) -> nat {
    if after.current != before.current && after.current != 0 {
        1
    } else {
        0
    }
}

/// The switches that the work in slot `i` still has to make: one for each
/// yield that is left and one for its return. Slot 0 and free slots hold no
/// work, and work that keeps the processor makes no switch.
pub open spec fn unit_load(pool: Pool, work: Seq<Work>, i: int) -> nat {
    if i == 0 || pool.state(i) == State::Available {
        0
    } else {
        match work[i] {
            Work::Yields(left) => left + 1,
            Work::Spins => 0,
        }
    }
}

/// The sum of [`unit_load`] over the slots below `n`.
pub open spec fn load_below(pool: Pool, work: Seq<Work>, n: int) -> nat
    decreases n,
{
    if n <= 0 {
        0
    } else {
        load_below(pool, work, n - 1) + unit_load(pool, work, n - 1)
    }
}

/// The sum of [`unit_load`] over all slots.
pub open spec fn load(pool: Pool, work: Seq<Work>) -> nat {
    load_below(pool, work, pool.len())
}

/// The run from `pool`, followed for `steps` steps at most. In each step the
/// current slot acts: slot 0 yields, and the run is over where that yield
/// finds no waiting slot; a unit with yields left yields; a unit with none
/// left returns; a unit that keeps the processor changes nothing.
pub open spec fn run(pool: Pool, work: Seq<Work>, steps: nat) -> Outcome
    decreases steps,
{
    let cur = pool.current;
    if steps == 0 {
        Outcome { finished: false, pool, unit_switches: 0, base_switches: 0, unit_entries: 0 }
    } else if cur == 0 {
        if pool.next_ready().is_none() {
            Outcome { finished: true, pool, unit_switches: 0, base_switches: 0, unit_entries: 0 }
        } else {
            let next = pool.yielded();
            let rest = run(next, work, (steps - 1) as nat);
            Outcome {
                base_switches: rest.base_switches + switched(pool, next),
                unit_entries: rest.unit_entries + entered_unit(pool, next),
                ..rest
            }
        }
    } else {
        match work[cur] {
            Work::Spins => run(pool, work, (steps - 1) as nat),
            Work::Yields(left) => {
                let next = if left > 0 {
                    pool.yielded()
                } else {
                    pool.returned()
                };
                let work_next = if left > 0 {
                    work.update(cur, Work::Yields((left - 1) as nat))
                } else {
                    work
                };
                let rest = run(next, work_next, (steps - 1) as nat);
                Outcome {
                    unit_switches: rest.unit_switches + switched(pool, next),
                    unit_entries: rest.unit_entries + entered_unit(pool, next),
                    ..rest
                }
            },
        }
    }
}

/// Two descriptions that agree on every slot below `n` but slot `at` have
/// loads below `n` that differ by what the load of slot `at` differs by.
pub proof fn lemma_load_changes_at(
    before: Pool,
    work_before: Seq<Work>,
    after: Pool,
    work_after: Seq<Work>,
    at: int,
    n: int,
)
    requires
        forall|i: int|
            0 <= i < n && i != at ==> #[trigger] unit_load(after, work_after, i) == unit_load(
                before,
                work_before,
                i,
            ),
    ensures
        load_below(after, work_after, n) == load_below(before, work_before, n) + if 0 <= at < n {
            unit_load(after, work_after, at) - unit_load(before, work_before, at)
        } else {
            0
        },
    decreases n,
{
    if n > 0 {
        lemma_load_changes_at(before, work_before, after, work_after, at, n - 1);
        if n - 1 != at {
            assert(unit_load(after, work_after, n - 1) == unit_load(before, work_before, n - 1));
        }
    }
}

/// The load below `n` is at least the load of any slot below `n`, and it is
/// 0 where every such slot has load 0.
pub proof fn lemma_load_bounds(pool: Pool, work: Seq<Work>, n: int)
    ensures
        forall|i: int|
            0 <= i < n ==> #[trigger] unit_load(pool, work, i) <= load_below(pool, work, n),
        (forall|i: int| 0 <= i < n ==> #[trigger] unit_load(pool, work, i) == 0) ==> load_below(
            pool,
            work,
            n,
        ) == 0,
    decreases n,
{
    if n > 0 {
        lemma_load_bounds(pool, work, n - 1);
    }
}

/// One step of a unit whose work ends: the unit in the current slot, which
/// is not slot 0, yields or returns. The processor goes to another slot and
/// the load falls by one.
pub proof fn lemma_unit_step(pool: Pool, work: Seq<Work>)
    requires
        pool.wf(),
        work.len() == pool.len(),
        all_work_ends(pool, work),
        pool.current != 0,
    ensures
        load(pool, work) >= 1,
        work[pool.current] matches Work::Yields(left) && {
            let next = if left > 0 {
                pool.yielded()
            } else {
                pool.returned()
            };
            let work_next = if left > 0 {
                work.update(pool.current, Work::Yields((left - 1) as nat))
            } else {
                work
            };
            &&& next.wf()
            &&& next.len() == pool.len()
            &&& all_work_ends(next, work_next)
            &&& switched(pool, next) == 1
            &&& load(next, work_next) == load(pool, work) - 1
        },
{
    let cur = pool.current;
    let n = pool.len();
    lemma_load_bounds(pool, work, n);
    assert(pool.state(cur) == State::Running);
    assert(work[cur] is Yields);
    let left = work[cur]->Yields_0;
    assert(unit_load(pool, work, cur) == left + 1);
    pool.lemma_base_waits();
    pool.lemma_next_ready();
    pool.lemma_yielded();
    pool.lemma_returned();
    if left > 0 {
        let next = pool.yielded();
        let work_next = work.update(cur, Work::Yields((left - 1) as nat));
        assert forall|i: int| 0 <= i < n && i != cur implies #[trigger] unit_load(
            next,
            work_next,
            i,
        ) == unit_load(pool, work, i) by {
            assert(pool.state(i) == State::Running <==> i == cur);
        }
        assert(unit_load(next, work_next, cur) == left);
        lemma_load_changes_at(pool, work, next, work_next, cur, n);
        assert forall|i: int|
            1 <= i < next.len() && next.state(i) != State::Available
            implies #[trigger] work_next[i] is Yields by {
            if i != cur {
                assert(pool.state(i) != State::Available);
                assert(work[i] is Yields);
            }
        }
    } else {
        let freed = pool.retired();
        freed.lemma_next_ready();
        let next = pool.returned();
        assert forall|i: int| 0 <= i < n && i != cur implies #[trigger] unit_load(next, work, i)
            == unit_load(pool, work, i) by {
            assert(pool.state(i) == State::Running <==> i == cur);
        }
        assert(next.state(cur) == State::Available);
        lemma_load_changes_at(pool, work, next, work, cur, n);
        assert forall|i: int|
            1 <= i < next.len() && next.state(i) != State::Available
            implies #[trigger] work[i] is Yields by {
            assert(pool.state(i) != State::Available);
        }
    }
}

/// One step of slot 0, where all work ends: the scheduling loop yields.
/// Where work is left, the processor goes to a unit and the load stays;
/// where none is left, no slot waits and every slot but slot 0 is free.
pub proof fn lemma_base_step(pool: Pool, work: Seq<Work>)
    requires
        pool.wf(),
        work.len() == pool.len(),
        all_work_ends(pool, work),
        pool.current == 0,
    ensures
        pool.next_ready().is_some() <==> load(pool, work) > 0,
        pool.next_ready().is_some() ==> {
            let next = pool.yielded();
            &&& next.wf()
            &&& next.len() == pool.len()
            &&& all_work_ends(next, work)
            &&& next.current != 0
            &&& switched(pool, next) == 1
            &&& load(next, work) == load(pool, work)
        },
        pool.next_ready().is_none() ==> forall|i: int|
            1 <= i < pool.len() ==> #[trigger] pool.state(i) == State::Available,
{
    let n = pool.len();
    lemma_load_bounds(pool, work, n);
    pool.lemma_next_ready();
    pool.lemma_yielded();
    match pool.next_ready() {
        Some(to) => {
            assert(work[to] is Yields);
            assert(unit_load(pool, work, to) >= 1);
            let next = pool.yielded();
            assert forall|i: int| 0 <= i < n implies #[trigger] unit_load(next, work, i)
                == unit_load(pool, work, i) by {
                assert(pool.state(i) == State::Running <==> i == 0);
            }
            lemma_load_changes_at(pool, work, next, work, -1, n);
            assert forall|i: int|
                1 <= i < next.len() && next.state(i) != State::Available
                implies #[trigger] work[i] is Yields by {
                assert(pool.state(i) != State::Available);
            }
        },
        None => {
            assert forall|i: int| 1 <= i < n implies #[trigger] pool.state(i)
                == State::Available by {
                assert(pool.state(i) == State::Running <==> i == 0);
            }
            assert forall|i: int| 0 <= i < n implies #[trigger] unit_load(pool, work, i) == 0 by {
                if i != 0 {
                    assert(pool.state(i) == State::Available);
                }
            }
        },
    }
}

/// Every run of work that ends is over after finitely many steps, and the
/// units make exactly the switches that their work asks for.
///
/// From any well-formed pool, with the unit in each slot that is in use
/// yielding a given number of times before it returns, the run is over
/// after at most `2 * load + 1` steps, where `load` is the sum over the units
/// of their yields plus one. It ends in slot 0 with every other slot free.
/// On the way the processor has left a unit exactly `load` times: once for
/// each yield and once for each return. It has entered a unit as often,
/// less once where the run starts inside a unit. The scheduling loop in
/// slot 0 has switched to a unit at most `load` times on top of that.
pub proof fn lemma_run_completes(pool: Pool, work: Seq<Work>, steps: nat)
    requires
        pool.wf(),
        work.len() == pool.len(),
        all_work_ends(pool, work),
        steps >= 2 * load(pool, work) + 1,
    ensures
        run(pool, work, steps).finished,
        run(pool, work, steps).unit_switches == load(pool, work),
        run(pool, work, steps).unit_entries == if pool.current == 0 {
            load(pool, work) as int
        } else {
            load(pool, work) - 1
        },
        run(pool, work, steps).base_switches <= load(pool, work),
        pool.current != 0 ==> run(pool, work, steps).base_switches < load(pool, work),
        run(pool, work, steps).pool.wf(),
        run(pool, work, steps).pool.len() == pool.len(),
        run(pool, work, steps).pool.current == 0,
        forall|i: int|
            1 <= i < pool.len() ==> #[trigger] run(pool, work, steps).pool.state(i)
                == State::Available,
    decreases steps,
{
    let cur = pool.current;
    if cur == 0 {
        lemma_base_step(pool, work);
        if pool.next_ready().is_some() {
            let next = pool.yielded();
            lemma_unit_step(next, work);
            lemma_run_after_unit_step(next, work, (steps - 1) as nat);
        }
    } else {
        lemma_run_after_unit_step(pool, work, steps);
    }
}

/// The run from a pool in which a unit executes: its step, and then the rest.
proof fn lemma_run_after_unit_step(pool: Pool, work: Seq<Work>, steps: nat)
    requires
        pool.wf(),
        work.len() == pool.len(),
        all_work_ends(pool, work),
        pool.current != 0,
        steps >= 2 * load(pool, work),
    ensures
        run(pool, work, steps).finished,
        run(pool, work, steps).unit_switches == load(pool, work),
        run(pool, work, steps).unit_entries == load(pool, work) - 1,
        run(pool, work, steps).base_switches < load(pool, work),
        run(pool, work, steps).pool.wf(),
        run(pool, work, steps).pool.len() == pool.len(),
        run(pool, work, steps).pool.current == 0,
        forall|i: int|
            1 <= i < pool.len() ==> #[trigger] run(pool, work, steps).pool.state(i)
                == State::Available,
    decreases steps, 0nat,
{
    let cur = pool.current;
    lemma_unit_step(pool, work);
    let left = work[cur]->Yields_0;
    if left > 0 {
        let work_next = work.update(cur, Work::Yields((left - 1) as nat));
        lemma_run_completes(pool.yielded(), work_next, (steps - 1) as nat);
    } else {
        lemma_run_completes(pool.returned(), work, (steps - 1) as nat);
    }
}

/// A unit that neither yields nor returns keeps the run from ending: with
/// such a unit in a slot that is in use, the run is not over after any
/// number of steps.
pub proof fn lemma_spinning_unit_blocks_the_run(
    pool: Pool,
    work: Seq<Work>,
    spinner: int,
    steps: nat,
)
    requires
        pool.wf(),
        work.len() == pool.len(),
        1 <= spinner < pool.len(),
        pool.state(spinner) != State::Available,
        work[spinner] is Spins,
    ensures
        !run(pool, work, steps).finished,
    decreases steps,
{
    let cur = pool.current;
    if steps > 0 {
        let rest = (steps - 1) as nat;
        pool.lemma_next_ready();
        pool.lemma_yielded();
        pool.lemma_returned();
        assert(pool.state(spinner) == State::Running <==> spinner == cur);
        if cur == 0 {
            assert(pool.state(spinner) == State::Ready);
            lemma_spinning_unit_blocks_the_run(pool.yielded(), work, spinner, rest);
        } else {
            match work[cur] {
                Work::Spins => {
                    lemma_spinning_unit_blocks_the_run(pool, work, spinner, rest);
                },
                Work::Yields(left) => {
                    pool.lemma_base_waits();
                    if left > 0 {
                        let work_next = work.update(cur, Work::Yields((left - 1) as nat));
                        let next = pool.yielded();
                        lemma_spinning_unit_blocks_the_run(next, work_next, spinner, rest);
                    } else {
                        pool.retired().lemma_next_ready();
                        lemma_spinning_unit_blocks_the_run(pool.returned(), work, spinner, rest);
                    }
                },
            }
        }
    }
}

} // verus!
