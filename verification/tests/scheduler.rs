use green_threads::context::ThreadContext;
use green_threads::runtime::{Runtime, SpawnError, MAX_THREADS};
use green_threads::state::State;
use green_threads::thread::DEFAULT_STACK_SIZE;

const GUARD: u64 = 0x0000_5555_0000_1000;
const SKIP: u64 = 0x0000_5555_0000_2000;
const WORK: u64 = 0x0000_5555_0000_3000;

fn states(rt: &Runtime) -> Vec<State> {
    (0..rt.capacity()).map(|i| rt.thread(i).unwrap().state).collect()
}

/// What a test lets the unit in a slot do.
#[derive(Clone, Copy, Debug, PartialEq)]
enum Work {
    /// Yield this many times more, then return.
    Yields(u64),
    /// Keep the processor: neither yield nor return.
    Spins,
}

/// How a driven run went: the slots of the units in the order in which they
/// executed, the switches away from units, the switches away from slot 0 and
/// the switches into units.
#[derive(Debug, PartialEq)]
struct Trace {
    order: Vec<usize>,
    unit_switches: usize,
    base_switches: usize,
    unit_entries: usize,
}

/// Plays the part of the work units and of the scheduling loop in slot 0,
/// which yields until nothing waits. Returns `None` where the run is not
/// over after `limit` steps.
fn drive(rt: &mut Runtime, work: &mut Vec<Work>, limit: usize) -> Option<Trace> {
    let mut trace =
        Trace { order: Vec::new(), unit_switches: 0, base_switches: 0, unit_entries: 0 };
    for _ in 0..limit {
        let cur = rt.current();
        if cur == 0 {
            if !rt.t_yield() {
                return Some(trace);
            }
            trace.base_switches += 1;
        } else {
            if trace.order.last() != Some(&cur) || work[cur] != Work::Spins {
                trace.order.push(cur);
            }
            match work[cur] {
                Work::Spins => continue,
                Work::Yields(0) => rt.t_return(),
                Work::Yields(left) => {
                    work[cur] = Work::Yields(left - 1);
                    assert!(rt.t_yield());
                }
            }
            trace.unit_switches += 1;
        }
        assert_ne!(rt.current(), cur);
        if rt.current() != 0 {
            trace.unit_entries += 1;
        }
    }
    None
}

#[test]
fn new_runtime_has_the_base_slot_running() {
    let rt = Runtime::new();
    assert_eq!(MAX_THREADS, 4);
    assert_eq!(rt.capacity(), 4);
    assert_eq!(rt.current(), 0);
    assert_eq!(
        states(&rt),
        vec![State::Running, State::Available, State::Available, State::Available]
    );
    for i in 0..4 {
        let t = rt.thread(i).unwrap();
        assert_eq!(t.stack.len(), DEFAULT_STACK_SIZE);
        assert!(t.stack.iter().all(|b| *b == 0));
        assert_eq!(t.context, ThreadContext::default());
    }
    assert!(rt.thread(4).is_none());
}

#[test]
fn with_capacity_builds_that_many_slots() {
    let rt = Runtime::with_capacity(6, 128);
    assert_eq!(rt.capacity(), 6);
    assert_eq!(rt.current(), 0);
    assert_eq!(rt.thread(0).unwrap().state, State::Running);
    for i in 1..6 {
        assert_eq!(rt.thread(i).unwrap().state, State::Available);
        assert_eq!(rt.thread(i).unwrap().stack, vec![0u8; 128]);
    }
    assert!(rt.thread(6).is_none());
    assert!(rt.thread(usize::MAX).is_none());
}

#[test]
fn with_capacity_zero_still_has_the_base_slot() {
    let mut rt = Runtime::with_capacity(0, 64);
    assert_eq!(rt.capacity(), 1);
    assert_eq!(states(&rt), vec![State::Running]);
    assert_eq!(rt.first_available(), None);
    assert!(!rt.t_yield());
    assert_eq!(
        rt.try_spawn(0x1000, GUARD, SKIP, WORK),
        Err(SpawnError::NoAvailableSlot)
    );
}

#[test]
fn first_available_is_the_lowest_free_slot() {
    let mut rt = Runtime::with_capacity(4, 64);
    assert_eq!(rt.first_available(), Some(1));
    rt.spawn(0x1000, GUARD, SKIP, WORK);
    assert_eq!(rt.first_available(), Some(2));
    rt.spawn(0x2000, GUARD, SKIP, WORK);
    assert_eq!(rt.first_available(), Some(3));
    rt.spawn(0x3000, GUARD, SKIP, WORK);
    assert_eq!(rt.first_available(), None);
}

#[test]
fn spawn_writes_the_frame_and_marks_the_slot_ready() {
    let mut rt = Runtime::with_capacity(3, 64);
    rt.spawn(0x7000_1003, GUARD, SKIP, WORK);
    assert_eq!(rt.current(), 0);
    assert_eq!(states(&rt), vec![State::Running, State::Ready, State::Available]);
    let t = rt.thread(1).unwrap();
    // top 0x7000_1043 rounds down to 0x7000_1040; the stack pointer lies 32 below
    assert_eq!(t.context.rsp, 0x7000_1020);
    assert_eq!(t.context, ThreadContext { rsp: 0x7000_1020, ..ThreadContext::default() });
    let mut expected = vec![0u8; 64];
    expected[29..37].copy_from_slice(&WORK.to_le_bytes());
    expected[37..45].copy_from_slice(&SKIP.to_le_bytes());
    expected[45..53].copy_from_slice(&GUARD.to_le_bytes());
    assert_eq!(t.stack, expected);
    // nothing else was touched
    assert_eq!(rt.thread(0).unwrap().stack, vec![0u8; 64]);
    assert_eq!(rt.thread(2).unwrap().stack, vec![0u8; 64]);
    assert_eq!(rt.thread(2).unwrap().context, ThreadContext::default());
}

#[test]
fn try_spawn_returns_the_slot_it_used() {
    let mut rt = Runtime::with_capacity(3, 64);
    assert_eq!(rt.try_spawn(0x1000, GUARD, SKIP, WORK), Ok(1));
    assert_eq!(rt.try_spawn(0x2000, GUARD, SKIP, WORK + 8), Ok(2));
    assert_eq!(rt.thread(1).unwrap().context.rsp, 0x1020);
    assert_eq!(rt.thread(2).unwrap().context.rsp, 0x2020);
    assert_eq!(rt.thread(2).unwrap().stack[32..40], (WORK + 8).to_le_bytes());
}

#[test]
fn spawn_beyond_capacity_is_refused_and_changes_nothing() {
    let mut rt = Runtime::with_capacity(3, 64);
    assert_eq!(rt.try_spawn(0x1000, GUARD, SKIP, 0xaaaa), Ok(1));
    assert_eq!(rt.try_spawn(0x2000, GUARD, SKIP, 0xbbbb), Ok(2));
    let stacks: Vec<Vec<u8>> = (0..3).map(|i| rt.thread(i).unwrap().stack.clone()).collect();
    let contexts: Vec<ThreadContext> = (0..3).map(|i| rt.thread(i).unwrap().context).collect();
    assert_eq!(
        rt.try_spawn(0x3000, GUARD, SKIP, 0xcccc),
        Err(SpawnError::NoAvailableSlot)
    );
    assert_eq!(rt.capacity(), 3);
    assert_eq!(rt.current(), 0);
    assert_eq!(states(&rt), vec![State::Running, State::Ready, State::Ready]);
    for i in 0..3 {
        assert_eq!(rt.thread(i).unwrap().stack, stacks[i]);
        assert_eq!(rt.thread(i).unwrap().context, contexts[i]);
    }
}

#[test]
fn spawn_into_a_stack_that_is_too_small_is_refused() {
    let mut rt = Runtime::with_capacity(2, 31);
    assert_eq!(
        rt.try_spawn(0x1000, GUARD, SKIP, WORK),
        Err(SpawnError::FrameDoesNotFit)
    );
    assert_eq!(states(&rt), vec![State::Running, State::Available]);
    assert_eq!(rt.thread(1).unwrap().stack, vec![0u8; 31]);
    assert_eq!(rt.thread(1).unwrap().context, ThreadContext::default());
    let mut wide = Runtime::with_capacity(2, 64);
    assert_eq!(
        wide.try_spawn(u64::MAX - 8, GUARD, SKIP, WORK),
        Err(SpawnError::FrameDoesNotFit)
    );
    assert_eq!(wide.first_available(), Some(1));
}

#[test]
fn yield_without_waiting_work_reports_quiescence() {
    let mut rt = Runtime::with_capacity(4, 64);
    assert!(!rt.t_yield());
    assert_eq!(rt.current(), 0);
    assert_eq!(
        states(&rt),
        vec![State::Running, State::Available, State::Available, State::Available]
    );
}

#[test]
fn yield_switches_to_the_next_ready_slot() {
    let mut rt = Runtime::with_capacity(4, 64);
    rt.spawn(0x1000, GUARD, SKIP, WORK);
    rt.spawn(0x2000, GUARD, SKIP, WORK);
    assert!(rt.t_yield());
    assert_eq!(rt.current(), 1);
    assert_eq!(
        states(&rt),
        vec![State::Ready, State::Running, State::Ready, State::Available]
    );
    assert!(rt.t_yield());
    assert_eq!(rt.current(), 2);
    assert_eq!(
        states(&rt),
        vec![State::Ready, State::Ready, State::Running, State::Available]
    );
    // slot 3 is free and is passed over; the scan wraps to slot 0
    assert!(rt.t_yield());
    assert_eq!(rt.current(), 0);
    assert_eq!(
        states(&rt),
        vec![State::Running, State::Ready, State::Ready, State::Available]
    );
}

#[test]
fn yield_keeps_stacks_and_contexts() {
    let mut rt = Runtime::with_capacity(3, 64);
    rt.spawn(0x1000, GUARD, SKIP, WORK);
    let stack = rt.thread(1).unwrap().stack.clone();
    let context = rt.thread(1).unwrap().context;
    assert!(rt.t_yield());
    assert_eq!(rt.thread(1).unwrap().stack, stack);
    assert_eq!(rt.thread(1).unwrap().context, context);
    assert_eq!(rt.thread(0).unwrap().stack, vec![0u8; 64]);
}

#[test]
fn full_cycle_visits_every_ready_slot_once() {
    let mut rt = Runtime::with_capacity(5, 64);
    for i in 0..4u64 {
        rt.spawn(0x1000 * (i + 1), GUARD, SKIP, WORK);
    }
    let mut visited = Vec::new();
    for _ in 0..5 {
        assert!(rt.t_yield());
        visited.push(rt.current());
    }
    assert_eq!(visited, vec![1, 2, 3, 4, 0]);
    // the second cycle repeats the first
    let mut again = Vec::new();
    for _ in 0..5 {
        assert!(rt.t_yield());
        again.push(rt.current());
    }
    assert_eq!(again, visited);
}

#[test]
fn return_in_the_base_slot_does_nothing() {
    let mut rt = Runtime::with_capacity(3, 64);
    rt.spawn(0x1000, GUARD, SKIP, WORK);
    rt.t_return();
    assert_eq!(rt.current(), 0);
    assert_eq!(states(&rt), vec![State::Running, State::Ready, State::Available]);
}

#[test]
fn return_frees_the_slot_and_switches() {
    let mut rt = Runtime::with_capacity(3, 64);
    rt.spawn(0x1000, GUARD, SKIP, WORK);
    rt.spawn(0x2000, GUARD, SKIP, WORK);
    assert!(rt.t_yield());
    assert_eq!(rt.current(), 1);
    rt.t_return();
    assert_eq!(rt.current(), 2);
    assert_eq!(states(&rt), vec![State::Ready, State::Available, State::Running]);
    rt.t_return();
    assert_eq!(rt.current(), 0);
    assert_eq!(states(&rt), vec![State::Running, State::Available, State::Available]);
    assert!(!rt.t_yield());
}

#[test]
fn returned_slot_takes_new_work_that_runs_to_completion() {
    let mut rt = Runtime::with_capacity(3, 64);
    rt.spawn(0x1000, GUARD, SKIP, 0xaaaa);
    rt.spawn(0x2000, GUARD, SKIP, 0xbbbb);
    assert!(rt.t_yield());
    rt.t_return();
    // slot 1 is free again while slot 2 still has work: the run is not over
    assert_eq!(rt.current(), 2);
    assert_eq!(rt.thread(1).unwrap().state, State::Available);
    assert_eq!(rt.try_spawn(0x1000, GUARD, SKIP, 0xcccc), Ok(1));
    assert_eq!(rt.thread(1).unwrap().state, State::Ready);
    assert_eq!(rt.thread(1).unwrap().stack[32..40], 0xccccu64.to_le_bytes());
    let mut work = vec![Work::Yields(0), Work::Yields(2), Work::Yields(1)];
    let trace = drive(&mut rt, &mut work, 100).unwrap();
    assert_eq!(trace.order, vec![2, 1, 2, 1, 1]);
    assert_eq!(trace.unit_switches, 5);
    assert_eq!(states(&rt), vec![State::Running, State::Available, State::Available]);
}

#[test]
fn units_switch_once_per_yield_and_once_on_return() {
    for budgets in [vec![0u64], vec![3], vec![0, 0, 0], vec![5, 0, 2], vec![1, 7], vec![4, 4, 4]] {
        let mut rt = Runtime::with_capacity(4, 64);
        let mut work = vec![Work::Yields(0); 4];
        for (i, k) in budgets.iter().enumerate() {
            assert_eq!(rt.try_spawn(0x1000 * (i as u64 + 1), GUARD, SKIP, WORK), Ok(i + 1));
            work[i + 1] = Work::Yields(*k);
        }
        let expected: u64 = budgets.iter().map(|k| k + 1).sum();
        // the run is over within twice the load and one step
        let trace = drive(&mut rt, &mut work, 2 * expected as usize + 1).unwrap();
        assert_eq!(trace.unit_switches as u64, expected);
        assert_eq!(trace.unit_entries as u64, expected);
        assert_eq!(trace.order.len() as u64, expected);
        let rounds = budgets.iter().map(|k| k + 1).max().unwrap();
        assert_eq!(trace.base_switches as u64, rounds);
        assert!(trace.base_switches <= trace.unit_switches);
        for (i, k) in budgets.iter().enumerate() {
            let turns = trace.order.iter().filter(|s| **s == i + 1).count() as u64;
            assert_eq!(turns, k + 1);
        }
        assert_eq!(rt.current(), 0);
        assert_eq!(
            states(&rt),
            vec![State::Running, State::Available, State::Available, State::Available]
        );
    }
}

#[test]
fn run_without_units_ends_at_once() {
    let mut rt = Runtime::with_capacity(4, 64);
    let mut work = vec![Work::Yields(0); 4];
    let trace = drive(&mut rt, &mut work, 1).unwrap();
    assert_eq!(
        trace,
        Trace { order: vec![], unit_switches: 0, base_switches: 0, unit_entries: 0 }
    );
}

#[test]
fn run_from_the_middle_ends_too() {
    let mut rt = Runtime::with_capacity(3, 64);
    rt.spawn(0x1000, GUARD, SKIP, WORK);
    rt.spawn(0x2000, GUARD, SKIP, WORK);
    assert!(rt.t_yield());
    assert_eq!(rt.current(), 1);
    // slot 1 executes with one yield left, slot 2 waits with none: load 3
    let mut work = vec![Work::Yields(0), Work::Yields(1), Work::Yields(0)];
    let trace = drive(&mut rt, &mut work, 6).unwrap();
    assert_eq!(trace.order, vec![1, 2, 1]);
    assert_eq!(trace.unit_switches, 3);
    assert_eq!(trace.unit_entries, 2);
    assert_eq!(trace.base_switches, 1);
    assert_eq!(states(&rt), vec![State::Running, State::Available, State::Available]);
}

#[test]
fn spinning_unit_keeps_the_run_from_ending() {
    let mut rt = Runtime::with_capacity(4, 64);
    rt.spawn(0x1000, GUARD, SKIP, WORK);
    rt.spawn(0x2000, GUARD, SKIP, WORK);
    let mut work = vec![Work::Yields(0), Work::Yields(2), Work::Spins, Work::Yields(0)];
    assert_eq!(drive(&mut rt, &mut work, 10_000), None);
    // the unit that spins still holds the processor, and nothing else moved on
    assert_eq!(rt.current(), 2);
    assert_eq!(
        states(&rt),
        vec![State::Ready, State::Ready, State::Running, State::Available]
    );
    assert_eq!(work[1], Work::Yields(1));
}

#[test]
fn two_units_of_nine_rounds_alternate() {
    let mut rt = Runtime::new();
    let base1 = rt.thread(1).unwrap().stack.as_ptr() as u64;
    let base2 = rt.thread(2).unwrap().stack.as_ptr() as u64;
    rt.spawn(base1, GUARD, SKIP, WORK);
    rt.spawn(base2, GUARD, SKIP, WORK + 0x100);
    assert_eq!(
        states(&rt),
        vec![State::Running, State::Ready, State::Ready, State::Available]
    );
    let top1 = (base1 + DEFAULT_STACK_SIZE as u64) & !0xf;
    assert_eq!(rt.thread(1).unwrap().context.rsp, top1 - 32);
    assert_eq!(rt.thread(1).unwrap().context.rsp % 16, 0);
    let mut work = vec![Work::Yields(0), Work::Yields(9), Work::Yields(9), Work::Yields(0)];
    let trace = drive(&mut rt, &mut work, 1000).unwrap();
    let mut expected = Vec::new();
    for _ in 0..10 {
        expected.push(1);
        expected.push(2);
    }
    assert_eq!(trace.order, expected);
    assert_eq!(trace.unit_switches, 20);
    assert_eq!(trace.unit_entries, 20);
    assert_eq!(trace.base_switches, 10);
    assert_eq!(rt.current(), 0);
    assert_eq!(
        states(&rt),
        vec![State::Running, State::Available, State::Available, State::Available]
    );
    assert!(!rt.t_yield());
}
