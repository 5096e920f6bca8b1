use std::cell::{Cell, RefCell};
use std::rc::Rc;

use async_tutorial::completion::SharedCompletion;
use async_tutorial::executor::{Executor, Turn};
use async_tutorial::timer::{Timer, TimerPoll};

const MS: u64 = 1_000_000;

#[test]
fn spawn_queues_without_driving() {
    let mut ex: Executor<u32> = Executor::new();
    assert!(ex.is_empty());
    ex.spawn(3);
    ex.spawn(1);
    assert_eq!(ex.len(), 2);
}

#[test]
fn turn_on_empty_queue_is_idle() {
    let mut ex: Executor<u32> = Executor::new();
    let drive = |n: u32| if n == 0 { None } else { Some(n - 1) };
    assert!(matches!(ex.turn(&drive), Turn::Idle));
    assert!(ex.is_empty());
}

#[test]
fn pending_tasks_are_retried_round_robin() {
    let order = RefCell::new(Vec::new());
    let mut ex: Executor<(char, u32)> = Executor::new();
    ex.spawn(('a', 2));
    ex.spawn(('b', 0));
    ex.spawn(('c', 1));
    let drive = |(name, left): (char, u32)| {
        order.borrow_mut().push(name);
        if left == 0 {
            None
        } else {
            Some((name, left - 1))
        }
    };
    let mut turns = Vec::new();
    loop {
        match ex.turn(&drive) {
            Turn::Idle => break,
            Turn::Finished => turns.push('F'),
            Turn::Requeued => turns.push('R'),
        }
    }
    assert_eq!(*order.borrow(), vec!['a', 'b', 'c', 'a', 'c', 'a']);
    assert_eq!(turns, vec!['R', 'F', 'R', 'R', 'F', 'F']);
    assert!(ex.is_empty());
}

#[test]
fn test_executor() {
    // A single task wrapping a 100 ms timer, with a clock advanced by 1 ms
    // between turns and the timing side firing the shared state.
    let clock = Cell::new(0u64);
    let shared: Rc<RefCell<SharedCompletion<u32>>> = Rc::new(RefCell::new(SharedCompletion::new()));
    let result: RefCell<Option<u64>> = RefCell::new(None);
    let mut ex: Executor<Timer> = Executor::new();
    ex.spawn(Timer::new(100 * MS));
    let drive = |mut t: Timer| {
        let p = t.poll(&mut shared.borrow_mut(), clock.get(), 0);
        match p {
            TimerPoll::Ready => {
                *result.borrow_mut() = Some(t.duration_nanos());
                None
            }
            TimerPoll::Pending { .. } => Some(t),
        }
    };
    let mut turns = 0;
    while !matches!(ex.turn(&drive), Turn::Idle) {
        turns += 1;
        clock.set(clock.get() + MS);
        let _ = shared.borrow_mut().fire(clock.get());
    }
    assert!(ex.is_empty());
    assert_eq!(*result.borrow(), Some(100 * MS));
    assert_eq!(turns, 101);
    assert!(clock.get() >= 100 * MS);
}
