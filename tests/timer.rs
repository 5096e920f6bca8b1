use async_tutorial::completion::{deadline_after, Expiry, SharedCompletion};
use async_tutorial::timer::{Timer, TimerPoll};

const MS: u64 = 1_000_000;

fn is_pending(p: &TimerPoll, start: bool) -> bool {
    match p {
        TimerPoll::Pending { start: s } => *s == start,
        TimerPoll::Ready => false,
    }
}

#[test]
fn new_timer_is_lazy() {
    let t = Timer::new(100 * MS);
    let shared: SharedCompletion<u32> = SharedCompletion::new();
    assert!(!t.is_started());
    assert_eq!(t.duration_nanos(), 100 * MS);
    assert!(!shared.is_completed());
    assert_eq!(shared.armed_deadline(), None);
}

#[test]
fn first_poll_starts_and_arms() {
    let mut t = Timer::new(100 * MS);
    let mut shared: SharedCompletion<u32> = SharedCompletion::new();
    let p = t.poll(&mut shared, 5 * MS, 1);
    assert!(is_pending(&p, true));
    assert!(t.is_started());
    assert_eq!(shared.armed_deadline(), Some(105 * MS));
}

#[test]
fn repeated_polls_start_only_once() {
    let mut t = Timer::new(100 * MS);
    let mut shared: SharedCompletion<u32> = SharedCompletion::new();
    let mut starts = 0;
    for i in 0..50u64 {
        match t.poll(&mut shared, i * MS, i as u32) {
            TimerPoll::Pending { start: true } => starts += 1,
            TimerPoll::Pending { start: false } => {}
            TimerPoll::Ready => panic!("not yet due"),
        }
    }
    assert_eq!(starts, 1);
    assert_eq!(shared.armed_deadline(), Some(100 * MS));
}

#[test]
fn latest_waker_is_the_one_triggered() {
    let mut t = Timer::new(10 * MS);
    let mut shared: SharedCompletion<u32> = SharedCompletion::new();
    t.poll(&mut shared, 0, 7);
    t.poll(&mut shared, MS, 8);
    t.poll(&mut shared, 2 * MS, 9);
    match shared.fire(10 * MS) {
        Expiry::Fired(w) => assert_eq!(w, Some(9)),
        _ => panic!("deadline reached"),
    }
    match shared.fire(11 * MS) {
        Expiry::Fired(w) => assert_eq!(w, None),
        _ => panic!("already completed"),
    }
}

#[test]
fn fire_before_deadline_reports_time_left() {
    let mut t = Timer::new(100 * MS);
    let mut shared: SharedCompletion<u32> = SharedCompletion::new();
    t.poll(&mut shared, 20 * MS, 1);
    match shared.fire(50 * MS) {
        Expiry::Early(left) => assert_eq!(left, 70 * MS),
        _ => panic!("deadline is at 120 ms"),
    }
    assert!(!shared.is_completed());
}

#[test]
fn fire_unarmed_does_nothing() {
    let mut shared: SharedCompletion<u32> = SharedCompletion::new();
    assert!(matches!(shared.fire(1_000 * MS), Expiry::Unarmed));
    assert!(!shared.is_completed());
}

#[test]
fn timer_never_completes_early() {
    // Durations of several sizes, with the clock ticking 1 ms at a time.
    for d in [0u64, 1, 50, 100, 250] {
        let mut t = Timer::new(d * MS);
        let mut shared: SharedCompletion<u32> = SharedCompletion::new();
        let start = 3 * MS;
        assert!(is_pending(&t.poll(&mut shared, start, 0), true));
        let mut now = start;
        loop {
            let _ = shared.fire(now);
            if let TimerPoll::Ready = t.poll(&mut shared, now, 0) {
                break;
            }
            now += MS;
        }
        assert!(now - start >= d * MS);
        assert_eq!(now - start, d * MS);
    }
}

#[test]
fn dropped_timer_lets_thread_finish() {
    let mut t = Timer::new(500 * MS);
    let mut shared: SharedCompletion<u32> = SharedCompletion::new();
    assert!(is_pending(&t.poll(&mut shared, 0, 4), true));
    drop(t);
    // The timing side still finishes normally, handing over the last waker.
    assert!(matches!(shared.fire(100 * MS), Expiry::Early(_)));
    match shared.fire(500 * MS) {
        Expiry::Fired(w) => assert_eq!(w, Some(4)),
        _ => panic!("deadline reached"),
    }
    assert!(shared.is_completed());
}

#[test]
fn deadline_saturates_at_clock_end() {
    assert_eq!(deadline_after(10, 20), 30);
    assert_eq!(deadline_after(u64::MAX - 5, 10), u64::MAX);
}

#[test]
fn poll_or_register_reports_completion() {
    let mut shared: SharedCompletion<u32> = SharedCompletion::new();
    assert!(!shared.poll_or_register(1));
    shared.arm(100);
    match shared.fire(100) {
        Expiry::Fired(w) => assert_eq!(w, Some(1)),
        _ => panic!("deadline reached"),
    }
    assert!(shared.poll_or_register(2));
    assert!(shared.is_completed());
}
