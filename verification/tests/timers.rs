use wasm_codegen::timers::{PollStep, TimerFuture, Timers};

#[test]
fn timer_future_sets_its_timer_once() {
    let mut f = TimerFuture::new(100, 50);
    assert_eq!(f.poll(120), PollStep::SetTimer(150));
    assert_eq!(f.poll(140), PollStep::Wait);
    assert_eq!(f.poll(150), PollStep::Ready);
    assert_eq!(f.poll(10_000), PollStep::Ready);
}

#[test]
fn tick_fires_due_timers_in_order() {
    let mut t = Timers::new();
    t.set_timeout("a", 10);
    t.set_timeout("b", 50);
    t.set_timeout("c", 5);
    t.set_timeout("d", 60);
    let fired = t.run_tick(20);
    assert_eq!(fired, vec!["a", "c"]);
    assert_eq!(t.run_tick(55), vec!["b"]);
    assert_eq!(t.run_tick(1000), vec!["d"]);
    assert_eq!(t.run_tick(2000), Vec::<&str>::new());
}

#[test]
fn tick_timers_not_due_stay() {
    let mut t = Timers::new();
    t.set_timeout(1, 10);
    assert_eq!(t.run_tick(10), Vec::<i32>::new());
    assert_eq!(t.run_tick(11), vec![1]);
}

#[test]
fn tick_that_would_remove_out_of_bounds_is_refused() {
    let mut t = Timers::new();
    t.set_timeout("a", 1);
    t.set_timeout("b", 100);
    t.set_timeout("c", 1);
    assert!(!t.can_run_tick(50));
    assert_eq!(t.try_run_tick(50), None);
    assert!(t.can_run_tick(1));
    assert_eq!(t.try_run_tick(200), None);
    t.set_timeout("d", 300);
    assert_eq!(t.try_run_tick(50), Some(vec!["a", "c"]));
}
