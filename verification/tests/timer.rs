use shion_watcher::timer::{Timer, TimerMode};

#[test]
fn test_timeout() {
    // A two-second one-shot, reset after one second, fires three seconds
    // after its start and not before; a reset after it fired starts it again.
    let mut timer = Timer::new(2000, 0);
    timer.timeout();
    println!("start: {:?}", 0);
    assert!(!timer.poll(1000));
    println!("restart {:?}", 1000);
    timer.reset(1000);
    assert!(!timer.poll(2000));
    assert!(!timer.poll(2999));
    assert!(timer.poll(3000));
    println!("end: {:?}", 3000);
    assert!(timer.is_done());
    assert!(!timer.poll(4000));
    println!("after timer done, reset  {:?}", 4000);
    timer.reset(4000);
    assert!(!timer.is_done());
    assert!(!timer.poll(5999));
    assert!(timer.poll(6000));
}

#[test]
fn test_interval() {
    let mut timer = Timer::new(5000, 0);
    timer.interval();
    assert!(!timer.poll(4999));
    assert!(timer.poll(5000));
    println!("now: {:?}", 5000);
    assert!(!timer.poll(9999));
    assert!(timer.poll(10000));
    println!("now: {:?}", 10000);
    assert!(!timer.is_done());
}

#[test]
fn new_timer_is_idle_and_never_fires() {
    let mut timer = Timer::new(10, 0);
    assert_eq!(timer.mode(), TimerMode::Idle);
    assert!(!timer.is_done());
    assert!(!timer.poll(1_000_000));
    assert!(!timer.is_due(u64::MAX));
}

#[test]
fn one_shot_fires_exactly_once() {
    let mut timer = Timer::new(100, 50);
    timer.timeout();
    assert_eq!(timer.mode(), TimerMode::OneShot);
    assert!(!timer.poll(149));
    assert!(timer.is_due(150));
    assert!(timer.poll(150));
    assert!(!timer.poll(150));
    assert!(!timer.poll(10_000));
}

#[test]
fn reset_before_firing_silences_the_first_deadline() {
    let mut timer = Timer::new(100, 0);
    timer.timeout();
    timer.reset(60);
    assert!(!timer.poll(100));
    assert!(!timer.poll(159));
    assert!(timer.poll(160));
}

#[test]
fn reset_twice_at_one_instant_is_reset_once() {
    let mut once = Timer::new(100, 0);
    once.timeout();
    once.reset(30);
    let mut twice = Timer::new(100, 0);
    twice.timeout();
    twice.reset(30);
    twice.reset(30);
    for now in [0u64, 29, 30, 129, 130, 500] {
        assert_eq!(once.is_due(now), twice.is_due(now));
    }
}

#[test]
fn repeating_timer_counts_from_each_firing_and_reset_only_moves_its_start() {
    let mut timer = Timer::new(16, 0);
    timer.interval();
    assert!(timer.poll(20));
    assert!(!timer.poll(35));
    assert!(timer.poll(36));
    timer.reset(40);
    assert_eq!(timer.mode(), TimerMode::Repeating);
    assert!(!timer.poll(55));
    assert!(timer.poll(56));
}

#[test]
fn an_instant_before_the_start_counts_as_no_time_gone_by() {
    let mut timer = Timer::new(5, 100);
    timer.timeout();
    assert!(!timer.poll(0));
    assert!(!timer.poll(104));
    assert!(timer.poll(105));
}

#[test]
fn zero_duration_one_shot_fires_at_the_first_poll() {
    let mut timer = Timer::new(0, 10);
    timer.timeout();
    assert!(timer.poll(0));
    assert!(!timer.poll(20));
}
