use chip8::timer::Timer;

#[test]
fn started_timer_reaches_zero_after_ten_periods() {
    let mut t = Timer::new();
    t.set(10);
    t.start();
    for k in 0..10u8 {
        assert_eq!(t.get(), 10 - k);
        t.tick();
    }
    assert_eq!(t.get(), 0);
    t.tick();
    t.tick();
    assert_eq!(t.get(), 0);
}

#[test]
fn set_overrides_a_running_countdown() {
    let mut t = Timer::new();
    t.set(10);
    t.start();
    t.tick();
    t.tick();
    assert_eq!(t.get(), 8);
    t.set(200);
    assert_eq!(t.get(), 200);
    t.tick();
    assert_eq!(t.get(), 199);
}

#[test]
fn timer_counts_only_once_started() {
    let mut t = Timer::new();
    assert_eq!(t.get(), 0);
    assert!(!t.is_running());
    t.set(5);
    t.tick();
    assert_eq!(t.get(), 5);
    t.start();
    assert!(t.is_running());
    t.tick();
    assert_eq!(t.get(), 4);
}
