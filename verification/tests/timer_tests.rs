use oracular::canister::TimerScheduler;

#[test]
fn test_arm_gives_fresh_handles() {
    let mut timers = TimerScheduler::new();
    let a = timers.arm(5).unwrap();
    let b = timers.arm(7).unwrap();
    assert_ne!(a, b);
    assert!(timers.is_armed(a));
    assert!(timers.is_armed(b));
}

#[test]
fn test_cancel_disarms_only_its_timer() {
    let mut timers = TimerScheduler::new();
    let a = timers.arm(5).unwrap();
    let b = timers.arm(7).unwrap();

    timers.cancel(a);
    assert!(!timers.is_armed(a));
    assert!(timers.is_armed(b));

    // Cancelling an already cancelled handle does nothing.
    timers.cancel(a);
    assert!(timers.is_armed(b));
}

#[test]
fn test_handles_are_never_reused() {
    let mut timers = TimerScheduler::new();
    let a = timers.arm(5).unwrap();
    timers.cancel(a);
    let b = timers.arm(5).unwrap();
    assert_ne!(a, b);
    assert!(!timers.is_armed(a));
}
