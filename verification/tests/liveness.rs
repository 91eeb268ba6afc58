use tdk::liveness::{acquire_step, is_running, AcquireStep, LockProbe, ACQUIRE_ATTEMPTS, LOCK_NAME};

#[test]
fn only_a_refused_shared_lock_means_a_console_is_running() {
    assert!(is_running(LockProbe::Refused));
    assert!(!is_running(LockProbe::Granted));
    assert!(!is_running(LockProbe::Unavailable));
}

#[test]
fn a_granted_exclusive_lock_is_kept_at_any_attempt() {
    for attempt in 0..ACQUIRE_ATTEMPTS {
        assert_eq!(acquire_step(attempt, true), AcquireStep::Acquired);
    }
}

#[test]
fn a_refused_exclusive_lock_is_retried_until_the_last_attempt() {
    assert_eq!(ACQUIRE_ATTEMPTS, 5);
    for attempt in 0..4 {
        assert_eq!(acquire_step(attempt, false), AcquireStep::Retry);
    }
    assert_eq!(acquire_step(4, false), AcquireStep::GiveUp);
}

#[test]
fn the_lock_file_has_its_well_known_name() {
    assert_eq!(LOCK_NAME, "tdk.lock");
}
