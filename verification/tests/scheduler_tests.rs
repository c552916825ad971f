use todoclist::scheduler::RefreshScheduler;

#[test]
fn refresh_becomes_due_after_a_full_interval() {
    let mut s = RefreshScheduler::new(10);
    assert_eq!(s.refresh_interval, 10);
    assert_eq!(s.flush_interval, 2);
    assert!(!s.should_refresh(9));
    assert!(s.should_refresh(10));
    s.note_refresh(10);
    assert!(!s.should_refresh(19));
    assert!(s.should_refresh(20));
}

#[test]
fn a_failed_cycle_still_waits_a_full_interval() {
    let mut s = RefreshScheduler::new(10);
    s.note_refresh(25);
    assert!(!s.should_refresh(26));
    assert!(!s.should_refresh(34));
    assert!(s.should_refresh(35));
}

#[test]
fn flush_runs_on_its_own_shorter_cadence() {
    let mut s = RefreshScheduler::new(10);
    assert!(s.should_flush(2));
    s.note_flush(2);
    assert!(!s.should_flush(3));
    assert!(s.should_flush(4));
    // The refresh timer is untouched by flushes.
    assert!(s.should_refresh(10));
}

#[test]
fn a_zero_interval_is_always_due() {
    let s = RefreshScheduler::new(0);
    assert!(s.should_refresh(0));
}
