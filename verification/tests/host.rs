use lab_runtime::host::{Clock, Periodic, ScheduleError, SystemClock, MAX_DURATION_NANOS};

#[test]
fn periodic_slots_coalesce_missed_deadlines_and_keep_phase() {
    let mut slot = Periodic::new(100);
    assert!(slot.due(0));
    assert_eq!(slot.take(0), Ok(Some(0)));
    assert_eq!(slot.next_due(), 100);
    assert!(!slot.due(99));
    assert_eq!(slot.take(99), Ok(None));
    assert_eq!(slot.take(350), Ok(Some(2)));
    assert_eq!(slot.next_due(), 400);
    assert!(!slot.due(350));
}

#[test]
fn periodic_slots_refuse_unrepresentable_deadlines() {
    let mut slot = Periodic::new(MAX_DURATION_NANOS);
    assert_eq!(slot.take(0), Ok(Some(0)));
    assert_eq!(slot.next_due(), MAX_DURATION_NANOS);
    assert_eq!(slot.take(MAX_DURATION_NANOS), Err(ScheduleError::TimeExhausted));
    assert_eq!(slot.next_due(), MAX_DURATION_NANOS);
    let mut one = Periodic::new(1);
    assert_eq!(one.take(MAX_DURATION_NANOS), Err(ScheduleError::CountExhausted));
}

#[test]
fn system_clock_is_monotonic() {
    let clock = SystemClock::new();
    let first = clock.now();
    let second = clock.now();
    assert!(second >= first);
}
