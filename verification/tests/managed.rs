use lab_runtime::managed::{
    advance_cursor, component_property_metadata, idle_slot, poll_order, slide_window,
    WorkerBarrier,
};

#[test]
fn moving_mean_registration_exposes_its_window_property() {
    let properties = component_property_metadata("native.moving_mean.v1");
    assert_eq!(properties.len(), 1);
    assert_eq!(properties[0].id, "window");
    assert_eq!(properties[0].value_type, "integer");
    assert_eq!(properties[0].minimum, Some(2));
    assert_eq!(properties[0].maximum, Some(64));
    assert_eq!(properties[0].mutation_class, "reinitialize");
    assert!(component_property_metadata("lua.script.v1").is_empty());
}

#[test]
fn jobs_rotate_over_idle_slots_without_backlog() {
    assert_eq!(idle_slot(&vec![false, false], 0), Some(0));
    assert_eq!(idle_slot(&vec![false, false], 1), Some(1));
    assert_eq!(idle_slot(&vec![true, false], 0), Some(1));
    assert_eq!(idle_slot(&vec![false, true], 1), Some(0));
    assert_eq!(idle_slot(&vec![true, true], 0), None);
    assert_eq!(advance_cursor(0), 1);
    assert_eq!(advance_cursor(1), 0);
    assert_eq!(poll_order(1), vec![1, 0]);
    assert_eq!(poll_order(0), vec![0, 1]);
}

#[test]
fn moving_window_keeps_newest_samples() {
    let (values, ready) = slide_window(&Vec::<f64>::new(), 3, 1.0);
    assert_eq!(values, vec![1.0]);
    assert!(!ready);
    let (values, ready) = slide_window(&vec![1.0, 2.0], 3, 3.0);
    assert_eq!(values, vec![1.0, 2.0, 3.0]);
    assert!(ready);
    let (values, ready) = slide_window(&vec![1.0, 2.0, 3.0], 3, 4.0);
    assert_eq!(values, vec![2.0, 3.0, 4.0]);
    assert!(ready);
}

#[test]
fn barrier_starts_disabled_and_counts_arrivals() {
    let barrier = WorkerBarrier::new();
    assert!(!barrier.is_enabled());
    assert_eq!(barrier.entered(), 0);
    barrier.enable();
    barrier.arrive();
    barrier.arrive();
    assert!(barrier.is_enabled());
    assert_eq!(barrier.entered(), 2);
    assert!(!barrier.is_released());
    barrier.release();
    assert!(barrier.is_released());
}
