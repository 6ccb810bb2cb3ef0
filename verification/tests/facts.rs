use lab_runtime::facts::{text_less, FactTable, Target};

#[test]
fn target_keys_and_kinds() {
    assert_eq!(Target::Signal { instrument: 12, parameter: 3 }.key(), "signal:12:3");
    assert_eq!(Target::Output { instrument: 1, parameter: 2 }.key(), "output:1:2");
    assert_eq!(Target::Controller(7).key(), "controller:7");
    assert_eq!(Target::Reference(0).key(), "reference:0");
    assert_eq!(Target::Component(45).key(), "component:45");
    assert_eq!(Target::Component(45).kind(), "component");
    assert_eq!(Target::Signal { instrument: 1, parameter: 1 }.kind(), "signal");
}

#[test]
fn text_order_is_string_order() {
    for (a, b) in [("a", "b"), ("ab", "a"), ("", "a"), ("component:12", "component:3"), ("x", "x"), ("é", "z")] {
        assert_eq!(text_less(a, b), a < b, "{a} {b}");
        assert_eq!(text_less(b, a), b < a, "{b} {a}");
    }
}

#[test]
fn targets_are_tracked_once_in_key_order() {
    let mut table = FactTable::new();
    assert_eq!(table.track(Target::Signal { instrument: 2, parameter: 1 }), Some(0));
    assert_eq!(table.track(Target::Controller(9)), Some(0));
    assert_eq!(table.track(Target::Component(12)), Some(0));
    assert_eq!(table.track(Target::Component(3)), Some(1));
    assert_eq!(table.track(Target::Controller(9)), None);
    let keys: Vec<String> = table.targets().iter().map(Target::key).collect();
    assert_eq!(keys, vec!["component:12", "component:3", "controller:9", "signal:2:1"]);
}

#[test]
fn only_changed_facts_are_published() {
    let mut table = FactTable::new();
    table.track(Target::Reference(1));
    table.track(Target::Reference(2));
    table.track(Target::Reference(3));
    let current = vec![Some(b"a".to_vec()), None, Some(b"c".to_vec())];
    assert_eq!(table.changed(&current), vec![0, 2]);
    table.publish(0, b"a".to_vec());
    table.publish(2, b"c".to_vec());
    assert!(table.changed(&current).is_empty());
    let next = vec![Some(b"a".to_vec()), Some(b"b".to_vec()), Some(b"C".to_vec())];
    assert_eq!(table.changed(&next), vec![1, 2]);
    let projection = table.projection();
    assert_eq!(
        projection,
        vec![(Target::Reference(1), b"a".to_vec()), (Target::Reference(3), b"c".to_vec())]
    );
}
