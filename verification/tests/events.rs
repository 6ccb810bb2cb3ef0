use lab_runtime::events::{EventError, EventLog, EVENT_RING_LIMIT, EVENT_SCAN_LIMIT, EVENT_SIZE_LIMIT};

fn seqs(records: &[lab_runtime::events::EventRecord]) -> Vec<u64> {
    records.iter().map(|record| record.seq).collect()
}

#[test]
fn publication_is_sequenced_and_replayed_after_a_cursor() {
    let mut log = EventLog::new("boot-a");
    assert_eq!(log.latest_cursor(), 0);
    assert_eq!(log.oldest_cursor(), 0);
    assert_eq!(log.boot_id(), "boot-a");
    assert_eq!(log.append("one".to_owned(), 10), Ok(1));
    assert_eq!(log.append("two".to_owned(), 10), Ok(2));
    assert_eq!(log.append("three".to_owned(), 10), Ok(3));
    let replay = log.after(1).unwrap();
    assert_eq!(seqs(&replay), vec![2, 3]);
    assert_eq!(replay[0].text, "two");
    assert!(log.after(3).unwrap().is_empty());
    assert_eq!(log.after(4).unwrap_err(), EventError::Future);
    assert_eq!(seqs(&log.scan_after(0, 2).unwrap()), vec![1, 2]);
}

#[test]
fn oversized_records_are_refused_without_consuming_a_sequence() {
    let mut log = EventLog::new("boot");
    assert_eq!(log.append("x".to_owned(), EVENT_SIZE_LIMIT + 2), Err(EventError::Oversized));
    assert_eq!(log.latest_cursor(), 0);
    assert_eq!(log.append("x".to_owned(), EVENT_SIZE_LIMIT + 1), Ok(1));
}

#[test]
fn the_ring_evicts_oldest_and_reports_gaps() {
    let mut log = EventLog::new("boot");
    for index in 0..(EVENT_RING_LIMIT + 5) {
        log.append(format!("e{index}"), 8).unwrap();
    }
    assert_eq!(log.latest_cursor(), (EVENT_RING_LIMIT + 5) as u64);
    assert_eq!(log.oldest_cursor(), 5);
    assert_eq!(log.after(4).unwrap_err(), EventError::Gap);
    let replay = log.after(5).unwrap();
    assert_eq!(replay.len(), EVENT_SCAN_LIMIT);
    assert_eq!(replay[0].seq, 6);
    assert_eq!(replay[0].text, "e5");
}

#[test]
fn resetting_identity_forgets_old_cursors() {
    let mut log = EventLog::new("old");
    log.append("a".to_owned(), 1).unwrap();
    log.set_boot_id("new");
    assert_eq!(log.boot_id(), "new");
    assert_eq!(log.latest_cursor(), 0);
    assert_eq!(log.after(1).unwrap_err(), EventError::Future);
}
