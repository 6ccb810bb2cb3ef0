//! Bounded transient publication ring for semantic events.
//!
//! Sequence is publication order within one boot identity, not durable history.
//! The ring keeps the newest `EVENT_RING_LIMIT` encoded records; pressure evicts the
//! oldest record and a reader whose cursor fell behind is told so (`Gap`) rather than
//! silently skipped forward.
use std::collections::VecDeque;
use vstd::prelude::*;

verus! {

/// Fixed maximum retained semantic records; eviction never blocks producers.
pub const EVENT_RING_LIMIT: usize = 1024;

/// Fixed maximum encoded bytes for one semantic record.
pub const EVENT_SIZE_LIMIT: usize = 4096;

/// Maximum records handed out by one replay scan.
pub const EVENT_SCAN_LIMIT: usize = 32;

/// Ring cursor rejection: old history was lost or a future sequence was offered.
#[derive(Clone, Copy, Debug, PartialEq, Eq, Structural)]
pub enum EventError {
    /// Cursor predates the first retained event's predecessor.
    Gap,
    /// Cursor is ahead of this process's last committed publication.
    Future,
    /// A sequence cannot advance without wrapping into an older identity.
    Exhausted,
    /// A public fact would exceed the fixed event record size.
    Oversized,
}

/// One retained publication: its sequence and its encoded record text.
#[derive(Clone, Debug)]
pub struct EventRecord {
    /// Publication sequence, starting at one after each boot identity reset.
    pub seq: u64,
    /// The encoded record, exactly as it will be delivered.
    pub text: String,
}

/// Abstract value of a retained record: its sequence and its text.
pub open spec fn record_view(r: EventRecord) -> (u64, Seq<char>) {
    (r.seq, r.text@)
}

/// Boot identity, last committed sequence and the retained replay window.
pub struct EventLog {
    boot_id: String,
    sequence: u64,
    ring: VecDeque<EventRecord>,
}

/// The retained window is consecutive and ends at the last published sequence.
pub open spec fn window_consecutive(sequence: u64, ring: Seq<EventRecord>) -> bool {
    &&& ring.len() <= EVENT_RING_LIMIT
    &&& ring.len() <= sequence
    &&& forall|i: int| 0 <= i < ring.len() ==> #[trigger] ring[i].seq == sequence - ring.len() + 1 + i
}

impl EventLog {
    /// Well-formedness: the retained window is consecutive and ends at the last
    /// published sequence.
    pub closed spec fn wf(self) -> bool {
        window_consecutive(self.sequence, self.ring@)
    }

    /// Last published sequence (zero before the first publication).
    pub closed spec fn spec_latest(self) -> u64 {
        self.sequence
    }

    /// Retained records, oldest first.
    pub closed spec fn spec_ring(self) -> Seq<EventRecord> {
        self.ring@
    }

    /// Current process identity.
    pub closed spec fn spec_boot_id(self) -> Seq<char> {
        self.boot_id@
    }

    /// Earliest cursor from which complete replay remains possible.
    pub open spec fn spec_oldest(self) -> int {
        self.spec_latest() - self.spec_ring().len()
    }

    /// Retained records that survive one more publication (the oldest is evicted
    /// when the ring is full).
    pub open spec fn spec_kept(self) -> Seq<EventRecord> {
        if self.spec_ring().len() == EVENT_RING_LIMIT {
            self.spec_ring().subrange(1, EVENT_RING_LIMIT as int)
        } else {
            self.spec_ring()
        }
    }

    /// Records strictly after `cursor`, at most `count` of them, oldest first.
    pub open spec fn spec_after(self, cursor: u64, count: int) -> Seq<EventRecord> {
        let skip = cursor - self.spec_oldest();
        let rest = self.spec_ring().subrange(skip, self.spec_ring().len() as int);
        if rest.len() <= count {
            rest
        } else {
            rest.subrange(0, count)
        }
    }

    /// Start a log with no publication under the given identity.
    pub fn new(boot_id: &str) -> (log: Self)
        ensures
            log.wf(),
            log.spec_latest() == 0,
            log.spec_ring().len() == 0,
            log.spec_boot_id() == boot_id@,
    {
        EventLog { boot_id: boot_id.to_owned(), sequence: 0, ring: VecDeque::new() }
    }

    /// Reset process identity before readiness, preserving no old process cursor.
    pub fn set_boot_id(&mut self, boot_id: &str)
        ensures
            final(self).wf(),
            final(self).spec_latest() == 0,
            final(self).spec_ring().len() == 0,
            final(self).spec_boot_id() == boot_id@,
    {
        self.boot_id = boot_id.to_owned();
        self.ring = VecDeque::new();
        self.sequence = 0;
    }

    /// Freshest committed publication sequence, zero before the first event.
    pub fn latest_cursor(&self) -> (cursor: u64)
        ensures
            cursor == self.spec_latest(),
    {
        self.sequence
    }

    /// Earliest cursor from which complete replay remains possible.
    pub fn oldest_cursor(&self) -> (cursor: u64)
        requires
            self.wf(),
        ensures
            cursor == self.spec_oldest(),
            self.spec_ring().len() == 0 ==> cursor == self.spec_latest(),
            self.spec_ring().len() > 0 ==> cursor == self.spec_ring()[0].seq - 1,
    {
        if self.ring.len() == 0 {
            self.sequence
        } else {
            self.ring[0].seq - 1
        }
    }

    /// Process-local identity required for cursor verification.
    pub fn boot_id(&self) -> (id: &str)
        ensures
            id@ == self.spec_boot_id(),
    {
        self.boot_id.as_str()
    }

    /// Publish one encoded record as the next sequence.
    ///
    /// `encoded_len` is the length of the record's framed encoding; a record whose
    /// frame exceeds the fixed bound plus its line terminator is refused. When the
    /// ring is full the oldest record is evicted first.
    pub fn append(&mut self, text: String, encoded_len: usize) -> (result: Result<u64, EventError>)
        requires
            old(self).wf(),
        ensures
            final(self).wf(),
            old(self).spec_latest() == u64::MAX ==> result == Err::<u64, EventError>(EventError::Exhausted),
            old(self).spec_latest() < u64::MAX && encoded_len > EVENT_SIZE_LIMIT + 1
                ==> result == Err::<u64, EventError>(EventError::Oversized),
            result is Err ==> *final(self) == *old(self),
            old(self).spec_latest() < u64::MAX && encoded_len <= EVENT_SIZE_LIMIT + 1 ==> {
                let kept = old(self).spec_kept();
                &&& result == Ok::<u64, EventError>((old(self).spec_latest() + 1) as u64)
                &&& final(self).spec_latest() == old(self).spec_latest() + 1
                &&& final(self).spec_ring() == kept.push(EventRecord { seq: (old(self).spec_latest() + 1) as u64, text })
                &&& final(self).spec_boot_id() == old(self).spec_boot_id()
            },
    {
        if self.sequence == u64::MAX {
            return Err(EventError::Exhausted);
        }
        let sequence = self.sequence + 1;
        if encoded_len > EVENT_SIZE_LIMIT + 1 {
            return Err(EventError::Oversized);
        }
        let ghost before = self.ring@;
        if self.ring.len() == EVENT_RING_LIMIT {
            let _ = self.ring.pop_front();
        }
        let ghost kept = self.ring@;
        self.ring.push_back(EventRecord { seq: sequence, text });
        proof {
            assert forall|i: int| 0 <= i < self.ring@.len() implies #[trigger] self.ring@[i].seq
                == sequence - self.ring@.len() + 1 + i by {
                if i < kept.len() {
                    if before.len() == EVENT_RING_LIMIT {
                        assert(kept[i] == before[i + 1]);
                    } else {
                        assert(kept[i] == before[i]);
                    }
                }
            }
        }
        self.sequence = sequence;
        Ok(sequence)
    }

    /// Retrieve up to `limit` (never more than 32) retained events after a cursor;
    /// no silent jump on gap.
    pub fn scan_after(&self, cursor: u64, limit: usize) -> (result: Result<Vec<EventRecord>, EventError>)
        requires
            self.wf(),
        ensures
            cursor > self.spec_latest() ==> result == Err::<Vec<EventRecord>, EventError>(EventError::Future),
            cursor <= self.spec_latest() && cursor < self.spec_oldest()
                ==> result == Err::<Vec<EventRecord>, EventError>(EventError::Gap),
            self.spec_oldest() <= cursor <= self.spec_latest() ==> {
                &&& result is Ok
                &&& result->Ok_0@.map_values(|r: EventRecord| record_view(r))
                    == self.spec_after(cursor, if limit < EVENT_SCAN_LIMIT { limit as int } else { EVENT_SCAN_LIMIT as int }).map_values(|r: EventRecord| record_view(r))
            },
    {
        if cursor > self.sequence {
            return Err(EventError::Future);
        }
        if cursor < self.oldest_cursor() {
            return Err(EventError::Gap);
        }
        let count = if limit < EVENT_SCAN_LIMIT { limit } else { EVENT_SCAN_LIMIT };
        let ghost oldest = self.spec_oldest();
        let ghost skip = cursor - oldest;
        let ghost expected = self.spec_after(cursor, count as int);
        let mut out: Vec<EventRecord> = Vec::new();
        let mut index: usize = 0;
        while index < self.ring.len() && out.len() < count
            invariant
                window_consecutive(self.sequence, self.ring@),
                oldest == self.sequence - self.ring@.len(),
                oldest <= cursor <= self.sequence,
                skip == cursor - oldest,
                0 <= index <= self.ring@.len(),
                count <= EVENT_SCAN_LIMIT,
                expected == self.spec_after(cursor, count as int),
                out@.len() <= count,
                index <= skip ==> out@.len() == 0,
                index >= skip ==> out@.len() == index - skip,
                forall|j: int| 0 <= j < out@.len() ==> record_view(#[trigger] out@[j]) == record_view(self.ring@[skip + j]),
            decreases self.ring@.len() - index,
        {
            let record = &self.ring[index];
            if record.seq > cursor {
                out.push(EventRecord { seq: record.seq, text: record.text.clone() });
            }
            index += 1;
        }
        proof {
            let got = out@.map_values(|r: EventRecord| record_view(r));
            let want = expected.map_values(|r: EventRecord| record_view(r));
            let rest = self.ring@.subrange(skip, self.ring@.len() as int);
            assert(got.len() == want.len());
            assert forall|j: int| 0 <= j < got.len() implies got[j] == want[j] by {
                assert(want[j] == record_view(expected[j]));
                assert(expected[j] == rest[j]);
            }
            assert(got =~= want);
        }
        Ok(out)
    }

    /// Bounded view of the retained replay window after a cursor.
    pub fn after(&self, cursor: u64) -> (result: Result<Vec<EventRecord>, EventError>)
        requires
            self.wf(),
        ensures
            cursor > self.spec_latest() ==> result == Err::<Vec<EventRecord>, EventError>(EventError::Future),
            cursor <= self.spec_latest() && cursor < self.spec_oldest()
                ==> result == Err::<Vec<EventRecord>, EventError>(EventError::Gap),
            self.spec_oldest() <= cursor <= self.spec_latest() ==> {
                &&& result is Ok
                &&& result->Ok_0@.map_values(|r: EventRecord| record_view(r))
                    == self.spec_after(cursor, EVENT_SCAN_LIMIT as int).map_values(|r: EventRecord| record_view(r))
            },
    {
        self.scan_after(cursor, EVENT_SCAN_LIMIT)
    }
}

/// The retained window never spans more than the ring limit, and the oldest
/// replayable cursor never exceeds the latest one.
pub proof fn law_window_bounded(log: EventLog)
    requires
        log.wf(),
    ensures
        0 <= log.spec_oldest() <= log.spec_latest(),
        log.spec_latest() - log.spec_oldest() <= EVENT_RING_LIMIT,
{
}

/// Replay never jumps: the `j`-th record handed out after `cursor` carries
/// sequence `cursor + 1 + j`.
pub proof fn law_replay_is_contiguous(log: EventLog, cursor: u64, count: int, j: int)
    requires
        log.wf(),
        log.spec_oldest() <= cursor <= log.spec_latest(),
        0 <= count,
        0 <= j < log.spec_after(cursor, count).len(),
    ensures
        log.spec_after(cursor, count)[j].seq == cursor + 1 + j,
{
    let skip = cursor - log.spec_oldest();
    let rest = log.spec_ring().subrange(skip, log.spec_ring().len() as int);
    assert(log.spec_after(cursor, count)[j] == rest[j]);
    assert(rest[j] == log.spec_ring()[skip + j]);
}

/// A reader positioned at the latest cursor has nothing to replay.
pub proof fn law_nothing_after_latest(log: EventLog, count: int)
    requires
        log.wf(),
        0 <= count,
    ensures
        log.spec_after(log.spec_latest(), count).len() == 0,
{
}

/// A publication is exactly what a reader at the previous latest cursor replays next:
/// when `after` is the log that one successful `append` of `text` produced from
/// `before`, replay after `before`'s latest cursor yields that one record.
pub proof fn law_publication_is_replayed(before: EventLog, after: EventLog, text: String, count: int)
    requires
        before.wf(),
        after.wf(),
        1 <= count,
        before.spec_latest() < u64::MAX,
        after.spec_latest() == before.spec_latest() + 1,
        after.spec_ring() == before.spec_kept().push(
            EventRecord { seq: (before.spec_latest() + 1) as u64, text },
        ),
    ensures
        after.spec_after(before.spec_latest(), count) == seq![
            EventRecord { seq: (before.spec_latest() + 1) as u64, text },
        ],
{
    let rec = EventRecord { seq: (before.spec_latest() + 1) as u64, text };
    let skip = before.spec_latest() - after.spec_oldest();
    assert(skip == after.spec_ring().len() - 1);
    let rest = after.spec_ring().subrange(skip, after.spec_ring().len() as int);
    assert(rest =~= seq![rec]);
}

} // verus!
