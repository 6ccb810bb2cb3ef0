//! Monotonic scheduling primitives and owner-turn reports.
//!
//! Times are monotonic elapsed nanoseconds since the host's clock origin, the value
//! a `Duration` reports through `as_nanos`. A skipped periodic slot receives one
//! actual-time opportunity, never a replay at an old deadline.
use std::time::{Duration, Instant};
use vstd::arithmetic::div_mod::lemma_fundamental_div_mod;
use vstd::prelude::*;

verus! {

/// Largest time a `Duration` can hold, in nanoseconds (`u64::MAX` seconds plus
/// 999,999,999 nanoseconds).
pub const MAX_DURATION_NANOS: u128 = 18_446_744_073_709_551_615_999_999_999u128;

/// Nanoseconds per second.
pub const NANOS_PER_SECOND: u128 = 1_000_000_000u128;

/// Trusted elapsed-time source; production and deterministic tests share the interface.
pub trait Clock {
    /// Return nondecreasing elapsed monotonic Runtime time.
    fn now(&self) -> Duration;
}

#[verifier::external_type_specification]
#[verifier::external_body]
pub struct ExInstant(Instant);

/// `Instant::now`: the current reading of the monotonic clock. Nothing is
/// promised of the reading, which depends on time.
#[verifier::external_body]
fn instant_now() -> (now: Instant) {
    Instant::now()
}

/// `Instant::elapsed`: time passed since `origin`. Nothing is promised of the
/// reading, which depends on time.
#[verifier::external_body]
fn instant_elapsed(origin: &Instant) -> (elapsed: Duration) {
    origin.elapsed()
}

/// Production clock with one Instant origin, never wall time.
#[derive(Clone, Copy)]
pub struct SystemClock {
    origin: Instant,
}

impl SystemClock {
    /// Create one process-local monotonic origin before host startup.
    pub fn new() -> (clock: Self) {
        SystemClock { origin: instant_now() }
    }
}

impl Clock for SystemClock {
    fn now(&self) -> Duration {
        instant_elapsed(&self.origin)
    }
}

/// Failure to advance a schedule without exceeding a representable count or time.
#[derive(Clone, Copy, Debug, PartialEq, Eq, Structural)]
pub enum ScheduleError {
    /// The number of coalesced slots does not fit the counter.
    CountExhausted,
    /// The next deadline is not representable as a monotonic time.
    TimeExhausted,
}

/// One periodic deadline with its fixed phase.
#[derive(Clone, Copy, Debug)]
pub struct Periodic {
    next_due: u128,
    period: u128,
}

impl Periodic {
    /// Next deadline in nanoseconds.
    pub closed spec fn spec_next_due(self) -> u128 {
        self.next_due
    }

    /// Period in nanoseconds.
    pub closed spec fn spec_period(self) -> u128 {
        self.period
    }

    /// Both the deadline and the period are representable times.
    pub open spec fn wf(self) -> bool {
        &&& self.spec_next_due() <= MAX_DURATION_NANOS
        &&& self.spec_period() <= MAX_DURATION_NANOS
    }

    /// A schedule whose first slot is due immediately.
    pub fn new(period_nanos: u128) -> (slot: Self)
        requires
            period_nanos <= MAX_DURATION_NANOS,
        ensures
            slot.wf(),
            slot.spec_next_due() == 0,
            slot.spec_period() == period_nanos,
    {
        Periodic { next_due: 0, period: period_nanos }
    }

    /// Next deadline in nanoseconds.
    pub fn next_due(&self) -> (at: u128)
        ensures
            at == self.spec_next_due(),
    {
        self.next_due
    }

    /// Whether the slot is due at `now`.
    pub fn due(&self, now: u128) -> (due: bool)
        ensures
            due == (now >= self.spec_next_due()),
    {
        now >= self.next_due
    }

    /// The outcome of taking slot `before` at `now` is `result`, leaving `after`:
    /// when not due nothing changes; otherwise every missed deadline is coalesced
    /// and the deadline advances by whole periods, unless the count or the time
    /// would not be representable, which fails and changes nothing.
    pub open spec fn takes(before: Periodic, after: Periodic, now: u128, result: Result<Option<u64>, ScheduleError>) -> bool {
        &&& after.spec_period() == before.spec_period()
        &&& if now < before.spec_next_due() {
            result == Ok::<Option<u64>, ScheduleError>(None) && after.spec_next_due() == before.spec_next_due()
        } else {
            let missed = (now - before.spec_next_due()) / (before.spec_period() as int);
            let advance = (missed + 1) * before.spec_period();
            if missed >= u64::MAX {
                result == Err::<Option<u64>, ScheduleError>(ScheduleError::CountExhausted)
                    && after.spec_next_due() == before.spec_next_due()
            } else if before.spec_next_due() + advance > MAX_DURATION_NANOS {
                result == Err::<Option<u64>, ScheduleError>(ScheduleError::TimeExhausted)
                    && after.spec_next_due() == before.spec_next_due()
            } else {
                result == Ok::<Option<u64>, ScheduleError>(Some(missed as u64))
                    && after.spec_next_due() == before.spec_next_due() + advance
            }
        }
    }

    /// Take the due slot at `now`, coalescing every missed deadline into this one
    /// opportunity. Returns the number of deadlines skipped, or `None` when not due.
    /// The phase is kept: the next deadline advances by whole periods.
    pub fn take(&mut self, now: u128) -> (result: Result<Option<u64>, ScheduleError>)
        requires
            old(self).wf(),
            old(self).spec_period() > 0,
            now <= MAX_DURATION_NANOS,
        ensures
            final(self).wf(),
            final(self).spec_period() == old(self).spec_period(),
            now < old(self).spec_next_due() ==> result == Ok::<Option<u64>, ScheduleError>(None)
                && final(self).spec_next_due() == old(self).spec_next_due(),
            now >= old(self).spec_next_due() ==> {
                let missed = (now - old(self).spec_next_due()) / (old(self).spec_period() as int);
                let advance = (missed + 1) * old(self).spec_period();
                &&& missed >= u64::MAX ==> result == Err::<Option<u64>, ScheduleError>(ScheduleError::CountExhausted)
                &&& missed < u64::MAX && old(self).spec_next_due() + advance > MAX_DURATION_NANOS
                    ==> result == Err::<Option<u64>, ScheduleError>(ScheduleError::TimeExhausted)
                &&& missed < u64::MAX && old(self).spec_next_due() + advance <= MAX_DURATION_NANOS ==> {
                    &&& result == Ok::<Option<u64>, ScheduleError>(Some(missed as u64))
                    &&& final(self).spec_next_due() == old(self).spec_next_due() + advance
                }
                &&& result is Err ==> final(self).spec_next_due() == old(self).spec_next_due()
            },
            Periodic::takes(*old(self), *final(self), now, result),
            result is Err || result == Ok::<Option<u64>, ScheduleError>(None) ==> *final(self) == *old(self),
    {
        if !self.due(now) {
            return Ok(None);
        }
        let period = self.period;
        let missed_wide: u128 = (now - self.next_due) / period;
        if missed_wide > u64::MAX as u128 {
            return Err(ScheduleError::CountExhausted);
        }
        let missed: u64 = missed_wide as u64;
        if missed == u64::MAX {
            return Err(ScheduleError::CountExhausted);
        }
        let slots: u64 = missed + 1;
        let nanos: u128 = match period.checked_mul(slots as u128) {
            Some(nanos) => nanos,
            None => {
                proof {
                    assert(period * (slots as u128) > u128::MAX);
                    assert((missed + 1) * period == period * slots) by (nonlinear_arith)
                        requires slots == missed + 1;
                }
                return Err(ScheduleError::TimeExhausted);
            },
        };
        if nanos / NANOS_PER_SECOND > u64::MAX as u128 {
            proof {
                assert(nanos > MAX_DURATION_NANOS) by (nonlinear_arith)
                    requires
                        nanos / NANOS_PER_SECOND > u64::MAX as u128,
                        NANOS_PER_SECOND == 1_000_000_000u128,
                        MAX_DURATION_NANOS == 18_446_744_073_709_551_615_999_999_999u128,
                ;
            }
            return Err(ScheduleError::TimeExhausted);
        }
        if nanos > MAX_DURATION_NANOS - self.next_due {
            return Err(ScheduleError::TimeExhausted);
        }
        self.next_due = self.next_due + nanos;
        Ok(Some(missed))
    }
}

/// After a slot is taken, it is not due again at the same time: every missed
/// deadline was coalesced into one opportunity, the next deadline lies strictly after
/// `now`, and the deadline just replaced was not later than `now`.
pub proof fn law_taken_slot_is_not_due_again(before: Periodic, after: Periodic, now: u128)
    requires
        before.wf(),
        before.spec_period() > 0,
        before.spec_next_due() <= now,
        after.spec_next_due() == before.spec_next_due() + ((now - before.spec_next_due())
            / (before.spec_period() as int) + 1) * before.spec_period(),
    ensures
        now < after.spec_next_due(),
        before.spec_next_due() + ((now - before.spec_next_due()) / (before.spec_period() as int))
            * before.spec_period() <= now,
{
    let period = before.spec_period() as int;
    let d = now - before.spec_next_due();
    lemma_fundamental_div_mod(d, period);
    assert(((d / period) + 1) * period == (d / period) * period + period) by (nonlinear_arith);
    assert(period * (d / period) == (d / period) * period) by (nonlinear_arith);
}

/// Bounded service opportunities taken during one owner turn.
#[derive(Clone, Copy, Debug, Default, PartialEq, Eq, Structural)]
pub struct ServiceReport {
    /// Combined safety/deadline/transport service calls.
    pub safety: u64,
    /// Actual-time plant refreshes, not missed historical slots.
    pub measurements: u64,
    /// Independently evaluated References.
    pub references: u64,
    /// Distinct-input native controller attempts.
    pub controller_ticks: u64,
    /// Deadlines skipped/coalesced while keeping prior-deadline phase.
    pub skipped_deadlines: u64,
}

/// Honest in-process shutdown evidence; unfinished workers prevent a clean exit.
#[derive(Clone, Copy, Debug, PartialEq, Eq, Structural)]
pub struct ShutdownStatus {
    /// Every configured output has no lease and obtained its required safe evidence.
    pub safe_confirmed: bool,
    /// Fixed executor slots still executing; Rust safe work never waits for them.
    pub unfinished_workers: usize,
    /// Physical byte resources whose adapter/worker has not confirmed close.
    pub unfinished_transports: usize,
    /// Every configured byte resource confirmed finite retirement.
    pub transports_closed: bool,
    /// A fatal owner/identity fault occurred even if virtual safe evidence remains.
    pub fatal_error: bool,
    /// Every admitted recording fact and terminal seal was confirmed before close.
    pub recorder_flushed: bool,
    /// A Recorder worker remained open at the finite flush deadline.
    pub recorder_unfinished: bool,
    /// Sticky Recorder failure prevents claiming durable completion.
    pub recorder_error: bool,
    /// Safe evidence and worker cleanup both finished.
    pub exit_success: bool,
}

} // verus!
