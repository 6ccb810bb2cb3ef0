//! One bounded owner turn and its safety-first ordering of native work.
//!
//! A turn first takes the safety slot, then visits plants, physical reads,
//! References, controllers, sources and transforms in that order. Before every
//! lower-priority unit the safety slot is checked again: once safety is due the turn
//! ends, so safety is never starved by acquisition or control. The host performs
//! each returned action against the domain runtime and asks for the next one with a
//! fresh monotonic time.
use crate::host::{Periodic, ScheduleError, ServiceReport, MAX_DURATION_NANOS};
use vstd::prelude::*;

verus! {

/// Service class of a scheduled unit, in priority order after safety.
#[derive(Clone, Copy, Debug, PartialEq, Eq, Structural)]
pub enum UnitKind {
    /// Virtual plant measurement refresh.
    Plant,
    /// Physical instrument read.
    MetakonRead,
    /// Reference evaluation.
    Reference,
    /// Native controller tick.
    Controller,
    /// Periodic managed source.
    Source,
    /// Input-driven managed transform, considered on every turn.
    Transform,
}

/// One schedulable unit: periodic units carry a slot; transforms have none.
#[derive(Clone, Copy, Debug)]
pub struct TurnUnit {
    /// Service class.
    pub kind: UnitKind,
    /// Periodic slot, absent for input-driven units.
    pub slot: Option<Periodic>,
}

/// A usable slot: representable times and a nonzero period.
pub open spec fn slot_ok(p: Periodic) -> bool {
    p.wf() && p.spec_period() > 0
}

/// A unit whose slot, if any, is usable.
pub open spec fn unit_ok(u: TurnUnit) -> bool {
    match u.slot {
        Some(p) => slot_ok(p),
        None => true,
    }
}

/// Schedule state carried across turns: the safety slot, every unit in service
/// order and the latest time a turn started at.
pub struct TurnPlan {
    safety: Periodic,
    units: Vec<TurnUnit>,
    last_now: u128,
}

/// Where a turn stands.
#[derive(Clone, Copy, Debug, PartialEq, Eq, Structural)]
pub enum TurnPhase {
    /// The safety slot has not been considered yet.
    Start,
    /// Safety was handled; the stop and quiescence rules come next.
    AfterSafety,
    /// Units are being visited from `next`.
    Units,
    /// The turn is over.
    Ended,
}

/// Progress of one owner turn.
#[derive(Clone, Copy, Debug)]
pub struct OwnerTurn {
    phase: TurnPhase,
    next: usize,
}

/// What the host must do next.
#[derive(Clone, Copy, Debug, PartialEq, Eq, Structural)]
pub enum TurnAction {
    /// Serve safety work (or poll components when not stopping); `skipped`
    /// deadlines were coalesced into this opportunity.
    Safety {
        /// Coalesced deadlines.
        skipped: u64,
    },
    /// The process is stopping: close transports whose outputs are safe, then end.
    Stopping,
    /// Serve unit `index`; `skipped` deadlines were coalesced (zero for transforms).
    Unit {
        /// Index of the unit in service order.
        index: usize,
        /// Coalesced deadlines.
        skipped: u64,
    },
    /// The turn is over.
    End,
}

/// Why a turn failed.
#[derive(Clone, Copy, Debug, PartialEq, Eq, Structural)]
pub enum TurnError {
    /// The monotonic clock moved backward.
    ClockBackward,
    /// A slot could not advance.
    Schedule(ScheduleError),
}

/// A unit is ready at `now`: input-driven, or its slot is due.
pub open spec fn ready(u: TurnUnit, now: u128) -> bool {
    match u.slot {
        Some(p) => p.spec_next_due() <= now,
        None => true,
    }
}

/// The first unsuspended ready unit at or after `k`, or the unit count if none.
pub open spec fn first_ready(units: Seq<TurnUnit>, suspended: Seq<bool>, k: int, now: u128) -> int
    decreases units.len() - k,
{
    if k < 0 || k >= units.len() {
        units.len() as int
    } else if !suspended[k] && ready(units[k], now) {
        k
    } else {
        first_ready(units, suspended, k + 1, now)
    }
}

/// The turn ended with nothing to do.
pub open spec fn ends(t: OwnerTurn, result: Result<TurnAction, TurnError>) -> bool {
    result == Ok::<TurnAction, TurnError>(TurnAction::End) && t.spec_phase() == TurnPhase::Ended
}

/// The plan holds exactly these slots and start time.
pub open spec fn holds(p: TurnPlan, safety: Periodic, last_now: u128, units: Seq<TurnUnit>) -> bool {
    p.spec_safety() == safety && p.spec_last_now() == last_now && p.spec_units() == units
}

/// Unit `i` of `units0` was served at `now`: an input-driven unit as it is, a
/// periodic one by taking its slot, which is all that changes in the plan.
pub open spec fn unit_served(
    units0: Seq<TurnUnit>,
    units1: Seq<TurnUnit>,
    i: int,
    now: u128,
    t: OwnerTurn,
    result: Result<TurnAction, TurnError>,
) -> bool {
    match units0[i].slot {
        None => {
            &&& units1 == units0
            &&& result == Ok::<TurnAction, TurnError>(TurnAction::Unit { index: i as usize, skipped: 0 })
            &&& t.spec_phase() == TurnPhase::Units
            &&& t.spec_next() == i + 1
        },
        Some(p) => {
            &&& units1.len() == units0.len()
            &&& forall|j: int| 0 <= j < units0.len() && j != i ==> units1[j] == units0[j]
            &&& units1[i].kind == units0[i].kind
            &&& units1[i].slot is Some
            &&& match result {
                Ok(TurnAction::Unit { index, skipped }) => {
                    &&& index == i
                    &&& Periodic::takes(p, units1[i].slot->Some_0, now, Ok(Some(skipped)))
                    &&& t.spec_phase() == TurnPhase::Units
                    &&& t.spec_next() == i + 1
                },
                Err(TurnError::Schedule(e)) => {
                    &&& Periodic::takes(p, units1[i].slot->Some_0, now, Err(e))
                    &&& t.spec_phase() == TurnPhase::Ended
                },
                _ => false,
            }
        },
    }
}

/// Serving units from `from` on: the turn ends if safety is due or no unit is
/// ready; otherwise the first ready unit is served.
pub open spec fn scanned(
    safety: Periodic,
    last_now: u128,
    units0: Seq<TurnUnit>,
    p: TurnPlan,
    from: int,
    now: u128,
    suspended: Seq<bool>,
    t: OwnerTurn,
    result: Result<TurnAction, TurnError>,
) -> bool {
    let i = first_ready(units0, suspended, from, now);
    &&& p.spec_safety() == safety
    &&& p.spec_last_now() == last_now
    &&& if safety.spec_next_due() <= now || i >= units0.len() {
        p.spec_units() == units0 && ends(t, result)
    } else {
        unit_served(units0, p.spec_units(), i, now, t, result)
    }
}

/// After safety: a stopping process stops, a quiesced turn ends, otherwise units
/// are served from the first.
pub open spec fn after_safety(
    safety: Periodic,
    last_now: u128,
    units0: Seq<TurnUnit>,
    p: TurnPlan,
    now: u128,
    stopping: bool,
    quiesced: bool,
    suspended: Seq<bool>,
    t: OwnerTurn,
    result: Result<TurnAction, TurnError>,
) -> bool {
    if stopping {
        &&& result == Ok::<TurnAction, TurnError>(TurnAction::Stopping)
        &&& t.spec_phase() == TurnPhase::Ended
        &&& holds(p, safety, last_now, units0)
    } else if quiesced {
        ends(t, result) && holds(p, safety, last_now, units0)
    } else {
        scanned(safety, last_now, units0, p, 0, now, suspended, t, result)
    }
}

/// One step of a turn from `t0` and `p0` gives `result`, `t1` and `p1`.
pub open spec fn step_taken(
    t0: OwnerTurn,
    p0: TurnPlan,
    t1: OwnerTurn,
    p1: TurnPlan,
    now: u128,
    stopping: bool,
    quiesced: bool,
    suspended: Seq<bool>,
    result: Result<TurnAction, TurnError>,
) -> bool {
    match t0.spec_phase() {
        TurnPhase::Ended => ends(t1, result) && holds(p1, p0.spec_safety(), p0.spec_last_now(), p0.spec_units()),
        TurnPhase::Start => if now < p0.spec_last_now() {
            &&& result == Err::<TurnAction, TurnError>(TurnError::ClockBackward)
            &&& t1.spec_phase() == TurnPhase::Ended
            &&& holds(p1, p0.spec_safety(), p0.spec_last_now(), p0.spec_units())
        } else if now < p0.spec_safety().spec_next_due() {
            after_safety(p0.spec_safety(), now, p0.spec_units(), p1, now, stopping, quiesced, suspended, t1, result)
        } else {
            &&& p1.spec_units() == p0.spec_units()
            &&& p1.spec_last_now() == now
            &&& match result {
                Ok(TurnAction::Safety { skipped }) => {
                    &&& Periodic::takes(p0.spec_safety(), p1.spec_safety(), now, Ok(Some(skipped)))
                    &&& t1.spec_phase() == TurnPhase::AfterSafety
                },
                Err(TurnError::Schedule(e)) => {
                    &&& Periodic::takes(p0.spec_safety(), p1.spec_safety(), now, Err(e))
                    &&& t1.spec_phase() == TurnPhase::Ended
                },
                _ => false,
            }
        },
        TurnPhase::AfterSafety => after_safety(
            p0.spec_safety(),
            p0.spec_last_now(),
            p0.spec_units(),
            p1,
            now,
            stopping,
            quiesced,
            suspended,
            t1,
            result,
        ),
        TurnPhase::Units => if stopping || quiesced {
            ends(t1, result) && holds(p1, p0.spec_safety(), p0.spec_last_now(), p0.spec_units())
        } else {
            scanned(
                p0.spec_safety(),
                p0.spec_last_now(),
                p0.spec_units(),
                p1,
                t0.spec_next() as int,
                now,
                suspended,
                t1,
                result,
            )
        },
    }
}

impl TurnPlan {
    /// Safety slot.
    pub closed spec fn spec_safety(&self) -> Periodic {
        self.safety
    }

    /// Units in service order.
    pub closed spec fn spec_units(&self) -> Seq<TurnUnit> {
        self.units@
    }

    /// Time the latest turn started at.
    pub closed spec fn spec_last_now(&self) -> u128 {
        self.last_now
    }

    /// Every slot is usable.
    pub open spec fn wf(&self) -> bool {
        &&& slot_ok(self.spec_safety())
        &&& forall|i: int| 0 <= i < self.spec_units().len() ==> unit_ok(#[trigger] self.spec_units()[i])
    }

    /// A plan over the given slots; no turn has run yet.
    pub fn new(safety: Periodic, units: Vec<TurnUnit>) -> (plan: Self)
        requires
            slot_ok(safety),
            forall|i: int| 0 <= i < units@.len() ==> unit_ok(#[trigger] units@[i]),
        ensures
            plan.wf(),
            plan.spec_safety() == safety,
            plan.spec_units() == units@,
            plan.spec_last_now() == 0,
    {
        TurnPlan { safety, units, last_now: 0 }
    }

    /// Units in service order.
    pub fn units(&self) -> (units: &Vec<TurnUnit>)
        ensures
            units@ == self.spec_units(),
    {
        &self.units
    }

    /// Next safety deadline.
    pub fn safety_due_at(&self) -> (at: u128)
        ensures
            at == self.spec_safety().spec_next_due(),
    {
        self.safety.next_due()
    }
}

impl OwnerTurn {
    /// Phase.
    pub closed spec fn spec_phase(&self) -> TurnPhase {
        self.phase
    }

    /// Next unit to visit.
    pub closed spec fn spec_next(&self) -> usize {
        self.next
    }

    /// A turn that has not started.
    pub fn start() -> (turn: Self)
        ensures
            turn.spec_phase() == TurnPhase::Start,
            turn.spec_next() == 0,
    {
        OwnerTurn { phase: TurnPhase::Start, next: 0 }
    }

    /// Whether the turn is over.
    pub fn ended(&self) -> (ended: bool)
        ensures
            ended == (self.spec_phase() == TurnPhase::Ended),
    {
        self.phase == TurnPhase::Ended
    }

    /// Serve the first ready unit from `next` on, unless safety is due at `now`.
    fn serve_units(&mut self, plan: &mut TurnPlan, now: u128, suspended: &Vec<bool>) -> (result: Result<
        TurnAction,
        TurnError,
    >)
        requires
            old(plan).wf(),
            now <= MAX_DURATION_NANOS,
            suspended@.len() == old(plan).spec_units().len(),
            old(self).spec_phase() == TurnPhase::Units,
        ensures
            final(plan).wf(),
            scanned(
                old(plan).spec_safety(),
                old(plan).spec_last_now(),
                old(plan).spec_units(),
                *final(plan),
                old(self).spec_next() as int,
                now,
                suspended@,
                *final(self),
                result,
            ),
    {
        let ghost from = self.next as int;
        let ghost units0 = plan.units@;
        if plan.safety.due(now) {
            self.phase = TurnPhase::Ended;
            return Ok(TurnAction::End);
        }
        while self.next < plan.units.len()
            invariant
                plan.wf(),
                now <= MAX_DURATION_NANOS,
                suspended@.len() == units0.len(),
                plan.units@ == units0,
                plan.safety == old(plan).spec_safety(),
                plan.last_now == old(plan).spec_last_now(),
                units0 == old(plan).spec_units(),
                from == old(self).spec_next(),
                now < plan.safety.spec_next_due(),
                self.phase == TurnPhase::Units,
                from <= self.next,
                first_ready(units0, suspended@, from, now) == first_ready(units0, suspended@, self.next as int, now),
            decreases plan.units@.len() - self.next,
        {
            let index = self.next;
            self.next = index + 1;
            if suspended[index] {
                continue;
            }
            let unit = plan.units[index];
            match unit.slot {
                None => {
                    return Ok(TurnAction::Unit { index, skipped: 0 });
                },
                Some(slot) => {
                    let mut slot = slot;
                    proof {
                        assert(unit_ok(plan.spec_units()[index as int]));
                    }
                    let taken = slot.take(now);
                    if let Ok(None) = taken {
                        continue;
                    }
                    let ghost before = plan.spec_units();
                    plan.units.set(index, TurnUnit { kind: unit.kind, slot: Some(slot) });
                    proof {
                        assert forall|i: int| 0 <= i < plan.spec_units().len() implies unit_ok(#[trigger] plan.spec_units()[i]) by {
                            if i != index {
                                assert(plan.spec_units()[i] == before[i]);
                                assert(unit_ok(before[i]));
                            }
                        }
                    }
                    match taken {
                        Err(e) => {
                            self.phase = TurnPhase::Ended;
                            return Err(TurnError::Schedule(e));
                        },
                        Ok(skipped) => {
                            let skipped = skipped.unwrap();
                            return Ok(TurnAction::Unit { index, skipped });
                        },
                    }
                },
            }
        }
        self.phase = TurnPhase::Ended;
        Ok(TurnAction::End)
    }

    /// The next action of the turn at monotonic time `now`.
    ///
    /// A unit is served only while safety is not due; the units are visited once
    /// each, in service order; a clock that moved backward fails the turn.
    pub fn step(
        &mut self,
        plan: &mut TurnPlan,
        now: u128,
        stopping: bool,
        quiesced: bool,
        suspended: &Vec<bool>,
    ) -> (result: Result<TurnAction, TurnError>)
        requires
            old(plan).wf(),
            now <= MAX_DURATION_NANOS,
            suspended@.len() == old(plan).spec_units().len(),
        ensures
            final(plan).wf(),
            final(plan).spec_units().len() == old(plan).spec_units().len(),
            step_taken(*old(self), *old(plan), *final(self), *final(plan), now, stopping, quiesced, suspended@, result),
    {
        match self.phase {
            TurnPhase::Ended => {
                return Ok(TurnAction::End);
            },
            TurnPhase::Start => {
                if now < plan.last_now {
                    self.phase = TurnPhase::Ended;
                    return Err(TurnError::ClockBackward);
                }
                plan.last_now = now;
                self.phase = TurnPhase::AfterSafety;
                match plan.safety.take(now) {
                    Err(e) => {
                        self.phase = TurnPhase::Ended;
                        return Err(TurnError::Schedule(e));
                    },
                    Ok(Some(skipped)) => {
                        return Ok(TurnAction::Safety { skipped });
                    },
                    Ok(None) => {},
                }
            },
            _ => {},
        }
        if self.phase == TurnPhase::AfterSafety {
            if stopping {
                self.phase = TurnPhase::Ended;
                return Ok(TurnAction::Stopping);
            }
            if quiesced {
                self.phase = TurnPhase::Ended;
                return Ok(TurnAction::End);
            }
            self.phase = TurnPhase::Units;
            self.next = 0;
        }
        if stopping || quiesced {
            self.phase = TurnPhase::Ended;
            return Ok(TurnAction::End);
        }
        self.serve_units(plan, now, suspended)
    }
}

/// Saturating counter increment.
fn bump(count: u64, by: u64) -> (out: u64)
    ensures
        out == (if count + by > u64::MAX {
            u64::MAX as int
        } else {
            count + by
        }),
{
    count.saturating_add(by)
}

impl ServiceReport {
    /// Account one served action: safety services and coalesced deadlines always,
    /// plus the measurement or Reference it produced. Controller ticks are counted
    /// by the host only when the tick was issued.
    pub fn count(&mut self, action: TurnAction, kind: Option<UnitKind>)
        ensures
            match action {
                TurnAction::Safety { skipped } => {
                    &&& final(self).safety == (if old(self).safety + 1 > u64::MAX { u64::MAX as int } else { old(self).safety + 1 })
                    &&& final(self).skipped_deadlines == (if old(self).skipped_deadlines + skipped > u64::MAX { u64::MAX as int } else { old(self).skipped_deadlines + skipped })
                    &&& final(self).measurements == old(self).measurements
                    &&& final(self).references == old(self).references
                    &&& final(self).controller_ticks == old(self).controller_ticks
                },
                TurnAction::Unit { skipped, .. } => {
                    &&& final(self).safety == old(self).safety
                    &&& final(self).skipped_deadlines == (if old(self).skipped_deadlines + skipped > u64::MAX { u64::MAX as int } else { old(self).skipped_deadlines + skipped })
                    &&& final(self).measurements == (if kind == Some(UnitKind::Plant) || kind == Some(UnitKind::MetakonRead) {
                        if old(self).measurements + 1 > u64::MAX { u64::MAX as int } else { old(self).measurements + 1 }
                    } else {
                        old(self).measurements as int
                    })
                    &&& final(self).references == (if kind == Some(UnitKind::Reference) {
                        if old(self).references + 1 > u64::MAX { u64::MAX as int } else { old(self).references + 1 }
                    } else {
                        old(self).references as int
                    })
                    &&& final(self).controller_ticks == old(self).controller_ticks
                },
                _ => *final(self) == *old(self),
            },
    {
        match action {
            TurnAction::Safety { skipped } => {
                self.safety = bump(self.safety, 1);
                self.skipped_deadlines = bump(self.skipped_deadlines, skipped);
            },
            TurnAction::Unit { skipped, .. } => {
                self.skipped_deadlines = bump(self.skipped_deadlines, skipped);
                match kind {
                    Some(UnitKind::Plant) | Some(UnitKind::MetakonRead) => {
                        self.measurements = bump(self.measurements, 1);
                    },
                    Some(UnitKind::Reference) => {
                        self.references = bump(self.references, 1);
                    },
                    _ => {},
                }
            },
            _ => {},
        }
    }

    /// Account one issued controller tick.
    pub fn count_controller_tick(&mut self)
        ensures
            final(self).controller_ticks == (if old(self).controller_ticks + 1 > u64::MAX { u64::MAX as int } else { old(self).controller_ticks + 1 }),
            final(self).safety == old(self).safety,
            final(self).measurements == old(self).measurements,
            final(self).references == old(self).references,
            final(self).skipped_deadlines == old(self).skipped_deadlines,
    {
        self.controller_ticks = bump(self.controller_ticks, 1);
    }
}

} // verus!
