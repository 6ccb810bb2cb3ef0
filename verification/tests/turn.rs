use lab_runtime::host::{Periodic, ServiceReport};
use lab_runtime::turn::{OwnerTurn, TurnAction, TurnError, TurnPlan, TurnUnit, UnitKind};

fn plan() -> TurnPlan {
    TurnPlan::new(
        Periodic::new(100),
        vec![
            TurnUnit { kind: UnitKind::Plant, slot: Some(Periodic::new(50)) },
            TurnUnit { kind: UnitKind::Reference, slot: Some(Periodic::new(1000)) },
            TurnUnit { kind: UnitKind::Transform, slot: None },
        ],
    )
}

fn drive(plan: &mut TurnPlan, now: u128, stopping: bool, quiesced: bool) -> Vec<TurnAction> {
    let mut turn = OwnerTurn::start();
    let suspended = vec![false; plan.units().len()];
    let mut actions = Vec::new();
    loop {
        let action = turn.step(plan, now, stopping, quiesced, &suspended).unwrap();
        actions.push(action);
        if action == TurnAction::End || action == TurnAction::Stopping {
            return actions;
        }
    }
}

#[test]
fn a_turn_serves_safety_then_due_units_in_order() {
    let mut plan = plan();
    let actions = drive(&mut plan, 0, false, false);
    assert_eq!(
        actions,
        vec![
            TurnAction::Safety { skipped: 0 },
            TurnAction::Unit { index: 0, skipped: 0 },
            TurnAction::Unit { index: 1, skipped: 0 },
            TurnAction::Unit { index: 2, skipped: 0 },
            TurnAction::End,
        ]
    );
    let actions = drive(&mut plan, 60, false, false);
    assert_eq!(
        actions,
        vec![
            TurnAction::Unit { index: 0, skipped: 0 },
            TurnAction::Unit { index: 2, skipped: 0 },
            TurnAction::End,
        ]
    );
    let actions = drive(&mut plan, 80, false, false);
    assert_eq!(actions, vec![TurnAction::Unit { index: 2, skipped: 0 }, TurnAction::End]);
    let actions = drive(&mut plan, 260, false, false);
    assert_eq!(
        actions,
        vec![
            TurnAction::Safety { skipped: 1 },
            TurnAction::Unit { index: 0, skipped: 3 },
            TurnAction::Unit { index: 2, skipped: 0 },
            TurnAction::End,
        ]
    );
    assert_eq!(plan.safety_due_at(), 300);
}

#[test]
fn due_safety_ends_the_turn_before_lower_priority_work() {
    let mut plan = plan();
    let mut turn = OwnerTurn::start();
    let suspended = vec![false; 3];
    assert_eq!(
        turn.step(&mut plan, 0, false, false, &suspended),
        Ok(TurnAction::Safety { skipped: 0 })
    );
    assert_eq!(
        turn.step(&mut plan, 150, false, false, &suspended),
        Ok(TurnAction::End)
    );
    assert!(turn.ended());
    assert_eq!(turn.step(&mut plan, 150, false, false, &suspended), Ok(TurnAction::End));
}

#[test]
fn stopping_quiesced_suspended_and_backward_clock() {
    let mut plan = plan();
    assert_eq!(
        drive(&mut plan, 0, true, false),
        vec![TurnAction::Safety { skipped: 0 }, TurnAction::Stopping]
    );
    assert_eq!(drive(&mut plan, 10, false, true), vec![TurnAction::End]);
    let mut turn = OwnerTurn::start();
    let suspended = vec![true, false, false];
    assert_eq!(
        turn.step(&mut plan, 20, false, false, &suspended),
        Ok(TurnAction::Unit { index: 1, skipped: 0 })
    );
    let mut turn = OwnerTurn::start();
    assert_eq!(
        turn.step(&mut plan, 5, false, false, &suspended),
        Err(TurnError::ClockBackward)
    );
    assert!(turn.ended());
}

#[test]
fn reports_count_services_saturating() {
    let mut report = ServiceReport::default();
    report.count(TurnAction::Safety { skipped: 2 }, None);
    report.count(TurnAction::Unit { index: 0, skipped: 1 }, Some(UnitKind::Plant));
    report.count(TurnAction::Unit { index: 1, skipped: u64::MAX }, Some(UnitKind::Reference));
    report.count(TurnAction::Unit { index: 2, skipped: 0 }, Some(UnitKind::Controller));
    report.count_controller_tick();
    report.count(TurnAction::End, None);
    assert_eq!(report.safety, 1);
    assert_eq!(report.measurements, 1);
    assert_eq!(report.references, 1);
    assert_eq!(report.controller_ticks, 1);
    assert_eq!(report.skipped_deadlines, u64::MAX);
}
