use naiagame_client::actor::{Actor, PointActor, PointColor};
use naiagame_client::input::Command;
use naiagame_client::reconcile::{SnapshotEntry, ViewOp, ViewReconciler};
use naiagame_client::session::{Action, CommandPayload, GameClient, GameEvent};

fn point(key: u16, x: u16, y: u16, color: PointColor) -> SnapshotEntry {
    SnapshotEntry { key, actor: Actor::Point(PointActor { x, y, color }) }
}

#[test]
fn first_pass_creates_a_view_per_key() {
    let mut rec = ViewReconciler::new();
    let snapshot = vec![
        point(1, 10, 20, PointColor::Red),
        point(2, 30, 40, PointColor::Blue),
    ];
    let ops = rec.reconcile(&snapshot);
    assert_eq!(
        ops,
        vec![
            ViewOp::Create(1),
            ViewOp::SetState(1, 10, 20, PointColor::Red),
            ViewOp::Create(2),
            ViewOp::SetState(2, 30, 40, PointColor::Blue),
        ]
    );
}

#[test]
fn second_pass_over_unchanged_keys_only_updates() {
    let mut rec = ViewReconciler::new();
    let snapshot = vec![
        point(1, 10, 20, PointColor::Red),
        point(2, 30, 40, PointColor::Blue),
    ];
    rec.reconcile(&snapshot);
    let moved = vec![
        point(1, 11, 20, PointColor::Red),
        point(2, 30, 41, PointColor::Blue),
    ];
    let ops = rec.reconcile(&moved);
    assert_eq!(
        ops,
        vec![
            ViewOp::SetState(1, 11, 20, PointColor::Red),
            ViewOp::SetState(2, 30, 41, PointColor::Blue),
        ]
    );
}

#[test]
fn changed_key_set_creates_and_destroys_exactly_the_difference() {
    let mut rec = ViewReconciler::new();
    let first = vec![
        point(1, 0, 0, PointColor::Red),
        point(2, 0, 0, PointColor::Blue),
        point(3, 0, 0, PointColor::Yellow),
    ];
    rec.reconcile(&first);
    let second = vec![
        point(2, 1, 1, PointColor::Blue),
        point(3, 2, 2, PointColor::Yellow),
        point(4, 3, 3, PointColor::Red),
    ];
    let ops = rec.reconcile(&second);
    // keys 2 and 3 are updated, never recreated; key 4 gets the one
    // creation; key 1 gets the one destruction, after every creation
    assert_eq!(
        ops,
        vec![
            ViewOp::SetState(2, 1, 1, PointColor::Blue),
            ViewOp::SetState(3, 2, 2, PointColor::Yellow),
            ViewOp::Create(4),
            ViewOp::SetState(4, 3, 3, PointColor::Red),
            ViewOp::Destroy(1),
        ]
    );
}

#[test]
fn empty_snapshot_destroys_every_view() {
    let mut rec = ViewReconciler::new();
    let first = vec![point(7, 0, 0, PointColor::Red), point(8, 0, 0, PointColor::Blue)];
    rec.reconcile(&first);
    let ops = rec.reconcile(&vec![]);
    assert_eq!(ops, vec![ViewOp::Destroy(7), ViewOp::Destroy(8)]);
    // and a further empty pass has nothing left to do
    assert_eq!(rec.reconcile(&vec![]), vec![]);
}

#[test]
fn a_key_reused_after_removal_gets_a_fresh_view() {
    let mut rec = ViewReconciler::new();
    rec.reconcile(&vec![point(5, 0, 0, PointColor::Red)]);
    rec.reconcile(&vec![]);
    let ops = rec.reconcile(&vec![point(5, 9, 9, PointColor::Blue)]);
    assert_eq!(
        ops,
        vec![ViewOp::Create(5), ViewOp::SetState(5, 9, 9, PointColor::Blue)]
    );
}

#[test]
fn tick_sends_the_pending_command_to_the_assigned_pawn_once() {
    let mut gc = GameClient::new();
    assert_eq!(gc.handle_event(GameEvent::Connection), None);
    assert_eq!(gc.handle_event(GameEvent::AssignPawn(7)), None);
    gc.merge_input(true, false, false, false);
    assert_eq!(
        gc.handle_event(GameEvent::Tick),
        Some(Action::SendCommand(7, Command { w: true, s: false, a: false, d: false }))
    );
    // the command was consumed: a tick with nothing pending sends nothing
    assert_eq!(gc.handle_event(GameEvent::Tick), None);
}

#[test]
fn tick_without_an_assigned_pawn_sends_nothing() {
    let mut gc = GameClient::new();
    gc.handle_event(GameEvent::Connection);
    gc.merge_input(true, true, true, true);
    assert_eq!(gc.handle_event(GameEvent::Tick), None);
    // the pending command survives for the next tick after assignment
    gc.handle_event(GameEvent::AssignPawn(2));
    assert_eq!(
        gc.handle_event(GameEvent::Tick),
        Some(Action::SendCommand(2, Command { w: true, s: true, a: true, d: true }))
    );
}

#[test]
fn disconnection_flips_the_predicate_and_halts_sends() {
    let mut gc = GameClient::new();
    gc.handle_event(GameEvent::Connection);
    assert!(gc.has_connection());
    gc.handle_event(GameEvent::AssignPawn(7));
    gc.merge_input(false, true, false, false);
    assert_eq!(gc.handle_event(GameEvent::Disconnection), None);
    assert!(!gc.has_connection());
    assert_eq!(gc.handle_event(GameEvent::Tick), None);
    // a new connection restores submission, with the input preserved
    gc.handle_event(GameEvent::Connection);
    assert!(gc.has_connection());
    assert_eq!(
        gc.handle_event(GameEvent::Tick),
        Some(Action::SendCommand(7, Command { w: false, s: true, a: false, d: false }))
    );
}

#[test]
fn client_starts_without_a_connection() {
    let gc = GameClient::new();
    assert!(!gc.has_connection());
}

#[test]
fn movement_echo_demands_prediction_for_its_pawn() {
    let mut gc = GameClient::new();
    gc.handle_event(GameEvent::Connection);
    gc.handle_event(GameEvent::AssignPawn(7));
    let cmd = Command { w: true, s: false, a: false, d: false };
    assert_eq!(
        gc.handle_event(GameEvent::Command(7, CommandPayload::Movement(cmd))),
        Some(Action::PredictMovement(7, cmd))
    );
}

#[test]
fn unknown_events_and_payloads_are_ignored() {
    let mut gc = GameClient::new();
    gc.handle_event(GameEvent::Connection);
    gc.handle_event(GameEvent::AssignPawn(3));
    assert_eq!(gc.handle_event(GameEvent::Unknown), None);
    assert_eq!(
        gc.handle_event(GameEvent::Command(3, CommandPayload::Unknown)),
        None
    );
    assert!(gc.has_connection());
}

#[test]
fn a_failed_delivery_does_not_stop_the_drain() {
    let mut gc = GameClient::new();
    gc.handle_event(GameEvent::Connection);
    gc.handle_event(GameEvent::AssignPawn(7));
    let events = vec![GameEvent::ReceiveError, GameEvent::Tick];
    let actions = gc.update(true, false, false, true, &events);
    assert_eq!(
        actions,
        vec![Action::SendCommand(7, Command { w: true, s: false, a: false, d: true })]
    );
}

#[test]
fn update_merges_input_before_draining_events() {
    let mut gc = GameClient::new();
    gc.handle_event(GameEvent::Connection);
    gc.handle_event(GameEvent::AssignPawn(1));
    // the frame's own input must reach the tick of the same frame
    let actions = gc.update(false, false, true, false, &vec![GameEvent::Tick, GameEvent::Tick]);
    assert_eq!(
        actions,
        vec![Action::SendCommand(1, Command { w: false, s: false, a: true, d: false })]
    );
}

#[test]
fn update_dispatches_in_delivery_order() {
    let mut gc = GameClient::new();
    let cmd = Command { w: false, s: false, a: false, d: true };
    let events = vec![
        GameEvent::Connection,
        GameEvent::AssignPawn(9),
        GameEvent::Command(9, CommandPayload::Movement(cmd)),
        GameEvent::Tick,
        GameEvent::UnassignPawn(9),
        GameEvent::Tick,
    ];
    let actions = gc.update(false, false, false, true, &events);
    assert_eq!(
        actions,
        vec![
            Action::PredictMovement(9, cmd),
            Action::SendCommand(9, cmd),
        ]
    );
}
