use server_ops::drain::{DrainAction, DrainEvent, DrainState};

fn run(events: &[DrainEvent]) -> (DrainState, Vec<DrainAction>) {
    let mut state = DrainState::Draining;
    let mut actions = Vec::new();
    for e in events {
        let (next, action) = state.step(*e);
        state = next;
        actions.push(action);
    }
    (state, actions)
}

#[test]
fn drain_finishes_before_timeout_without_force_quit() {
    let (state, actions) = run(&[DrainEvent::Polled(true), DrainEvent::Polled(true), DrainEvent::Polled(false)]);
    assert_eq!(state, DrainState::Done);
    assert_eq!(actions, vec![DrainAction::PollLater, DrainAction::PollLater, DrainAction::Settle]);
    assert!(!actions.contains(&DrainAction::ForceQuit));
}

#[test]
fn drain_escalates_once_then_reports() {
    let (state, actions) = run(&[
        DrainEvent::Polled(true),
        DrainEvent::TimedOut,
        DrainEvent::Polled(true),
        DrainEvent::TimedOut,
        DrainEvent::TimedOut,
    ]);
    assert_eq!(state, DrainState::Done);
    assert_eq!(
        actions,
        vec![
            DrainAction::PollLater,
            DrainAction::ForceQuit,
            DrainAction::PollLater,
            DrainAction::ReportPending,
            DrainAction::Idle,
        ]
    );
}

#[test]
fn drain_finishes_after_force_quit() {
    let (state, actions) = run(&[DrainEvent::TimedOut, DrainEvent::Polled(false)]);
    assert_eq!(state, DrainState::Done);
    assert_eq!(actions, vec![DrainAction::ForceQuit, DrainAction::Settle]);
}
