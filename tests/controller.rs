use lychen::app::model::{Cell, Direction};
use lychen::app::{Action, Controller, Pacing, Response, DEFAULT_STEP_MS};

#[test]
fn pacing_defaults() {
    let p = Pacing::new(1000);
    assert!(!p.paused());
    assert_eq!(p.step_time(), 50);
    assert_eq!(DEFAULT_STEP_MS, 50);
    assert!(!p.should_step(1049));
    assert!(p.should_step(1050));
    assert!(!p.should_step(10));
}

#[test]
fn pacing_paused_never_steps() {
    let mut p = Pacing::new(0);
    p.toggle_pause();
    assert!(p.paused());
    assert!(!p.should_step(1_000_000));
    p.toggle_pause();
    assert!(p.should_step(1_000_000));
}

#[test]
fn record_step_resets_timer() {
    let mut p = Pacing::new(0);
    p.record_step(100);
    assert!(!p.should_step(149));
    assert!(p.should_step(150));
}

#[test]
fn step_time_changes() {
    let mut p = Pacing::new(0);
    p.change_step_time(5);
    assert_eq!(p.step_time(), 55);
    p.change_step_time(-5);
    p.change_step_time(-5);
    assert_eq!(p.step_time(), 45);
    for _ in 0..20 {
        p.change_step_time(-5);
    }
    // never reaches zero
    assert_eq!(p.step_time(), 5);
    p.change_step_time(-5);
    assert_eq!(p.step_time(), 5);
    p.reset_step_time();
    assert_eq!(p.step_time(), 50);
    p.change_step_time(i64::MIN);
    assert_eq!(p.step_time(), 50);
    p.change_step_time(i64::MAX);
    assert_eq!(p.step_time(), 50 + i64::MAX as u64);
    p.change_step_time(i64::MAX);
    assert_eq!(p.step_time(), 50 + i64::MAX as u64);
}

#[test]
fn actions_drive_the_model() {
    let mut c = Controller::new(5, 5, 0);
    assert!(matches!(c.handle_action(Action::SpeedUp), Response::Idle));
    assert_eq!(c.pacing().step_time(), 55);
    assert!(matches!(c.handle_action(Action::SpeedDown), Response::Idle));
    assert!(matches!(c.handle_action(Action::SpeedDown), Response::Idle));
    assert_eq!(c.pacing().step_time(), 45);
    assert!(matches!(c.handle_action(Action::ResetSpeed), Response::Idle));
    assert_eq!(c.pacing().step_time(), 50);
    assert!(matches!(c.handle_action(Action::TogglePause), Response::Idle));
    assert!(c.pacing().paused());
    assert!(matches!(c.handle_action(Action::TogglePause), Response::Idle));
    assert!(!c.pacing().paused());
    match c.handle_action(Action::ToggleCell) {
        Response::Render(cs) => assert_eq!(cs.get(2, 2).map(|ch| (ch.state, ch.selected)), Some((Cell::Alive, true))),
        _ => panic!("expected changes"),
    }
    assert!(c.pacing().paused());
    assert_eq!(c.model().get(2, 2), 1);
    match c.handle_action(Action::MoveCursor(Direction::Down)) {
        Response::Render(cs) => {
            assert_eq!(cs.len(), 2);
            assert_eq!(cs.get(2, 3).map(|ch| ch.selected), Some(true));
            assert_eq!(cs.get(2, 2).map(|ch| (ch.state, ch.selected)), Some((Cell::Alive, false)));
        }
        _ => panic!("expected changes"),
    }
    assert_eq!(c.model().selected(), (2, 3));
    assert!(matches!(c.handle_action(Action::Quit), Response::Quit));
}

#[test]
fn tick_follows_the_pace() {
    let mut c = Controller::new(5, 5, 0);
    c.handle_pointer(2, 2, true);
    assert!(c.tick(49).is_none());
    assert_eq!(c.model().get(2, 2), 1);
    let cs = c.tick(50).expect("a generation is due");
    assert_eq!(cs.get(2, 2).map(|ch| ch.state), Some(Cell::Dead));
    assert_eq!(c.model().get(2, 2), 0);
    assert!(c.tick(99).is_none());
    assert!(c.tick(100).is_some());
    c.handle_action(Action::TogglePause);
    assert!(c.tick(10_000).is_none());
}

#[test]
fn pointer_moves_or_paints() {
    let mut c = Controller::new(6, 4, 0);
    let cs = c.handle_pointer(0, 0, false);
    assert_eq!(c.model().selected(), (0, 0));
    assert_eq!(cs.len(), 2);
    let cs = c.handle_pointer(5, 3, true);
    assert_eq!(c.model().selected(), (0, 0));
    assert_eq!(cs.get(5, 3).map(|ch| (ch.state, ch.selected)), Some((Cell::Alive, false)));
    assert_eq!(c.model().get(5, 3), 1);
}
