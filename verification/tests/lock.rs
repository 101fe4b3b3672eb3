use minlock::application::{AppState, Application, Effects, KeyEvent, TimerCommand};

fn no_effects() -> Effects {
    Effects { render: None, timer: TimerCommand::Keep, auth_request: None }
}

#[test]
fn fresh_machine_is_idle() {
    let app = Application::new();
    assert_eq!(app.current_state(), AppState::Idle);
    assert_eq!(app.password_len(), 0);
    assert!(!app.timer_pending());
}

#[test]
fn typing_counts_characters() {
    let mut app = Application::new();
    let e = app.handle_key(KeyEvent::Char('a'));
    assert_eq!(app.current_state(), AppState::Input(1));
    assert_eq!(e.render, Some(AppState::Input(1)));
    assert_eq!(e.timer, TimerCommand::Rearm);
    assert_eq!(e.auth_request, None);
    app.handle_key(KeyEvent::Char('b'));
    assert_eq!(app.current_state(), AppState::Input(2));
    assert_eq!(app.password_len(), 2);
}

#[test]
fn backspace_on_empty_stays_idle() {
    let mut app = Application::new();
    for _ in 0..5 {
        let e = app.handle_key(KeyEvent::Backspace);
        assert_eq!(app.current_state(), AppState::Idle);
        assert_eq!(app.password_len(), 0);
        // No transition happened: nothing to render, no timer touched.
        assert_eq!(e, no_effects());
    }
}

#[test]
fn backspace_steps_down_to_idle() {
    let mut app = Application::new();
    app.handle_key(KeyEvent::Char('a'));
    app.handle_key(KeyEvent::Char('b'));
    let e = app.handle_key(KeyEvent::Backspace);
    assert_eq!(app.current_state(), AppState::Input(1));
    assert_eq!(e.render, Some(AppState::Input(1)));
    let e = app.handle_key(KeyEvent::Backspace);
    // Removing the last character rests the indicator.
    assert_eq!(app.current_state(), AppState::Idle);
    assert_eq!(e.render, Some(AppState::Idle));
    assert_eq!(e.timer, TimerCommand::Rearm);
}

#[test]
fn escape_clears_input() {
    let mut app = Application::new();
    app.handle_key(KeyEvent::Char('a'));
    app.handle_key(KeyEvent::Char('b'));
    let e = app.handle_key(KeyEvent::Escape);
    assert_eq!(app.current_state(), AppState::Input(0));
    assert_eq!(app.password_len(), 0);
    assert_eq!(e.render, Some(AppState::Input(0)));
    assert_eq!(e.timer, TimerCommand::Rearm);
}

#[test]
fn enter_snapshots_password_and_blocks() {
    let mut app = Application::new();
    app.handle_key(KeyEvent::Char('a'));
    app.handle_key(KeyEvent::Char('b'));
    let e = app.handle_key(KeyEvent::Enter);
    assert_eq!(app.current_state(), AppState::Verifying);
    assert_eq!(e.render, Some(AppState::Verifying));
    // Entering the check suppresses the idle timer.
    assert_eq!(e.timer, TimerCommand::Disarm);
    assert!(!app.timer_pending());
    assert_eq!(e.auth_request, Some(vec!['a', 'b']));
    // The machine keeps its own copy of the text.
    assert_eq!(app.password_len(), 2);
}

#[test]
fn verifying_blocks_all_input() {
    let mut app = Application::new();
    app.handle_key(KeyEvent::Char('a'));
    app.handle_key(KeyEvent::Char('b'));
    app.handle_key(KeyEvent::Enter);
    for key in [
        KeyEvent::Char('x'),
        KeyEvent::Backspace,
        KeyEvent::Escape,
        KeyEvent::Enter,
    ] {
        let e = app.handle_key(key);
        // No keystroke changes the password buffer or re-triggers a check.
        assert_eq!(app.current_state(), AppState::Verifying);
        assert_eq!(app.password_len(), 2);
        assert_eq!(e, no_effects());
    }
    // With no timer pending, a stray expiry cannot decay the state either.
    let e = app.on_idle_timeout();
    assert_eq!(app.current_state(), AppState::Verifying);
    assert_eq!(e, no_effects());
}

#[test]
fn failed_check_clears_password_then_decays() {
    let mut app = Application::new();
    app.handle_key(KeyEvent::Char('a'));
    app.handle_key(KeyEvent::Enter);
    let e = app.on_auth_result(false);
    assert_eq!(app.current_state(), AppState::Invalid);
    assert_eq!(app.password_len(), 0);
    assert_eq!(e.render, Some(AppState::Invalid));
    assert_eq!(e.timer, TimerCommand::Rearm);
    let e = app.on_idle_timeout();
    assert_eq!(app.current_state(), AppState::Idle);
    assert_eq!(e.render, Some(AppState::Idle));
}

#[test]
fn idle_decay_supersedes_earlier_timer() {
    let mut app = Application::new();
    let e1 = app.handle_key(KeyEvent::Char('a'));
    assert_eq!(e1.timer, TimerCommand::Rearm);
    // The second transition's arming cancels and replaces the first's:
    // only one timer is ever pending.
    let e2 = app.handle_key(KeyEvent::Char('b'));
    assert_eq!(e2.timer, TimerCommand::Rearm);
    assert!(app.timer_pending());
    let e = app.on_idle_timeout();
    assert_eq!(app.current_state(), AppState::Idle);
    assert_eq!(e.render, Some(AppState::Idle));
    assert!(!app.timer_pending());
    // The spent timer does not fire twice.
    let e = app.on_idle_timeout();
    assert_eq!(e, no_effects());
    assert_eq!(app.current_state(), AppState::Idle);
}

#[test]
fn end_to_end_wrong_password() {
    let mut app = Application::new();
    let mut states = Vec::new();
    for ch in ['a', 'b', 'c'] {
        app.handle_key(KeyEvent::Char(ch));
        states.push(app.current_state());
    }
    assert_eq!(
        states,
        vec![AppState::Input(1), AppState::Input(2), AppState::Input(3)]
    );
    let e = app.handle_key(KeyEvent::Enter);
    assert_eq!(app.current_state(), AppState::Verifying);
    // The credential check is invoked with the password "abc".
    assert_eq!(e.auth_request, Some(vec!['a', 'b', 'c']));
    app.on_auth_result(false);
    assert_eq!(app.current_state(), AppState::Invalid);
    assert_eq!(app.password_len(), 0);
    // Two seconds of inactivity later, the pending idle timer fires.
    app.on_idle_timeout();
    assert_eq!(app.current_state(), AppState::Idle);
}

#[test]
fn success_is_terminal() {
    let mut app = Application::new();
    app.handle_key(KeyEvent::Char('a'));
    app.handle_key(KeyEvent::Enter);
    let e = app.on_auth_result(true);
    assert_eq!(app.current_state(), AppState::Success);
    assert_eq!(e.render, Some(AppState::Success));
    // No further idle timer is armed.
    assert_eq!(e.timer, TimerCommand::Disarm);
    assert!(!app.timer_pending());
    // No further input transitions are accepted.
    for key in [
        KeyEvent::Char('x'),
        KeyEvent::Backspace,
        KeyEvent::Escape,
        KeyEvent::Enter,
    ] {
        let e = app.handle_key(key);
        assert_eq!(app.current_state(), AppState::Success);
        assert_eq!(e, no_effects());
    }
    let e = app.on_idle_timeout();
    assert_eq!(app.current_state(), AppState::Success);
    assert_eq!(e, no_effects());
    // Even a stray second result changes nothing.
    let e = app.on_auth_result(false);
    assert_eq!(app.current_state(), AppState::Success);
    assert_eq!(e, no_effects());
}

#[test]
fn stale_auth_result_is_rejected() {
    let mut app = Application::new();
    let e = app.on_auth_result(true);
    assert_eq!(app.current_state(), AppState::Idle);
    assert_eq!(e, no_effects());
    app.handle_key(KeyEvent::Char('a'));
    let e = app.on_auth_result(false);
    assert_eq!(app.current_state(), AppState::Input(1));
    assert_eq!(app.password_len(), 1);
    assert_eq!(e, no_effects());
}

#[test]
fn submit_from_idle_sends_empty_password() {
    let mut app = Application::new();
    let e = app.handle_key(KeyEvent::Enter);
    assert_eq!(app.current_state(), AppState::Verifying);
    assert_eq!(e.auth_request, Some(Vec::new()));
}

#[test]
fn idle_decay_keeps_typed_text() {
    // Idle decay reverts only the visual state; the typed text survives
    // and the next character continues the count.
    let mut app = Application::new();
    app.handle_key(KeyEvent::Char('a'));
    app.handle_key(KeyEvent::Char('b'));
    app.on_idle_timeout();
    assert_eq!(app.current_state(), AppState::Idle);
    assert_eq!(app.password_len(), 2);
    app.handle_key(KeyEvent::Char('c'));
    assert_eq!(app.current_state(), AppState::Input(3));
}
