use termgrid::input::{
    ButtonState, KeyCode, KeyboardInput, TermKeyCode, TerminalResize, TerminalState,
    charcode_to_key_code, should_exit, terminal_keycode_to_logical,
};
use termgrid::on_exit::{CallbackRegistry, exit_triggered};

#[test]
fn scenario_key_press_drains_as_pressed_then_released() {
    let mut state = TerminalState::new();
    state.push_key(TermKeyCode::Char('D'));
    let (events, resize) = state.drain();
    assert_eq!(events.len(), 2);
    assert_eq!(events[0].key_code, Some(KeyCode::D));
    assert_eq!(events[0].state, ButtonState::Pressed);
    assert_eq!(events[1].key_code, Some(KeyCode::D));
    assert_eq!(events[1].state, ButtonState::Released);
    assert!(resize.is_none());
    // The queue is empty afterwards: a second drain yields nothing.
    let (again, _) = state.drain();
    assert!(again.is_empty());
}

#[test]
fn drain_keeps_arrival_order() {
    let mut state = TerminalState::new();
    state.push_key(TermKeyCode::Char('a'));
    state.push_key(TermKeyCode::Esc);
    state.push_key(TermKeyCode::Left);
    let (events, _) = state.drain();
    assert_eq!(events.len(), 6);
    assert_eq!(events[0].key_code, Some(KeyCode::A));
    assert_eq!(events[2].key_code, Some(KeyCode::Escape));
    assert_eq!(events[4].key_code, Some(KeyCode::Left));
}

#[test]
fn resizes_coalesce_to_the_latest() {
    let mut state = TerminalState::new();
    state.set_resize(TerminalResize { width: 80, height: 24 });
    state.set_resize(TerminalResize { width: 120, height: 40 });
    state.push_key(TermKeyCode::Enter);
    let (events, resize) = state.drain();
    assert_eq!(events.len(), 2);
    assert_eq!(resize, Some(TerminalResize { width: 120, height: 40 }));
    let (_, resize_again) = state.drain();
    assert!(resize_again.is_none());
}

#[test]
fn key_table_folds_case_and_maps_digits() {
    assert_eq!(charcode_to_key_code('d'), KeyCode::D);
    assert_eq!(charcode_to_key_code('D'), KeyCode::D);
    assert_eq!(charcode_to_key_code('z'), KeyCode::Z);
    assert_eq!(charcode_to_key_code('0'), KeyCode::Key0);
    assert_eq!(charcode_to_key_code('7'), KeyCode::Key7);
    assert_eq!(terminal_keycode_to_logical(&TermKeyCode::Backspace), Some(KeyCode::Back));
    assert_eq!(terminal_keycode_to_logical(&TermKeyCode::PageDown), Some(KeyCode::PageDown));
    assert_eq!(terminal_keycode_to_logical(&TermKeyCode::Char('q')), Some(KeyCode::Q));
}

#[test]
fn escape_or_q_requests_exit() {
    let plain = KeyboardInput {
        scan_code: 0,
        key_code: Some(KeyCode::W),
        state: ButtonState::Pressed,
    };
    assert!(!should_exit(&vec![plain]));
    let esc = KeyboardInput {
        scan_code: 0,
        key_code: Some(KeyCode::Escape),
        state: ButtonState::Released,
    };
    assert!(should_exit(&vec![plain, esc]));
    let q = KeyboardInput { scan_code: 0, key_code: Some(KeyCode::Q), state: ButtonState::Pressed };
    assert!(should_exit(&vec![q]));
    assert!(!should_exit(&Vec::new()));
}

#[test]
fn callbacks_drain_once_in_registration_order() {
    let mut registry: CallbackRegistry<u32> = CallbackRegistry::new();
    registry.register(1);
    registry.register(2);
    registry.register(3);
    assert!(!registry.is_empty());
    assert_eq!(registry.drain(), vec![1, 2, 3]);
    assert!(registry.is_empty());
    // Drained means drained: a second round has nothing to run.
    assert_eq!(registry.drain(), Vec::<u32>::new());
    // A late registrant is still reachable by a later trigger.
    registry.register(9);
    assert_eq!(registry.drain(), vec![9]);
}

#[test]
fn any_trigger_runs_the_hooks() {
    assert!(exit_triggered(true, false));
    assert!(exit_triggered(false, true));
    assert!(exit_triggered(true, true));
    assert!(!exit_triggered(false, false));
}
