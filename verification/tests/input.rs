use triage::input::{handle_event, should_quit, InputEvent, Key, KeyKind, Message};

fn pressed(code: Key) -> InputEvent {
    InputEvent::Key { code, kind: KeyKind::Press }
}

#[test]
fn letters_move_the_cursor() {
    assert_eq!(
        handle_event(pressed(Key::Char('j'))),
        Some(Message::MoveSelection { is_down: true })
    );
    assert_eq!(
        handle_event(pressed(Key::Char('k'))),
        Some(Message::MoveSelection { is_down: false })
    );
}

#[test]
fn arrows_move_the_cursor() {
    assert_eq!(handle_event(pressed(Key::Down)), Some(Message::MoveSelection { is_down: true }));
    assert_eq!(handle_event(pressed(Key::Up)), Some(Message::MoveSelection { is_down: false }));
}

#[test]
fn g_and_home_jump_to_the_start() {
    assert_eq!(
        handle_event(pressed(Key::Char('g'))),
        Some(Message::JumpSelection { to_start: true })
    );
    assert_eq!(handle_event(pressed(Key::Home)), Some(Message::JumpSelection { to_start: true }));
}

#[test]
fn capital_g_and_end_jump_to_the_end() {
    assert_eq!(
        handle_event(pressed(Key::Char('G'))),
        Some(Message::JumpSelection { to_start: false })
    );
    assert_eq!(handle_event(pressed(Key::End)), Some(Message::JumpSelection { to_start: false }));
}

#[test]
fn enter_selects_and_tab_changes_focus() {
    assert_eq!(handle_event(pressed(Key::Enter)), Some(Message::Select));
    assert_eq!(handle_event(pressed(Key::Tab)), Some(Message::ChangeFocus));
}

#[test]
fn q_and_escape_quit() {
    assert_eq!(handle_event(pressed(Key::Char('q'))), Some(Message::Quit));
    assert_eq!(handle_event(pressed(Key::Esc)), Some(Message::Quit));
}

#[test]
fn question_mark_opens_the_help() {
    assert_eq!(handle_event(pressed(Key::Char('?'))), Some(Message::OpenHelp));
}

#[test]
fn letter_keys_are_case_sensitive() {
    assert_eq!(handle_event(pressed(Key::Char('J'))), None);
    assert_eq!(handle_event(pressed(Key::Char('K'))), None);
    assert_eq!(handle_event(pressed(Key::Char('Q'))), None);
}

#[test]
fn other_keys_are_ignored() {
    assert_eq!(handle_event(pressed(Key::Char('x'))), None);
    assert_eq!(handle_event(pressed(Key::Char(' '))), None);
    assert_eq!(handle_event(pressed(Key::Char('/'))), None);
    assert_eq!(handle_event(pressed(Key::Other)), None);
}

#[test]
fn only_presses_count() {
    let codes = [
        Key::Char('j'),
        Key::Char('q'),
        Key::Char('?'),
        Key::Up,
        Key::Down,
        Key::Home,
        Key::End,
        Key::Enter,
        Key::Tab,
        Key::Esc,
    ];
    for code in codes {
        assert!(handle_event(pressed(code)).is_some());
        assert_eq!(handle_event(InputEvent::Key { code, kind: KeyKind::Repeat }), None);
        assert_eq!(handle_event(InputEvent::Key { code, kind: KeyKind::Release }), None);
    }
}

#[test]
fn events_that_are_no_key_are_ignored() {
    assert_eq!(handle_event(InputEvent::Other), None);
    assert!(!should_quit(InputEvent::Other));
}

#[test]
fn enter_q_and_question_mark_close_the_help() {
    assert!(should_quit(pressed(Key::Enter)));
    assert!(should_quit(pressed(Key::Char('q'))));
    assert!(should_quit(pressed(Key::Char('?'))));
}

#[test]
fn nothing_else_closes_the_help() {
    assert!(!should_quit(pressed(Key::Esc)));
    assert!(!should_quit(pressed(Key::Tab)));
    assert!(!should_quit(pressed(Key::Char('Q'))));
    assert!(!should_quit(pressed(Key::Char('j'))));
    assert!(!should_quit(pressed(Key::Other)));
    assert!(!should_quit(InputEvent::Key { code: Key::Enter, kind: KeyKind::Release }));
    assert!(!should_quit(InputEvent::Key { code: Key::Char('q'), kind: KeyKind::Repeat }));
}
