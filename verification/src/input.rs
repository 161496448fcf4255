//! Input events and the key map.
//!
//! A front end turns whatever its terminal delivers into an [`InputEvent`];
//! [`handle_event`] maps the event to what the user meant by it, and
//! [`should_quit`] tells whether it closes the help overlay.

use vstd::prelude::*;

verus! {

/// The key of a key event, as far as the picker tells keys apart.
#[derive(Debug, Clone, Copy, PartialEq, Eq, Structural)]
pub enum Key {
    /// A character key, upper and lower case told apart.
    Char(char),
    Up,
    Down,
    Home,
    End,
    Enter,
    Tab,
    Esc,
    /// Any other key.
    Other,
}

/// What happened to the key.
#[derive(Debug, Clone, Copy, PartialEq, Eq, Structural)]
pub enum KeyKind {
    Press,
    Repeat,
    Release,
}

/// One event read from the terminal.
#[derive(Debug, Clone, Copy, PartialEq, Eq, Structural)]
pub enum InputEvent {
    /// A key event.
    Key { code: Key, kind: KeyKind },
    /// Anything that is not a key event: mouse, resize, focus, paste.
    Other,
}

/// What the user asks for.
#[derive(Debug, Clone, Copy, PartialEq, Eq, Structural)]
pub enum Message {
    /// Show the help overlay.
    OpenHelp,
    /// Move the cursor of the focused list by one, wrapping at the ends.
    MoveSelection { is_down: bool },
    /// Move the cursor of the focused list to its first or last entry.
    JumpSelection { to_start: bool },
    /// Hand the highlighted entry over to the other list.
    Select,
    /// Give the focus to the other list.
    ChangeFocus,
    /// End the session.
    Quit,
}

/// The message that a pressed key stands for, if any.
pub open spec fn key_message(code: Key) -> Option<Message> {
    match code {
        Key::Char(c) => if c == 'j' {
            Some(Message::MoveSelection { is_down: true })
        } else if c == 'k' {
            Some(Message::MoveSelection { is_down: false })
        } else if c == 'q' {
            Some(Message::Quit)
        } else if c == '?' {
            Some(Message::OpenHelp)
        } else if c == 'g' {
            Some(Message::JumpSelection { to_start: true })
        } else if c == 'G' {
            Some(Message::JumpSelection { to_start: false })
        } else {
            None
        },
        Key::Up => Some(Message::MoveSelection { is_down: false }),
        Key::Down => Some(Message::MoveSelection { is_down: true }),
        Key::Home => Some(Message::JumpSelection { to_start: true }),
        Key::End => Some(Message::JumpSelection { to_start: false }),
        Key::Enter => Some(Message::Select),
        Key::Tab => Some(Message::ChangeFocus),
        Key::Esc => Some(Message::Quit),
        Key::Other => None,
    }
}

/// The message that an event stands for: that of its key if the event is a
/// key press, none for a repeat, a release or any other event.
pub open spec fn classify(event: InputEvent) -> Option<Message> {
    match event {
        InputEvent::Key { code, kind: KeyKind::Press } => key_message(code),
        _ => None,
    }
}

/// Whether an event closes the help overlay: a press of Enter, `q` or `?`.
pub open spec fn dismisses(event: InputEvent) -> bool {
    match event {
        InputEvent::Key { code, kind: KeyKind::Press } => code == Key::Enter || code == Key::Char(
            'q',
        ) || code == Key::Char('?'),
        _ => false,
    }
}

/// Maps an event to the message it stands for, or to `None` if it is ignored.
pub fn handle_event(event: InputEvent) -> (msg: Option<Message>)
    ensures
        msg == classify(event),
{
    match event {
        InputEvent::Key { code, kind: KeyKind::Press } => match code {
            Key::Char(c) => match c {
                'j' => Some(Message::MoveSelection { is_down: true }),
                'k' => Some(Message::MoveSelection { is_down: false }),
                'q' => Some(Message::Quit),
                '?' => Some(Message::OpenHelp),
                'g' => Some(Message::JumpSelection { to_start: true }),
                'G' => Some(Message::JumpSelection { to_start: false }),
                _ => None,
            },
            Key::Up => Some(Message::MoveSelection { is_down: false }),
            Key::Down => Some(Message::MoveSelection { is_down: true }),
            Key::Home => Some(Message::JumpSelection { to_start: true }),
            Key::End => Some(Message::JumpSelection { to_start: false }),
            Key::Enter => Some(Message::Select),
            Key::Tab => Some(Message::ChangeFocus),
            Key::Esc => Some(Message::Quit),
            Key::Other => None,
        },
        _ => None,
    }
}

/// Whether the event closes the help overlay.
pub fn should_quit(event: InputEvent) -> (quit: bool)
    ensures
        quit == dismisses(event),
{
    match event {
        InputEvent::Key { code, kind: KeyKind::Press } => match code {
            Key::Enter => true,
            Key::Char(c) => c == 'q' || c == '?',
            _ => false,
        },
        _ => false,
    }
}

} // verus!
