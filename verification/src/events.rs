//! The input events the application reacts to, as plain values: the event
//! source decodes terminal input into these before any logic runs.

use vstd::prelude::*;

verus! {

/// The key codes the controllers distinguish; every other key is `Other`.
#[derive(PartialEq, Eq, Structural, Clone, Copy)]
pub enum KeyCode {
    Up,
    Down,
    Enter,
    Esc,
    Backspace,
    Char(char),
    Other,
}

/// One key event: its code, whether it is a press (as opposed to a release
/// or repeat), and whether the control modifier is held.
#[derive(PartialEq, Eq, Structural, Clone, Copy)]
pub struct KeyEvent {
    pub code: KeyCode,
    pub is_press: bool,
    pub ctrl: bool,
}

/// One event from the input source.
#[derive(PartialEq, Eq, Structural, Clone, Copy)]
pub enum InputEvent {
    Key(KeyEvent),
    Other,
}

/// Whether an event ends the session, once the focused controller has had
/// its turn: a pressed quit key or escape quits, unless that controller
/// asked to stay.
pub open spec fn quit_requested(event: InputEvent, prevent_exit: bool) -> bool {
    match event {
        InputEvent::Key(k) => k.is_press && (k.code == KeyCode::Char('q') || k.code
            == KeyCode::Esc) && !prevent_exit,
        InputEvent::Other => false,
    }
}

/// The top-level quit decision, taken after the focused controller handled
/// the event and said whether it wants to keep the session alive.
pub fn should_quit_after(event: &InputEvent, prevent_exit: bool) -> (r: bool)
    ensures
        r == quit_requested(*event, prevent_exit),
{
    match event {
        InputEvent::Key(k) => {
            if !k.is_press {
                return false;
            }
            let is_quit_key = match k.code {
                KeyCode::Esc => true,
                KeyCode::Char(c) => c == 'q',
                _ => false,
            };
            is_quit_key && !prevent_exit
        },
        InputEvent::Other => false,
    }
}

} // verus!
