//! What the terminal reports: a key, or a click.

use vstd::prelude::*;

verus! {

/// Which key. A key nothing here reads is `Other`.
#[derive(Clone, Copy, Debug, PartialEq, Eq, Structural)]
pub enum KeyCode {
    Char(char),
    Enter,
    Esc,
    Tab,
    Backspace,
    Delete,
    Left,
    Right,
    Up,
    Down,
    Home,
    End,
    PageUp,
    PageDown,
    Other,
}

/// One key, with what the terminal says beside it.
#[derive(Clone, Copy, Debug, PartialEq, Eq, Structural)]
pub struct KeyEvent {
    pub code: KeyCode,
    /// Whether Ctrl was held.
    pub control: bool,
    /// Whether it went down, rather than repeating or coming up.
    pub press: bool,
}

impl KeyEvent {
    /// A key that went down by itself.
    pub fn new(code: KeyCode) -> (key: Self)
        ensures
            key == (KeyEvent { code, control: false, press: true }),
    {
        KeyEvent { code, control: false, press: true }
    }
}

/// What the mouse did.
#[derive(Clone, Copy, Debug, PartialEq, Eq, Structural)]
pub enum MouseKind {
    Down,
    ScrollDown,
    ScrollUp,
    Other,
}

/// What the mouse did, and over which cell.
#[derive(Clone, Copy, Debug, PartialEq, Eq, Structural)]
pub struct MouseEvent {
    pub kind: MouseKind,
    pub column: u16,
    pub row: u16,
}

/// A key by itself is pressed and held with no other.
pub proof fn law_a_key_by_itself_is_pressed(code: KeyCode, key: KeyEvent)
    requires
        call_ensures(KeyEvent::new, (code,), key),
    ensures
        key.code == code,
        key.press,
        !key.control,
{
}

} // verus!
