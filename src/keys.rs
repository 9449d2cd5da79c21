//! Input events as the widget sees them.
use vstd::prelude::*;

verus! {

/// A key of the keyboard, without its modifiers.
#[derive(Debug, Clone, Copy, PartialEq, Eq, Structural)]
pub enum KeyCode {
    Backspace,
    Enter,
    Left,
    Right,
    Up,
    Down,
    Home,
    End,
    PageUp,
    PageDown,
    Tab,
    BackTab,
    Delete,
    Insert,
    F(u8),
    Char(char),
    Null,
    Esc,
}

/// A set of modifier keys held down, one bit each.
#[derive(Debug, Clone, Copy, PartialEq, Eq, Structural)]
pub struct KeyModifiers {
    pub bits: u8,
}

impl KeyModifiers {
    pub const SHIFT_BIT: u8 = 1;
    pub const CONTROL_BIT: u8 = 2;
    pub const ALT_BIT: u8 = 4;

    pub fn none() -> (r: KeyModifiers)
        ensures
            r.bits == 0,
    {
        KeyModifiers { bits: 0 }
    }

    pub fn shift() -> (r: KeyModifiers)
        ensures
            r.bits == Self::SHIFT_BIT,
    {
        KeyModifiers { bits: Self::SHIFT_BIT }
    }

    pub fn control() -> (r: KeyModifiers)
        ensures
            r.bits == Self::CONTROL_BIT,
    {
        KeyModifiers { bits: Self::CONTROL_BIT }
    }

    pub fn alt() -> (r: KeyModifiers)
        ensures
            r.bits == Self::ALT_BIT,
    {
        KeyModifiers { bits: Self::ALT_BIT }
    }

    pub fn is_empty(&self) -> (r: bool)
        ensures
            r == (self.bits == 0),
    {
        self.bits == 0
    }
}

/// A key press: the key and the modifiers held with it.
#[derive(Debug, Clone, Copy, PartialEq, Eq, Structural)]
pub struct KeyEvent {
    pub code: KeyCode,
    pub modifiers: KeyModifiers,
}

impl KeyEvent {
    pub fn new(code: KeyCode, modifiers: KeyModifiers) -> (r: KeyEvent)
        ensures
            r == (KeyEvent { code, modifiers }),
    {
        KeyEvent { code, modifiers }
    }
}

/// An event of the terminal: a key press, or a pointer action at a cell.
#[derive(Debug, Clone, Copy, PartialEq, Eq, Structural)]
pub enum Event {
    Key(KeyEvent),
    Click(u16, u16, KeyModifiers),
    RightClick(u16, u16, KeyModifiers),
    DoubleClick(u16, u16),
    Resize(u16, u16),
    Wheel(i32),
}

} // verus!
