use vstd::prelude::*;

verus! {

/// Bit of the Shift modifier.
pub const SHIFT: u8 = 0b0000_0001;

/// Bit of the Control modifier.
pub const CONTROL: u8 = 0b0000_0010;

/// Bit of the Alt modifier.
pub const ALT: u8 = 0b0000_0100;

/// The keys that the editor tells apart; all others are `Other`.
#[derive(Clone, Copy, Debug, PartialEq, Eq, Structural)]
pub enum KeyCode {
    Char(char),
    Enter,
    Esc,
    Tab,
    Backspace,
    Other,
}

/// Whether a key was pressed, held or released.
#[derive(Clone, Copy, Debug, PartialEq, Eq, Structural)]
pub enum KeyEventKind {
    Press,
    Repeat,
    Release,
}

/// A key, the modifiers held as a set of bits, and the key's name as the
/// terminal prints it (`"a"`, `"Space"`, `"Left"`, ...).
#[derive(Debug)]
pub struct KeyEvent {
    pub code: KeyCode,
    pub modifiers: u8,
    pub kind: KeyEventKind,
    pub name: String,
}

/// An input event of the terminal; all but keys are alike to the editor.
#[derive(Debug)]
pub enum Event {
    Key(KeyEvent),
    Other,
}

impl Event {
    /// The key of a key press, `None` for any other event.
    pub open spec fn pressed(&self) -> Option<KeyEvent> {
        match self {
            Event::Key(k) => if k.kind == KeyEventKind::Press {
                Some(*k)
            } else {
                None
            },
            Event::Other => None,
        }
    }
}

} // verus!
