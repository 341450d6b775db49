//! Key events with modifier flags, event kind and keyboard state.

use vstd::prelude::*;
pub use crate::event::KeyCode;
use crate::event::key_code;

verus! {

/// Represents a keyboard event kind.
#[derive(Debug, Clone, Copy, PartialEq, Eq, Structural)]
pub enum KeyEventKind {
    /// A key has been pressed; this correlates to `keydown`, not `keypress`.
    Press,
    /// Any event in which `event.repeat` is true.
    Repeat,
    /// A key has been released.
    Release,
}

/// Bit of the shift key.
pub const SHIFT: u8 = 0b0000_0001;
/// Bit of the control key.
pub const CONTROL: u8 = 0b0000_0010;
/// Bit of the alt key.
pub const ALT: u8 = 0b0000_0100;
/// Bit of the meta key.
pub const META: u8 = 0b0010_0000;

/// Key modifiers (shift, control, alt, etc.), held as bits.
#[derive(Debug, Clone, Copy, PartialEq, Eq, Structural)]
pub struct KeyModifiers {
    pub bits: u8,
}

/// Bit of a key event from the keypad.
pub const KEYPAD: u8 = 0b0000_0001;
/// Bit of Caps Lock being enabled.
pub const CAPS_LOCK: u8 = 0b0000_0010;
/// Bit of Num Lock being enabled.
pub const NUM_LOCK: u8 = 0b0000_0100;

/// Extra state about a key event, held as bits.
#[derive(Debug, Clone, Copy, PartialEq, Eq, Structural)]
pub struct KeyEventState {
    pub bits: u8,
}

/// A key event.
#[derive(Debug, Clone, Copy, PartialEq, Eq, Structural)]
pub struct KeyEvent {
    /// The key code.
    pub code: KeyCode,
    /// Additional key modifiers.
    pub modifiers: KeyModifiers,
    /// Kind of event.
    pub kind: KeyEventKind,
    /// Keyboard state.
    pub state: KeyEventState,
}

/// The modifier bits of the shift, control, alt and meta keys.
pub open spec fn modifier_bits(shift: bool, ctrl: bool, alt: bool, meta: bool) -> u8 {
    (if shift { SHIFT } else { 0u8 }) | (if ctrl { CONTROL } else { 0u8 }) | (if alt { ALT } else { 0u8 })
        | (if meta { META } else { 0u8 })
}

impl KeyEvent {
    /// The key event of a browser keydown, its key value looked up by its key
    /// code name: a repeated key is a repeat, any other a press; the shift,
    /// control, alt and meta keys are its modifiers; no extra state.
    pub fn from_key_and_code(
        key: &str,
        code: &str,
        shift: bool,
        ctrl: bool,
        alt: bool,
        meta: bool,
        repeat: bool,
    ) -> (r: KeyEvent)
        ensures
            r == (KeyEvent {
                code: key_code(key@, code@),
                modifiers: KeyModifiers { bits: modifier_bits(shift, ctrl, alt, meta) },
                kind: if repeat { KeyEventKind::Repeat } else { KeyEventKind::Press },
                state: KeyEventState { bits: 0 },
            }),
    {
        let s: u8 = if shift { SHIFT } else { 0 };
        let c: u8 = if ctrl { CONTROL } else { 0 };
        let a: u8 = if alt { ALT } else { 0 };
        let m: u8 = if meta { META } else { 0 };
        KeyEvent {
            code: KeyCode::from_key_and_name(key, code),
            modifiers: KeyModifiers { bits: s | c | a | m },
            kind: if repeat { KeyEventKind::Repeat } else { KeyEventKind::Press },
            state: KeyEventState { bits: 0 },
        }
    }
}

} // verus!
