//! Keyboard and mouse events, and how browser event data maps onto them.

pub mod key;
pub mod mouse;

use vstd::prelude::*;
use crate::text::str_eq;
use crate::event::key::KeyEvent as FullKeyEvent;
use crate::event::mouse::MouseEvent as PlainMouseEvent;
use vstd::string::StringSliceAdditionalSpecFns;

verus! {

/// A key code.
#[derive(Debug, Clone, Copy, PartialEq, Eq, Structural)]
pub enum KeyCode {
    /// Normal letter key input.
    Char(char),
    /// F keys.
    F(u8),
    /// Backspace key
    Backspace,
    /// Enter or return key
    Enter,
    /// Left arrow key
    Left,
    /// Right arrow key
    Right,
    /// Up arrow key
    Up,
    /// Down arrow key
    Down,
    /// Tab key
    Tab,
    /// Delete key
    Delete,
    /// Home key
    Home,
    /// End key
    End,
    /// Page up key
    PageUp,
    /// Page down key
    PageDown,
    /// Escape key
    Esc,
    /// Unidentified.
    Unidentified,
}

/// The key code that a key name stands for; unknown names are unidentified.
pub open spec fn named_key(name: Seq<char>) -> KeyCode {
    if name == "F1"@ { KeyCode::F(1) }
    else if name == "F2"@ { KeyCode::F(2) }
    else if name == "F3"@ { KeyCode::F(3) }
    else if name == "F4"@ { KeyCode::F(4) }
    else if name == "F5"@ { KeyCode::F(5) }
    else if name == "F6"@ { KeyCode::F(6) }
    else if name == "F7"@ { KeyCode::F(7) }
    else if name == "F8"@ { KeyCode::F(8) }
    else if name == "F9"@ { KeyCode::F(9) }
    else if name == "F10"@ { KeyCode::F(10) }
    else if name == "F11"@ { KeyCode::F(11) }
    else if name == "F12"@ { KeyCode::F(12) }
    else if name == "Backspace"@ { KeyCode::Backspace }
    else if name == "Enter"@ { KeyCode::Enter }
    else if name == "ArrowLeft"@ { KeyCode::Left }
    else if name == "ArrowRight"@ { KeyCode::Right }
    else if name == "ArrowUp"@ { KeyCode::Up }
    else if name == "ArrowDown"@ { KeyCode::Down }
    else if name == "Tab"@ { KeyCode::Tab }
    else if name == "Delete"@ { KeyCode::Delete }
    else if name == "Home"@ { KeyCode::Home }
    else if name == "End"@ { KeyCode::End }
    else if name == "PageUp"@ { KeyCode::PageUp }
    else if name == "PageDown"@ { KeyCode::PageDown }
    else if name == "Escape"@ { KeyCode::Esc }
    else { KeyCode::Unidentified }
}

/// The key code of a key value: a key whose text is one byte long is that
/// character; other keys go by `name`.
pub open spec fn key_code(key: Seq<char>, name: Seq<char>) -> KeyCode {
    if key.len() == 1 { KeyCode::Char(key[0]) } else { named_key(name) }
}

/// Looks a key name up in the table of named keys.
pub fn named_key_code(name: &str) -> (r: KeyCode)
    ensures
        r == named_key(name@),
        name@ == "F1"@ ==> r == KeyCode::F(1),
        name@ == "F2"@ ==> r == KeyCode::F(2),
        name@ == "F3"@ ==> r == KeyCode::F(3),
        name@ == "F4"@ ==> r == KeyCode::F(4),
        name@ == "F5"@ ==> r == KeyCode::F(5),
        name@ == "F6"@ ==> r == KeyCode::F(6),
        name@ == "F7"@ ==> r == KeyCode::F(7),
        name@ == "F8"@ ==> r == KeyCode::F(8),
        name@ == "F9"@ ==> r == KeyCode::F(9),
        name@ == "F10"@ ==> r == KeyCode::F(10),
        name@ == "F11"@ ==> r == KeyCode::F(11),
        name@ == "F12"@ ==> r == KeyCode::F(12),
        name@ == "Backspace"@ ==> r == KeyCode::Backspace,
        name@ == "Enter"@ ==> r == KeyCode::Enter,
        name@ == "ArrowLeft"@ ==> r == KeyCode::Left,
        name@ == "ArrowRight"@ ==> r == KeyCode::Right,
        name@ == "ArrowUp"@ ==> r == KeyCode::Up,
        name@ == "ArrowDown"@ ==> r == KeyCode::Down,
        name@ == "Tab"@ ==> r == KeyCode::Tab,
        name@ == "Delete"@ ==> r == KeyCode::Delete,
        name@ == "Home"@ ==> r == KeyCode::Home,
        name@ == "End"@ ==> r == KeyCode::End,
        name@ == "PageUp"@ ==> r == KeyCode::PageUp,
        name@ == "PageDown"@ ==> r == KeyCode::PageDown,
        name@ == "Escape"@ ==> r == KeyCode::Esc,
{
    proof {
        lemma_named_keys(' ', name@);
        reveal_strlit("F1"); reveal_strlit("F2"); reveal_strlit("F3"); reveal_strlit("F4");
        reveal_strlit("F5"); reveal_strlit("F6"); reveal_strlit("F7"); reveal_strlit("F8");
        reveal_strlit("F9"); reveal_strlit("F10"); reveal_strlit("F11"); reveal_strlit("F12");
        reveal_strlit("Backspace"); reveal_strlit("Enter"); reveal_strlit("ArrowLeft");
        reveal_strlit("ArrowRight"); reveal_strlit("ArrowUp"); reveal_strlit("ArrowDown");
        reveal_strlit("Tab"); reveal_strlit("Delete"); reveal_strlit("Home"); reveal_strlit("End");
        reveal_strlit("PageUp"); reveal_strlit("PageDown"); reveal_strlit("Escape");
    }
    if str_eq(name, "F1") { KeyCode::F(1) }
    else if str_eq(name, "F2") { KeyCode::F(2) }
    else if str_eq(name, "F3") { KeyCode::F(3) }
    else if str_eq(name, "F4") { KeyCode::F(4) }
    else if str_eq(name, "F5") { KeyCode::F(5) }
    else if str_eq(name, "F6") { KeyCode::F(6) }
    else if str_eq(name, "F7") { KeyCode::F(7) }
    else if str_eq(name, "F8") { KeyCode::F(8) }
    else if str_eq(name, "F9") { KeyCode::F(9) }
    else if str_eq(name, "F10") { KeyCode::F(10) }
    else if str_eq(name, "F11") { KeyCode::F(11) }
    else if str_eq(name, "F12") { KeyCode::F(12) }
    else if str_eq(name, "Backspace") { KeyCode::Backspace }
    else if str_eq(name, "Enter") { KeyCode::Enter }
    else if str_eq(name, "ArrowLeft") { KeyCode::Left }
    else if str_eq(name, "ArrowRight") { KeyCode::Right }
    else if str_eq(name, "ArrowUp") { KeyCode::Up }
    else if str_eq(name, "ArrowDown") { KeyCode::Down }
    else if str_eq(name, "Tab") { KeyCode::Tab }
    else if str_eq(name, "Delete") { KeyCode::Delete }
    else if str_eq(name, "Home") { KeyCode::Home }
    else if str_eq(name, "End") { KeyCode::End }
    else if str_eq(name, "PageUp") { KeyCode::PageUp }
    else if str_eq(name, "PageDown") { KeyCode::PageDown }
    else if str_eq(name, "Escape") { KeyCode::Esc }
    else { KeyCode::Unidentified }
}

impl KeyCode {
    /// The key code of a browser key value and the name it is looked up by:
    /// a key of exactly one character is that character, others go by the name.
    pub fn from_key_and_name(key: &str, name: &str) -> (r: KeyCode)
        ensures
            r == key_code(key@, name@),
    {
        if key.unicode_len() == 1 {
            KeyCode::Char(key.get_char(0))
        } else {
            named_key_code(name)
        }
    }

    /// The key code of a browser key value, looked up by the key itself.
    pub fn from_key(key: &str) -> (r: KeyCode)
        ensures
            r == key_code(key@, key@),
            key@ == "F1"@ ==> r == KeyCode::F(1),
            key@ == "F2"@ ==> r == KeyCode::F(2),
            key@ == "F3"@ ==> r == KeyCode::F(3),
            key@ == "F4"@ ==> r == KeyCode::F(4),
            key@ == "F5"@ ==> r == KeyCode::F(5),
            key@ == "F6"@ ==> r == KeyCode::F(6),
            key@ == "F7"@ ==> r == KeyCode::F(7),
            key@ == "F8"@ ==> r == KeyCode::F(8),
            key@ == "F9"@ ==> r == KeyCode::F(9),
            key@ == "F10"@ ==> r == KeyCode::F(10),
            key@ == "F11"@ ==> r == KeyCode::F(11),
            key@ == "F12"@ ==> r == KeyCode::F(12),
            key@ == "Backspace"@ ==> r == KeyCode::Backspace,
            key@ == "Enter"@ ==> r == KeyCode::Enter,
            key@ == "ArrowLeft"@ ==> r == KeyCode::Left,
            key@ == "ArrowRight"@ ==> r == KeyCode::Right,
            key@ == "ArrowUp"@ ==> r == KeyCode::Up,
            key@ == "ArrowDown"@ ==> r == KeyCode::Down,
            key@ == "Tab"@ ==> r == KeyCode::Tab,
            key@ == "Delete"@ ==> r == KeyCode::Delete,
            key@ == "Home"@ ==> r == KeyCode::Home,
            key@ == "End"@ ==> r == KeyCode::End,
            key@ == "PageUp"@ ==> r == KeyCode::PageUp,
            key@ == "PageDown"@ ==> r == KeyCode::PageDown,
            key@ == "Escape"@ ==> r == KeyCode::Esc,
    {
        proof {
            lemma_named_keys(' ', key@);
            reveal_strlit("F1"); reveal_strlit("F2"); reveal_strlit("F3"); reveal_strlit("F4");
            reveal_strlit("F5"); reveal_strlit("F6"); reveal_strlit("F7"); reveal_strlit("F8");
            reveal_strlit("F9"); reveal_strlit("F10"); reveal_strlit("F11"); reveal_strlit("F12");
            reveal_strlit("Backspace"); reveal_strlit("Enter"); reveal_strlit("ArrowLeft");
            reveal_strlit("ArrowRight"); reveal_strlit("ArrowUp"); reveal_strlit("ArrowDown");
            reveal_strlit("Tab"); reveal_strlit("Delete"); reveal_strlit("Home"); reveal_strlit("End");
            reveal_strlit("PageUp"); reveal_strlit("PageDown"); reveal_strlit("Escape");
        }
        Self::from_key_and_name(key, key)
    }
}

/// A key event.
#[derive(Debug, Clone, Copy, PartialEq, Eq, Structural)]
pub struct KeyEvent {
    /// The key code.
    pub code: KeyCode,
    /// Whether the control key is pressed.
    pub ctrl: bool,
    /// Whether the alt key is pressed.
    pub alt: bool,
    /// Whether the shift key is pressed.
    pub shift: bool,
}

impl KeyEvent {
    /// The key event of a browser key value and its modifier keys.
    pub fn from_key(key: &str, ctrl: bool, alt: bool, shift: bool) -> (r: KeyEvent)
        ensures
            r == (KeyEvent { code: key_code(key@, key@), ctrl, alt, shift }),
    {
        KeyEvent { code: KeyCode::from_key(key), ctrl, alt, shift }
    }
}

/// A mouse button.
#[derive(Debug, Clone, Copy, PartialEq, Eq, Structural)]
pub enum MouseButton {
    /// Left mouse button
    Left,
    /// Right mouse button
    Right,
    /// Middle mouse button
    Middle,
    /// Back mouse button
    Back,
    /// Forward mouse button
    Forward,
    /// Unnamed mouse button
    Other(i32),
    /// Either left mouse button or no button during move events
    Unidentified,
}

/// The button that a browser button number stands for.
pub open spec fn button_of(button: i16) -> MouseButton {
    if button == 0 { MouseButton::Left }
    else if button == 1 { MouseButton::Middle }
    else if button == 2 { MouseButton::Right }
    else if button == 3 { MouseButton::Back }
    else if button == 4 { MouseButton::Forward }
    else { MouseButton::Other(button as i32) }
}

impl MouseButton {
    /// The button of a browser button number: 0 left, 1 middle, 2 right,
    /// 3 back, 4 forward, any other an unnamed button with its number.
    pub fn from_button(button: i16) -> (r: MouseButton)
        ensures
            r == button_of(button),
    {
        match button {
            0 => MouseButton::Left,
            1 => MouseButton::Middle,
            2 => MouseButton::Right,
            3 => MouseButton::Back,
            4 => MouseButton::Forward,
            _ => MouseButton::Other(button as i32),
        }
    }
}

/// A mouse event kind.
#[derive(Debug, Clone, Copy, PartialEq, Eq, Structural)]
pub enum MouseEventKind {
    /// Mouse moved
    Moved,
    /// Mouse button clicked
    ButtonDown(MouseButton),
    /// Mouse button released
    ButtonUp(MouseButton),
    /// Mouse entered element
    Entered,
    /// Mouse left element
    Exited,
    /// Mouse single click (distinct from mousedown)
    SingleClick(MouseButton),
    /// Mouse double click
    DoubleClick(MouseButton),
    /// Mouse wheel scrolled
    Wheel {
        /// Horizontal scroll delta
        delta_x: i16,
        /// Vertical scroll delta
        delta_y: i16,
        /// Z-axis scroll delta
        delta_z: i16,
    },
    /// Unidentified mouse event
    Unidentified,
}

/// The kind of a browser mouse event of type `event_type`, with the button it
/// reports and, for a wheel event, its deltas when it carries them.
pub open spec fn mouse_kind(event_type: Seq<char>, button: i16, wheel: Option<(i16, i16, i16)>) -> MouseEventKind {
    if event_type == "mousemove"@ { MouseEventKind::Moved }
    else if event_type == "mousedown"@ { MouseEventKind::ButtonDown(button_of(button)) }
    else if event_type == "mouseup"@ { MouseEventKind::ButtonUp(button_of(button)) }
    else if event_type == "mouseenter"@ { MouseEventKind::Entered }
    else if event_type == "mouseleave"@ { MouseEventKind::Exited }
    else if event_type == "click"@ { MouseEventKind::SingleClick(button_of(button)) }
    else if event_type == "dblclick"@ { MouseEventKind::DoubleClick(button_of(button)) }
    else if event_type == "wheel"@ {
        match wheel {
            Some((dx, dy, dz)) => MouseEventKind::Wheel { delta_x: dx, delta_y: dy, delta_z: dz },
            None => MouseEventKind::Wheel { delta_x: 0, delta_y: 0, delta_z: 0 },
        }
    }
    else { MouseEventKind::Unidentified }
}

impl MouseEventKind {
    /// The kind of a browser mouse event from its type, its button number and,
    /// for wheel events, its deltas (all zero when the event carries none).
    pub fn from_event(event_type: &str, button: i16, wheel: Option<(i16, i16, i16)>) -> (r: MouseEventKind)
        ensures
            r == mouse_kind(event_type@, button, wheel),
            event_type@ == "mousemove"@ ==> r == MouseEventKind::Moved,
            event_type@ == "mousedown"@ ==> r == MouseEventKind::ButtonDown(button_of(button)),
            event_type@ == "mouseup"@ ==> r == MouseEventKind::ButtonUp(button_of(button)),
            event_type@ == "mouseenter"@ ==> r == MouseEventKind::Entered,
            event_type@ == "mouseleave"@ ==> r == MouseEventKind::Exited,
            event_type@ == "click"@ ==> r == MouseEventKind::SingleClick(button_of(button)),
            event_type@ == "dblclick"@ ==> r == MouseEventKind::DoubleClick(button_of(button)),
            event_type@ == "wheel"@ ==> r == (match wheel {
                Some((dx, dy, dz)) => MouseEventKind::Wheel { delta_x: dx, delta_y: dy, delta_z: dz },
                None => MouseEventKind::Wheel { delta_x: 0, delta_y: 0, delta_z: 0 },
            }),
    {
        proof {
            lemma_mouse_kinds(button, wheel);
            reveal_strlit("mousemove");
            reveal_strlit("mousedown");
            reveal_strlit("mouseup");
            reveal_strlit("mouseenter");
            reveal_strlit("mouseleave");
            reveal_strlit("click");
            reveal_strlit("dblclick");
            reveal_strlit("wheel");
        }
        if str_eq(event_type, "mousemove") {
            MouseEventKind::Moved
        } else if str_eq(event_type, "mousedown") {
            MouseEventKind::ButtonDown(MouseButton::from_button(button))
        } else if str_eq(event_type, "mouseup") {
            MouseEventKind::ButtonUp(MouseButton::from_button(button))
        } else if str_eq(event_type, "mouseenter") {
            MouseEventKind::Entered
        } else if str_eq(event_type, "mouseleave") {
            MouseEventKind::Exited
        } else if str_eq(event_type, "click") {
            MouseEventKind::SingleClick(MouseButton::from_button(button))
        } else if str_eq(event_type, "dblclick") {
            MouseEventKind::DoubleClick(MouseButton::from_button(button))
        } else if str_eq(event_type, "wheel") {
            match wheel {
                Some((dx, dy, dz)) => MouseEventKind::Wheel { delta_x: dx, delta_y: dy, delta_z: dz },
                None => MouseEventKind::Wheel { delta_x: 0, delta_y: 0, delta_z: 0 },
            }
        } else {
            MouseEventKind::Unidentified
        }
    }
}

/// A mouse movement event.
#[derive(Debug, Clone, Copy, PartialEq, Eq, Structural)]
pub struct MouseEvent {
    /// The triggered event.
    pub kind: MouseEventKind,
    /// The x grid coordinate of the mouse.
    pub col: u16,
    /// The y grid coordinate of the mouse.
    pub row: u16,
    /// Whether the control key is pressed.
    pub ctrl: bool,
    /// Whether the alt key is pressed.
    pub alt: bool,
    /// Whether the shift key is pressed.
    pub shift: bool,
}

impl MouseEvent {
    /// Converts pixel coordinates to grid coordinates: each is divided by the
    /// cell size and cut to 16 bits.
    pub fn pixels_to_grid_coords(pixel_x: u32, pixel_y: u32, cell_size_px: (u32, u32)) -> (r: (u16, u16))
        requires
            cell_size_px.0 > 0,
            cell_size_px.1 > 0,
        ensures
            r == ((pixel_x / cell_size_px.0) as u16, (pixel_y / cell_size_px.1) as u16),
    {
        let col = (pixel_x / cell_size_px.0) as u16;
        let row = (pixel_y / cell_size_px.1) as u16;
        (col, row)
    }

    /// A mouse event at pixel position (`pixel_x`, `pixel_y`), placed on the
    /// grid by the cell size.
    pub fn from_pixels(
        kind: MouseEventKind,
        pixel_x: u32,
        pixel_y: u32,
        cell_size_px: (u32, u32),
        ctrl: bool,
        alt: bool,
        shift: bool,
    ) -> (r: MouseEvent)
        requires
            cell_size_px.0 > 0,
            cell_size_px.1 > 0,
        ensures
            r == (MouseEvent {
                kind,
                col: (pixel_x / cell_size_px.0) as u16,
                row: (pixel_y / cell_size_px.1) as u16,
                ctrl,
                alt,
                shift,
            }),
    {
        let (col, row) = Self::pixels_to_grid_coords(pixel_x, pixel_y, cell_size_px);
        MouseEvent { kind, col, row, ctrl, alt, shift }
    }

    /// A mouse event at viewport position (`client_x`, `client_y`): the
    /// coordinates are taken as unsigned 32-bit values and placed on the grid
    /// by the cell size.
    pub fn from_client(
        kind: MouseEventKind,
        client_x: i32,
        client_y: i32,
        cell_size_px: (u32, u32),
        ctrl: bool,
        alt: bool,
        shift: bool,
    ) -> (r: MouseEvent)
        requires
            cell_size_px.0 > 0,
            cell_size_px.1 > 0,
        ensures
            r == (MouseEvent {
                kind,
                col: ((client_x as u32) / cell_size_px.0) as u16,
                row: ((client_y as u32) / cell_size_px.1) as u16,
                ctrl,
                alt,
                shift,
            }),
    {
        Self::from_pixels(kind, client_x as u32, client_y as u32, cell_size_px, ctrl, alt, shift)
    }
}

/// Keeps grid coordinates on the grid: at most the last column and the last
/// row, or zero on an empty grid.
pub fn clamp_to_grid(col: u16, row: u16, grid_width: u16, grid_height: u16) -> (r: (u16, u16))
    ensures
        r.0 == (if grid_width == 0 { 0 } else if col < grid_width { col as int } else { grid_width - 1 }),
        r.1 == (if grid_height == 0 { 0 } else if row < grid_height { row as int } else { grid_height - 1 }),
{
    let max_col = grid_width.saturating_sub(1);
    let max_row = grid_height.saturating_sub(1);
    let c = if col < max_col { col } else { max_col };
    let r = if row < max_row { row } else { max_row };
    (c, r)
}

/// A generic event.
#[non_exhaustive]
#[derive(Debug)]
pub enum Event {
    /// The terminal gained focus.
    FocusGained,
    /// The terminal lost focus.
    FocusLost,
    /// A single key event with additional pressed modifiers.
    Key(FullKeyEvent),
    /// A single mouse event with additional pressed modifiers.
    Mouse(PlainMouseEvent),
    /// A string that was pasted into the terminal.
    Paste(String),
    /// An resize event with new dimensions after resize (columns, rows).
    Resize(u16, u16),
}

} // verus!

verus! {

/// Each named browser key stands for its own key code: `F1`..`F12` for the
/// function keys, the arrow names for the arrows, and so on; a key of
/// exactly one character is that character whatever its name, and any
/// other name is unidentified.
pub proof fn lemma_named_keys(c: char, name: Seq<char>)
    ensures
        named_key("F1"@) == KeyCode::F(1),
        named_key("F2"@) == KeyCode::F(2),
        named_key("F3"@) == KeyCode::F(3),
        named_key("F4"@) == KeyCode::F(4),
        named_key("F5"@) == KeyCode::F(5),
        named_key("F6"@) == KeyCode::F(6),
        named_key("F7"@) == KeyCode::F(7),
        named_key("F8"@) == KeyCode::F(8),
        named_key("F9"@) == KeyCode::F(9),
        named_key("F10"@) == KeyCode::F(10),
        named_key("F11"@) == KeyCode::F(11),
        named_key("F12"@) == KeyCode::F(12),
        named_key("Backspace"@) == KeyCode::Backspace,
        named_key("Enter"@) == KeyCode::Enter,
        named_key("ArrowLeft"@) == KeyCode::Left,
        named_key("ArrowRight"@) == KeyCode::Right,
        named_key("ArrowUp"@) == KeyCode::Up,
        named_key("ArrowDown"@) == KeyCode::Down,
        named_key("Tab"@) == KeyCode::Tab,
        named_key("Delete"@) == KeyCode::Delete,
        named_key("Home"@) == KeyCode::Home,
        named_key("End"@) == KeyCode::End,
        named_key("PageUp"@) == KeyCode::PageUp,
        named_key("PageDown"@) == KeyCode::PageDown,
        named_key("Escape"@) == KeyCode::Esc,
        named_key("Shift"@) == KeyCode::Unidentified,
        key_code(seq![c], name) == KeyCode::Char(c),
{
    reveal_strlit("F1"); reveal_strlit("F2"); reveal_strlit("F3"); reveal_strlit("F4");
    reveal_strlit("F5"); reveal_strlit("F6"); reveal_strlit("F7"); reveal_strlit("F8");
    reveal_strlit("F9"); reveal_strlit("F10"); reveal_strlit("F11"); reveal_strlit("F12");
    reveal_strlit("Backspace"); reveal_strlit("Enter"); reveal_strlit("ArrowLeft");
    reveal_strlit("ArrowRight"); reveal_strlit("ArrowUp"); reveal_strlit("ArrowDown");
    reveal_strlit("Tab"); reveal_strlit("Delete"); reveal_strlit("Home"); reveal_strlit("End");
    reveal_strlit("PageUp"); reveal_strlit("PageDown"); reveal_strlit("Escape"); reveal_strlit("Shift");
    assert(named_key("F1"@) == KeyCode::F(1)) by {}
    assert(named_key("F2"@) == KeyCode::F(2)) by {
        assert("F2"@[1] != "F1"@[1]);
    }
    assert(named_key("F3"@) == KeyCode::F(3)) by {
        assert("F3"@[1] != "F1"@[1]);
        assert("F3"@[1] != "F2"@[1]);
    }
    assert(named_key("F4"@) == KeyCode::F(4)) by {
        assert("F4"@[1] != "F1"@[1]);
        assert("F4"@[1] != "F2"@[1]);
        assert("F4"@[1] != "F3"@[1]);
    }
    assert(named_key("F5"@) == KeyCode::F(5)) by {
        assert("F5"@[1] != "F1"@[1]);
        assert("F5"@[1] != "F2"@[1]);
        assert("F5"@[1] != "F3"@[1]);
        assert("F5"@[1] != "F4"@[1]);
    }
    assert(named_key("F6"@) == KeyCode::F(6)) by {
        assert("F6"@[1] != "F1"@[1]);
        assert("F6"@[1] != "F2"@[1]);
        assert("F6"@[1] != "F3"@[1]);
        assert("F6"@[1] != "F4"@[1]);
        assert("F6"@[1] != "F5"@[1]);
    }
    assert(named_key("F7"@) == KeyCode::F(7)) by {
        assert("F7"@[1] != "F1"@[1]);
        assert("F7"@[1] != "F2"@[1]);
        assert("F7"@[1] != "F3"@[1]);
        assert("F7"@[1] != "F4"@[1]);
        assert("F7"@[1] != "F5"@[1]);
        assert("F7"@[1] != "F6"@[1]);
    }
    assert(named_key("F8"@) == KeyCode::F(8)) by {
        assert("F8"@[1] != "F1"@[1]);
        assert("F8"@[1] != "F2"@[1]);
        assert("F8"@[1] != "F3"@[1]);
        assert("F8"@[1] != "F4"@[1]);
        assert("F8"@[1] != "F5"@[1]);
        assert("F8"@[1] != "F6"@[1]);
        assert("F8"@[1] != "F7"@[1]);
    }
    assert(named_key("F9"@) == KeyCode::F(9)) by {
        assert("F9"@[1] != "F1"@[1]);
        assert("F9"@[1] != "F2"@[1]);
        assert("F9"@[1] != "F3"@[1]);
        assert("F9"@[1] != "F4"@[1]);
        assert("F9"@[1] != "F5"@[1]);
        assert("F9"@[1] != "F6"@[1]);
        assert("F9"@[1] != "F7"@[1]);
        assert("F9"@[1] != "F8"@[1]);
    }
    assert(named_key("F10"@) == KeyCode::F(10)) by {
        assert("F10"@.len() != "F1"@.len());
        assert("F10"@.len() != "F2"@.len());
        assert("F10"@.len() != "F3"@.len());
        assert("F10"@.len() != "F4"@.len());
        assert("F10"@.len() != "F5"@.len());
        assert("F10"@.len() != "F6"@.len());
        assert("F10"@.len() != "F7"@.len());
        assert("F10"@.len() != "F8"@.len());
        assert("F10"@.len() != "F9"@.len());
    }
    assert(named_key("F11"@) == KeyCode::F(11)) by {
        assert("F11"@.len() != "F1"@.len());
        assert("F11"@.len() != "F2"@.len());
        assert("F11"@.len() != "F3"@.len());
        assert("F11"@.len() != "F4"@.len());
        assert("F11"@.len() != "F5"@.len());
        assert("F11"@.len() != "F6"@.len());
        assert("F11"@.len() != "F7"@.len());
        assert("F11"@.len() != "F8"@.len());
        assert("F11"@.len() != "F9"@.len());
        assert("F11"@[2] != "F10"@[2]);
    }
    assert(named_key("F12"@) == KeyCode::F(12)) by {
        assert("F12"@.len() != "F1"@.len());
        assert("F12"@.len() != "F2"@.len());
        assert("F12"@.len() != "F3"@.len());
        assert("F12"@.len() != "F4"@.len());
        assert("F12"@.len() != "F5"@.len());
        assert("F12"@.len() != "F6"@.len());
        assert("F12"@.len() != "F7"@.len());
        assert("F12"@.len() != "F8"@.len());
        assert("F12"@.len() != "F9"@.len());
        assert("F12"@[2] != "F10"@[2]);
        assert("F12"@[2] != "F11"@[2]);
    }
    assert(named_key("Backspace"@) == KeyCode::Backspace) by {
        assert("Backspace"@.len() != "F1"@.len());
        assert("Backspace"@.len() != "F2"@.len());
        assert("Backspace"@.len() != "F3"@.len());
        assert("Backspace"@.len() != "F4"@.len());
        assert("Backspace"@.len() != "F5"@.len());
        assert("Backspace"@.len() != "F6"@.len());
        assert("Backspace"@.len() != "F7"@.len());
        assert("Backspace"@.len() != "F8"@.len());
        assert("Backspace"@.len() != "F9"@.len());
        assert("Backspace"@.len() != "F10"@.len());
        assert("Backspace"@.len() != "F11"@.len());
        assert("Backspace"@.len() != "F12"@.len());
    }
    assert(named_key("Enter"@) == KeyCode::Enter) by {
        assert("Enter"@.len() != "F1"@.len());
        assert("Enter"@.len() != "F2"@.len());
        assert("Enter"@.len() != "F3"@.len());
        assert("Enter"@.len() != "F4"@.len());
        assert("Enter"@.len() != "F5"@.len());
        assert("Enter"@.len() != "F6"@.len());
        assert("Enter"@.len() != "F7"@.len());
        assert("Enter"@.len() != "F8"@.len());
        assert("Enter"@.len() != "F9"@.len());
        assert("Enter"@.len() != "F10"@.len());
        assert("Enter"@.len() != "F11"@.len());
        assert("Enter"@.len() != "F12"@.len());
        assert("Enter"@.len() != "Backspace"@.len());
    }
    assert(named_key("ArrowLeft"@) == KeyCode::Left) by {
        assert("ArrowLeft"@.len() != "F1"@.len());
        assert("ArrowLeft"@.len() != "F2"@.len());
        assert("ArrowLeft"@.len() != "F3"@.len());
        assert("ArrowLeft"@.len() != "F4"@.len());
        assert("ArrowLeft"@.len() != "F5"@.len());
        assert("ArrowLeft"@.len() != "F6"@.len());
        assert("ArrowLeft"@.len() != "F7"@.len());
        assert("ArrowLeft"@.len() != "F8"@.len());
        assert("ArrowLeft"@.len() != "F9"@.len());
        assert("ArrowLeft"@.len() != "F10"@.len());
        assert("ArrowLeft"@.len() != "F11"@.len());
        assert("ArrowLeft"@.len() != "F12"@.len());
        assert("ArrowLeft"@[0] != "Backspace"@[0]);
        assert("ArrowLeft"@.len() != "Enter"@.len());
    }
    assert(named_key("ArrowRight"@) == KeyCode::Right) by {
        assert("ArrowRight"@.len() != "F1"@.len());
        assert("ArrowRight"@.len() != "F2"@.len());
        assert("ArrowRight"@.len() != "F3"@.len());
        assert("ArrowRight"@.len() != "F4"@.len());
        assert("ArrowRight"@.len() != "F5"@.len());
        assert("ArrowRight"@.len() != "F6"@.len());
        assert("ArrowRight"@.len() != "F7"@.len());
        assert("ArrowRight"@.len() != "F8"@.len());
        assert("ArrowRight"@.len() != "F9"@.len());
        assert("ArrowRight"@.len() != "F10"@.len());
        assert("ArrowRight"@.len() != "F11"@.len());
        assert("ArrowRight"@.len() != "F12"@.len());
        assert("ArrowRight"@.len() != "Backspace"@.len());
        assert("ArrowRight"@.len() != "Enter"@.len());
        assert("ArrowRight"@.len() != "ArrowLeft"@.len());
    }
    assert(named_key("ArrowUp"@) == KeyCode::Up) by {
        assert("ArrowUp"@.len() != "F1"@.len());
        assert("ArrowUp"@.len() != "F2"@.len());
        assert("ArrowUp"@.len() != "F3"@.len());
        assert("ArrowUp"@.len() != "F4"@.len());
        assert("ArrowUp"@.len() != "F5"@.len());
        assert("ArrowUp"@.len() != "F6"@.len());
        assert("ArrowUp"@.len() != "F7"@.len());
        assert("ArrowUp"@.len() != "F8"@.len());
        assert("ArrowUp"@.len() != "F9"@.len());
        assert("ArrowUp"@.len() != "F10"@.len());
        assert("ArrowUp"@.len() != "F11"@.len());
        assert("ArrowUp"@.len() != "F12"@.len());
        assert("ArrowUp"@.len() != "Backspace"@.len());
        assert("ArrowUp"@.len() != "Enter"@.len());
        assert("ArrowUp"@.len() != "ArrowLeft"@.len());
        assert("ArrowUp"@.len() != "ArrowRight"@.len());
    }
    assert(named_key("ArrowDown"@) == KeyCode::Down) by {
        assert("ArrowDown"@.len() != "F1"@.len());
        assert("ArrowDown"@.len() != "F2"@.len());
        assert("ArrowDown"@.len() != "F3"@.len());
        assert("ArrowDown"@.len() != "F4"@.len());
        assert("ArrowDown"@.len() != "F5"@.len());
        assert("ArrowDown"@.len() != "F6"@.len());
        assert("ArrowDown"@.len() != "F7"@.len());
        assert("ArrowDown"@.len() != "F8"@.len());
        assert("ArrowDown"@.len() != "F9"@.len());
        assert("ArrowDown"@.len() != "F10"@.len());
        assert("ArrowDown"@.len() != "F11"@.len());
        assert("ArrowDown"@.len() != "F12"@.len());
        assert("ArrowDown"@[0] != "Backspace"@[0]);
        assert("ArrowDown"@.len() != "Enter"@.len());
        assert("ArrowDown"@[5] != "ArrowLeft"@[5]);
        assert("ArrowDown"@.len() != "ArrowRight"@.len());
        assert("ArrowDown"@.len() != "ArrowUp"@.len());
    }
    assert(named_key("Tab"@) == KeyCode::Tab) by {
        assert("Tab"@.len() != "F1"@.len());
        assert("Tab"@.len() != "F2"@.len());
        assert("Tab"@.len() != "F3"@.len());
        assert("Tab"@.len() != "F4"@.len());
        assert("Tab"@.len() != "F5"@.len());
        assert("Tab"@.len() != "F6"@.len());
        assert("Tab"@.len() != "F7"@.len());
        assert("Tab"@.len() != "F8"@.len());
        assert("Tab"@.len() != "F9"@.len());
        assert("Tab"@[0] != "F10"@[0]);
        assert("Tab"@[0] != "F11"@[0]);
        assert("Tab"@[0] != "F12"@[0]);
        assert("Tab"@.len() != "Backspace"@.len());
        assert("Tab"@.len() != "Enter"@.len());
        assert("Tab"@.len() != "ArrowLeft"@.len());
        assert("Tab"@.len() != "ArrowRight"@.len());
        assert("Tab"@.len() != "ArrowUp"@.len());
        assert("Tab"@.len() != "ArrowDown"@.len());
    }
    assert(named_key("Delete"@) == KeyCode::Delete) by {
        assert("Delete"@.len() != "F1"@.len());
        assert("Delete"@.len() != "F2"@.len());
        assert("Delete"@.len() != "F3"@.len());
        assert("Delete"@.len() != "F4"@.len());
        assert("Delete"@.len() != "F5"@.len());
        assert("Delete"@.len() != "F6"@.len());
        assert("Delete"@.len() != "F7"@.len());
        assert("Delete"@.len() != "F8"@.len());
        assert("Delete"@.len() != "F9"@.len());
        assert("Delete"@.len() != "F10"@.len());
        assert("Delete"@.len() != "F11"@.len());
        assert("Delete"@.len() != "F12"@.len());
        assert("Delete"@.len() != "Backspace"@.len());
        assert("Delete"@.len() != "Enter"@.len());
        assert("Delete"@.len() != "ArrowLeft"@.len());
        assert("Delete"@.len() != "ArrowRight"@.len());
        assert("Delete"@.len() != "ArrowUp"@.len());
        assert("Delete"@.len() != "ArrowDown"@.len());
        assert("Delete"@.len() != "Tab"@.len());
    }
    assert(named_key("Home"@) == KeyCode::Home) by {
        assert("Home"@.len() != "F1"@.len());
        assert("Home"@.len() != "F2"@.len());
        assert("Home"@.len() != "F3"@.len());
        assert("Home"@.len() != "F4"@.len());
        assert("Home"@.len() != "F5"@.len());
        assert("Home"@.len() != "F6"@.len());
        assert("Home"@.len() != "F7"@.len());
        assert("Home"@.len() != "F8"@.len());
        assert("Home"@.len() != "F9"@.len());
        assert("Home"@.len() != "F10"@.len());
        assert("Home"@.len() != "F11"@.len());
        assert("Home"@.len() != "F12"@.len());
        assert("Home"@.len() != "Backspace"@.len());
        assert("Home"@.len() != "Enter"@.len());
        assert("Home"@.len() != "ArrowLeft"@.len());
        assert("Home"@.len() != "ArrowRight"@.len());
        assert("Home"@.len() != "ArrowUp"@.len());
        assert("Home"@.len() != "ArrowDown"@.len());
        assert("Home"@.len() != "Tab"@.len());
        assert("Home"@.len() != "Delete"@.len());
    }
    assert(named_key("End"@) == KeyCode::End) by {
        assert("End"@.len() != "F1"@.len());
        assert("End"@.len() != "F2"@.len());
        assert("End"@.len() != "F3"@.len());
        assert("End"@.len() != "F4"@.len());
        assert("End"@.len() != "F5"@.len());
        assert("End"@.len() != "F6"@.len());
        assert("End"@.len() != "F7"@.len());
        assert("End"@.len() != "F8"@.len());
        assert("End"@.len() != "F9"@.len());
        assert("End"@[0] != "F10"@[0]);
        assert("End"@[0] != "F11"@[0]);
        assert("End"@[0] != "F12"@[0]);
        assert("End"@.len() != "Backspace"@.len());
        assert("End"@.len() != "Enter"@.len());
        assert("End"@.len() != "ArrowLeft"@.len());
        assert("End"@.len() != "ArrowRight"@.len());
        assert("End"@.len() != "ArrowUp"@.len());
        assert("End"@.len() != "ArrowDown"@.len());
        assert("End"@[0] != "Tab"@[0]);
        assert("End"@.len() != "Delete"@.len());
        assert("End"@.len() != "Home"@.len());
    }
    assert(named_key("PageUp"@) == KeyCode::PageUp) by {
        assert("PageUp"@.len() != "F1"@.len());
        assert("PageUp"@.len() != "F2"@.len());
        assert("PageUp"@.len() != "F3"@.len());
        assert("PageUp"@.len() != "F4"@.len());
        assert("PageUp"@.len() != "F5"@.len());
        assert("PageUp"@.len() != "F6"@.len());
        assert("PageUp"@.len() != "F7"@.len());
        assert("PageUp"@.len() != "F8"@.len());
        assert("PageUp"@.len() != "F9"@.len());
        assert("PageUp"@.len() != "F10"@.len());
        assert("PageUp"@.len() != "F11"@.len());
        assert("PageUp"@.len() != "F12"@.len());
        assert("PageUp"@.len() != "Backspace"@.len());
        assert("PageUp"@.len() != "Enter"@.len());
        assert("PageUp"@.len() != "ArrowLeft"@.len());
        assert("PageUp"@.len() != "ArrowRight"@.len());
        assert("PageUp"@.len() != "ArrowUp"@.len());
        assert("PageUp"@.len() != "ArrowDown"@.len());
        assert("PageUp"@.len() != "Tab"@.len());
        assert("PageUp"@[0] != "Delete"@[0]);
        assert("PageUp"@.len() != "Home"@.len());
        assert("PageUp"@.len() != "End"@.len());
    }
    assert(named_key("PageDown"@) == KeyCode::PageDown) by {
        assert("PageDown"@.len() != "F1"@.len());
        assert("PageDown"@.len() != "F2"@.len());
        assert("PageDown"@.len() != "F3"@.len());
        assert("PageDown"@.len() != "F4"@.len());
        assert("PageDown"@.len() != "F5"@.len());
        assert("PageDown"@.len() != "F6"@.len());
        assert("PageDown"@.len() != "F7"@.len());
        assert("PageDown"@.len() != "F8"@.len());
        assert("PageDown"@.len() != "F9"@.len());
        assert("PageDown"@.len() != "F10"@.len());
        assert("PageDown"@.len() != "F11"@.len());
        assert("PageDown"@.len() != "F12"@.len());
        assert("PageDown"@.len() != "Backspace"@.len());
        assert("PageDown"@.len() != "Enter"@.len());
        assert("PageDown"@.len() != "ArrowLeft"@.len());
        assert("PageDown"@.len() != "ArrowRight"@.len());
        assert("PageDown"@.len() != "ArrowUp"@.len());
        assert("PageDown"@.len() != "ArrowDown"@.len());
        assert("PageDown"@.len() != "Tab"@.len());
        assert("PageDown"@.len() != "Delete"@.len());
        assert("PageDown"@.len() != "Home"@.len());
        assert("PageDown"@.len() != "End"@.len());
        assert("PageDown"@.len() != "PageUp"@.len());
    }
    assert(named_key("Escape"@) == KeyCode::Esc) by {
        assert("Escape"@.len() != "F1"@.len());
        assert("Escape"@.len() != "F2"@.len());
        assert("Escape"@.len() != "F3"@.len());
        assert("Escape"@.len() != "F4"@.len());
        assert("Escape"@.len() != "F5"@.len());
        assert("Escape"@.len() != "F6"@.len());
        assert("Escape"@.len() != "F7"@.len());
        assert("Escape"@.len() != "F8"@.len());
        assert("Escape"@.len() != "F9"@.len());
        assert("Escape"@.len() != "F10"@.len());
        assert("Escape"@.len() != "F11"@.len());
        assert("Escape"@.len() != "F12"@.len());
        assert("Escape"@.len() != "Backspace"@.len());
        assert("Escape"@.len() != "Enter"@.len());
        assert("Escape"@.len() != "ArrowLeft"@.len());
        assert("Escape"@.len() != "ArrowRight"@.len());
        assert("Escape"@.len() != "ArrowUp"@.len());
        assert("Escape"@.len() != "ArrowDown"@.len());
        assert("Escape"@.len() != "Tab"@.len());
        assert("Escape"@[0] != "Delete"@[0]);
        assert("Escape"@.len() != "Home"@.len());
        assert("Escape"@.len() != "End"@.len());
        assert("Escape"@[0] != "PageUp"@[0]);
        assert("Escape"@.len() != "PageDown"@.len());
    }
    assert(named_key("Shift"@) == KeyCode::Unidentified) by {
        assert("Shift"@.len() != "F1"@.len());
        assert("Shift"@.len() != "F2"@.len());
        assert("Shift"@.len() != "F3"@.len());
        assert("Shift"@.len() != "F4"@.len());
        assert("Shift"@.len() != "F5"@.len());
        assert("Shift"@.len() != "F6"@.len());
        assert("Shift"@.len() != "F7"@.len());
        assert("Shift"@.len() != "F8"@.len());
        assert("Shift"@.len() != "F9"@.len());
        assert("Shift"@.len() != "F10"@.len());
        assert("Shift"@.len() != "F11"@.len());
        assert("Shift"@.len() != "F12"@.len());
        assert("Shift"@.len() != "Backspace"@.len());
        assert("Shift"@[0] != "Enter"@[0]);
        assert("Shift"@.len() != "ArrowLeft"@.len());
        assert("Shift"@.len() != "ArrowRight"@.len());
        assert("Shift"@.len() != "ArrowUp"@.len());
        assert("Shift"@.len() != "ArrowDown"@.len());
        assert("Shift"@.len() != "Tab"@.len());
        assert("Shift"@.len() != "Delete"@.len());
        assert("Shift"@.len() != "Home"@.len());
        assert("Shift"@.len() != "End"@.len());
        assert("Shift"@.len() != "PageUp"@.len());
        assert("Shift"@.len() != "PageDown"@.len());
        assert("Shift"@.len() != "Escape"@.len());
    }
}

/// Each browser mouse event type stands for its own kind: `mousemove` a
/// move, `mousedown` and `mouseup` a button going down and up, `mouseenter`
/// and `mouseleave` the pointer entering and leaving, `click` and `dblclick`
/// single and double clicks, `wheel` a scroll with its deltas (zero when the
/// event carries none); the button numbers 0 to 4 are left, middle, right,
/// back and forward, any other an unnamed button with its number.
pub proof fn lemma_mouse_kinds(b: i16, wheel: Option<(i16, i16, i16)>)
    ensures
        mouse_kind("mousemove"@, b, wheel) == MouseEventKind::Moved,
        mouse_kind("mousedown"@, b, wheel) == MouseEventKind::ButtonDown(button_of(b)),
        mouse_kind("mouseup"@, b, wheel) == MouseEventKind::ButtonUp(button_of(b)),
        mouse_kind("mouseenter"@, b, wheel) == MouseEventKind::Entered,
        mouse_kind("mouseleave"@, b, wheel) == MouseEventKind::Exited,
        mouse_kind("click"@, b, wheel) == MouseEventKind::SingleClick(button_of(b)),
        mouse_kind("dblclick"@, b, wheel) == MouseEventKind::DoubleClick(button_of(b)),
        mouse_kind("wheel"@, b, wheel) == (match wheel {
            Some((dx, dy, dz)) => MouseEventKind::Wheel { delta_x: dx, delta_y: dy, delta_z: dz },
            None => MouseEventKind::Wheel { delta_x: 0, delta_y: 0, delta_z: 0 },
        }),
        mouse_kind("contextmenu"@, b, wheel) == MouseEventKind::Unidentified,
        button_of(0) == MouseButton::Left,
        button_of(1) == MouseButton::Middle,
        button_of(2) == MouseButton::Right,
        button_of(3) == MouseButton::Back,
        button_of(4) == MouseButton::Forward,
        (b < 0 || b > 4) ==> button_of(b) == MouseButton::Other(b as i32),
{
    reveal_strlit("mousemove");
    reveal_strlit("mousedown");
    reveal_strlit("mouseup");
    reveal_strlit("mouseenter");
    reveal_strlit("mouseleave");
    reveal_strlit("click");
    reveal_strlit("dblclick");
    reveal_strlit("wheel");
    reveal_strlit("contextmenu");
    assert(mouse_kind("mousemove"@, b, wheel) == MouseEventKind::Moved) by {

    }
    assert(mouse_kind("mousedown"@, b, wheel) == MouseEventKind::ButtonDown(button_of(b))) by {
        assert("mousedown"@[5] != "mousemove"@[5]);
    }
    assert(mouse_kind("mouseup"@, b, wheel) == MouseEventKind::ButtonUp(button_of(b))) by {
        assert("mouseup"@.len() != "mousemove"@.len());
        assert("mouseup"@.len() != "mousedown"@.len());
    }
    assert(mouse_kind("mouseenter"@, b, wheel) == MouseEventKind::Entered) by {
        assert("mouseenter"@.len() != "mousemove"@.len());
        assert("mouseenter"@.len() != "mousedown"@.len());
        assert("mouseenter"@.len() != "mouseup"@.len());
    }
    assert(mouse_kind("mouseleave"@, b, wheel) == MouseEventKind::Exited) by {
        assert("mouseleave"@.len() != "mousemove"@.len());
        assert("mouseleave"@.len() != "mousedown"@.len());
        assert("mouseleave"@.len() != "mouseup"@.len());
        assert("mouseleave"@[5] != "mouseenter"@[5]);
    }
    assert(mouse_kind("click"@, b, wheel) == MouseEventKind::SingleClick(button_of(b))) by {
        assert("click"@.len() != "mousemove"@.len());
        assert("click"@.len() != "mousedown"@.len());
        assert("click"@.len() != "mouseup"@.len());
        assert("click"@.len() != "mouseenter"@.len());
        assert("click"@.len() != "mouseleave"@.len());
    }
    assert(mouse_kind("dblclick"@, b, wheel) == MouseEventKind::DoubleClick(button_of(b))) by {
        assert("dblclick"@.len() != "mousemove"@.len());
        assert("dblclick"@.len() != "mousedown"@.len());
        assert("dblclick"@.len() != "mouseup"@.len());
        assert("dblclick"@.len() != "mouseenter"@.len());
        assert("dblclick"@.len() != "mouseleave"@.len());
        assert("dblclick"@.len() != "click"@.len());
    }
    assert(mouse_kind("contextmenu"@, b, wheel) == MouseEventKind::Unidentified) by {
        assert("contextmenu"@.len() != "mousemove"@.len());
        assert("contextmenu"@.len() != "mousedown"@.len());
        assert("contextmenu"@.len() != "mouseup"@.len());
        assert("contextmenu"@.len() != "mouseenter"@.len());
        assert("contextmenu"@.len() != "mouseleave"@.len());
        assert("contextmenu"@.len() != "click"@.len());
        assert("contextmenu"@.len() != "dblclick"@.len());
        assert("contextmenu"@.len() != "wheel"@.len());
    }
    assert(mouse_kind("wheel"@, b, wheel) == (match wheel {
        Some((dx, dy, dz)) => MouseEventKind::Wheel { delta_x: dx, delta_y: dy, delta_z: dz },
        None => MouseEventKind::Wheel { delta_x: 0, delta_y: 0, delta_z: 0 },
    })) by {
        assert("wheel"@.len() != "mousemove"@.len());
        assert("wheel"@.len() != "mousedown"@.len());
        assert("wheel"@.len() != "mouseup"@.len());
        assert("wheel"@.len() != "mouseenter"@.len());
        assert("wheel"@.len() != "mouseleave"@.len());
        assert("wheel"@[0] != "click"@[0]);
        assert("wheel"@.len() != "dblclick"@.len());
    }
}

} // verus!
