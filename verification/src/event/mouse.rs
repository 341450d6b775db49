//! Mouse events with a button, a kind and viewport coordinates.

use vstd::prelude::*;
use crate::text::str_eq;

verus! {

/// A mouse button.
#[derive(Debug, Clone, Copy, PartialEq, Eq, Structural)]
pub enum MouseButton {
    /// Left mouse button
    Left,
    /// Right mouse button
    Right,
    /// Middle mouse button
    Middle,
    /// Back mouse button
    Back,
    /// Forward mouse button
    Forward,
    /// Unidentified mouse button
    Unidentified,
}

/// A mouse event kind.
#[derive(Debug, Clone, Copy, PartialEq, Eq, Structural)]
pub enum MouseEventKind {
    /// Mouse moved
    Moved,
    /// Mouse button pressed
    Pressed,
    /// Mouse button released
    Released,
    /// Unidentified mouse event
    Unidentified,
}

/// A mouse movement event.
#[derive(Debug, Clone, Copy, PartialEq, Eq, Structural)]
pub struct MouseEvent {
    /// The mouse button that was pressed.
    pub button: MouseButton,
    /// The triggered event.
    pub event: MouseEventKind,
    /// The x coordinate of the mouse.
    pub x: u32,
    /// The y coordinate of the mouse.
    pub y: u32,
    /// Whether the control key is pressed.
    pub ctrl: bool,
    /// Whether the alt key is pressed.
    pub alt: bool,
    /// Whether the shift key is pressed.
    pub shift: bool,
}

/// The button that a browser button number stands for.
pub open spec fn button_of(button: i16) -> MouseButton {
    if button == 0 { MouseButton::Left }
    else if button == 1 { MouseButton::Middle }
    else if button == 2 { MouseButton::Right }
    else if button == 3 { MouseButton::Back }
    else if button == 4 { MouseButton::Forward }
    else { MouseButton::Unidentified }
}

/// The kind of a browser mouse event type.
pub open spec fn kind_of(event_type: Seq<char>) -> MouseEventKind {
    if event_type == "mousemove"@ { MouseEventKind::Moved }
    else if event_type == "mousedown"@ { MouseEventKind::Pressed }
    else if event_type == "mouseup"@ { MouseEventKind::Released }
    else { MouseEventKind::Unidentified }
}

impl MouseButton {
    /// The button of a browser button number: 0 left, 1 middle, 2 right,
    /// 3 back, 4 forward, any other unidentified.
    pub fn from_button(button: i16) -> (r: MouseButton)
        ensures
            r == button_of(button),
    {
        match button {
            0 => MouseButton::Left,
            1 => MouseButton::Middle,
            2 => MouseButton::Right,
            3 => MouseButton::Back,
            4 => MouseButton::Forward,
            _ => MouseButton::Unidentified,
        }
    }
}

impl MouseEventKind {
    /// The kind of a browser mouse event type.
    pub fn from_type(event_type: &str) -> (r: MouseEventKind)
        ensures
            r == kind_of(event_type@),
    {
        proof {
            reveal_strlit("mousemove");
            reveal_strlit("mousedown");
            reveal_strlit("mouseup");
        }
        if str_eq(event_type, "mousemove") {
            MouseEventKind::Moved
        } else if str_eq(event_type, "mousedown") {
            MouseEventKind::Pressed
        } else if str_eq(event_type, "mouseup") {
            MouseEventKind::Released
        } else {
            MouseEventKind::Unidentified
        }
    }
}

impl MouseEvent {
    /// The mouse event of a browser event: the button is unidentified for a
    /// move and read from the button number otherwise; the viewport
    /// coordinates are taken as unsigned 32-bit values.
    pub fn from_event(
        event_type: &str,
        button: i16,
        client_x: i32,
        client_y: i32,
        ctrl: bool,
        alt: bool,
        shift: bool,
    ) -> (r: MouseEvent)
        ensures
            r == (MouseEvent {
                button: if kind_of(event_type@) == MouseEventKind::Moved {
                    MouseButton::Unidentified
                } else {
                    button_of(button)
                },
                event: kind_of(event_type@),
                x: client_x as u32,
                y: client_y as u32,
                ctrl,
                alt,
                shift,
            }),
    {
        let event = MouseEventKind::from_type(event_type);
        let b = if event == MouseEventKind::Moved { MouseButton::Unidentified } else { MouseButton::from_button(button) };
        MouseEvent { button: b, event, x: client_x as u32, y: client_y as u32, ctrl, alt, shift }
    }
}

} // verus!
