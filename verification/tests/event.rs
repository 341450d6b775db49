use ratzilla::event::key::{KeyEvent as FullKeyEvent, KeyEventKind, ALT, CONTROL, META, SHIFT};
use ratzilla::event::mouse::{MouseButton as PlainButton, MouseEvent as PlainMouseEvent, MouseEventKind as PlainKind};
use ratzilla::event::{clamp_to_grid, KeyCode, KeyEvent, MouseButton, MouseEvent, MouseEventKind};

#[test]
fn key_codes_from_browser_names() {
    assert_eq!(KeyCode::from_key("a"), KeyCode::Char('a'));
    assert_eq!(KeyCode::from_key("Enter"), KeyCode::Enter);
    assert_eq!(KeyCode::from_key("ArrowLeft"), KeyCode::Left);
    assert_eq!(KeyCode::from_key("Escape"), KeyCode::Esc);
    assert_eq!(KeyCode::from_key("F12"), KeyCode::F(12));
    assert_eq!(KeyCode::from_key("Shift"), KeyCode::Unidentified);
    assert_eq!(KeyCode::from_key("é"), KeyCode::Char('é'));
    assert_eq!(KeyCode::from_key("ab"), KeyCode::Unidentified);
}

#[test]
fn key_event_keeps_modifiers() {
    let e = KeyEvent::from_key("x", true, false, true);
    assert_eq!(e, KeyEvent { code: KeyCode::Char('x'), ctrl: true, alt: false, shift: true });
    let f = FullKeyEvent::from_key_and_code("Q", "KeyQ", true, false, true, false, false);
    assert_eq!(f.code, KeyCode::Char('Q'));
    assert_eq!(f.modifiers.bits, SHIFT | ALT);
    assert_eq!(f.kind, KeyEventKind::Press);
    assert_eq!(f.state.bits, 0);
    let g = FullKeyEvent::from_key_and_code("Tab", "Tab", false, true, false, false, false);
    assert_eq!(g.code, KeyCode::Tab);
    assert_eq!(g.modifiers.bits, CONTROL);
    let h = FullKeyEvent::from_key_and_code("ß", "Minus", false, false, false, true, true);
    assert_eq!(h.code, KeyCode::Char('ß'));
    assert_eq!(h.modifiers.bits, META);
    assert_eq!(h.kind, KeyEventKind::Repeat);
}

#[test]
fn mouse_buttons_and_kinds() {
    assert_eq!(MouseButton::from_button(0), MouseButton::Left);
    assert_eq!(MouseButton::from_button(2), MouseButton::Right);
    assert_eq!(MouseButton::from_button(9), MouseButton::Other(9));
    assert_eq!(MouseButton::from_button(-1), MouseButton::Other(-1));
    assert_eq!(MouseEventKind::from_event("mouseup", 5, None), MouseEventKind::ButtonUp(MouseButton::Other(5)));
    assert_eq!(MouseEventKind::from_event("mousedown", 1, None), MouseEventKind::ButtonDown(MouseButton::Middle));
    assert_eq!(MouseEventKind::from_event("dblclick", 0, None), MouseEventKind::DoubleClick(MouseButton::Left));
    assert_eq!(
        MouseEventKind::from_event("wheel", 0, Some((1, -3, 0))),
        MouseEventKind::Wheel { delta_x: 1, delta_y: -3, delta_z: 0 }
    );
    assert_eq!(
        MouseEventKind::from_event("wheel", 0, None),
        MouseEventKind::Wheel { delta_x: 0, delta_y: 0, delta_z: 0 }
    );
    assert_eq!(MouseEventKind::from_event("contextmenu", 0, None), MouseEventKind::Unidentified);
}

#[test]
fn mouse_position_on_grid() {
    assert_eq!(MouseEvent::pixels_to_grid_coords(25, 39, (10, 19)), (2, 2));
    let e = MouseEvent::from_client(MouseEventKind::Moved, 105, 20, (10, 20), false, true, false);
    assert_eq!(e.col, 10);
    assert_eq!(e.row, 1);
    assert!(e.alt);
    assert_eq!(clamp_to_grid(100, 3, 80, 24), (79, 3));
    assert_eq!(clamp_to_grid(5, 5, 0, 0), (0, 0));
}

#[test]
fn plain_mouse_events() {
    assert_eq!(PlainButton::from_button(4), PlainButton::Forward);
    assert_eq!(PlainKind::from_type("mouseup"), PlainKind::Released);
    assert_eq!(PlainKind::from_type("click"), PlainKind::Unidentified);
    let e = PlainMouseEvent::from_event("mousedown", 0, 12, 34, true, false, false);
    assert_eq!(e.button, PlainButton::Left);
    assert_eq!(e.event, PlainKind::Pressed);
    assert_eq!((e.x, e.y), (12, 34));
}
