use ratzilla::style::Size;
use ratzilla::utils::{agent_is_mobile, get_screen_size, get_window_size, is_mobile};

#[test]
fn window_size_in_cells() {
    assert_eq!(get_window_size((1200, 800)), Size { width: 120, height: 40 });
    assert_eq!(get_window_size((9, 19)), Size { width: 0, height: 0 });
}

#[test]
fn screen_size_in_cells() {
    assert_eq!(get_screen_size((1920, 1080)), Size { width: 192, height: 56 });
    assert_eq!(get_screen_size((65536 + 100, 38)), Size { width: 10, height: 2 });
}

#[test]
fn mobile_user_agents() {
    assert!(is_mobile(Some("Mozilla/5.0 (iPhone; CPU iPhone OS 17_0) Mobile/15E148")));
    assert!(is_mobile(Some("Mozilla/5.0 (Linux; Android 13; TABLET)")));
    assert!(!is_mobile(Some("Mozilla/5.0 (X11; Linux x86_64) Firefox/120.0")));
    assert!(!is_mobile(None));
    assert!(agent_is_mobile("a mobile browser"));
    assert!(!agent_is_mobile("a Mobile browser"));
}
