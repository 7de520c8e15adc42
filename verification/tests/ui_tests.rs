use ayux::apps;
use ayux::ipc::{AipcMessage, AuthResponse, InputEventData, SessionRequest, SessionResponse};
use ayux::rect::Rect;
use ayux::widgets::{code_to_char, masked_text, Button, PasswordBox, Terminal, TextBox, Theme};

fn key(code: u16, pressed: bool) -> InputEventData {
    InputEventData::Key { code, pressed }
}

fn click(x: i32, y: i32, pressed: bool) -> InputEventData {
    InputEventData::MouseButton { button: 0x110, pressed, x, y, local_x: x, local_y: y }
}

#[test]
fn keys_map_to_characters() {
    assert_eq!(code_to_char(16, false), Some('q'));
    assert_eq!(code_to_char(16, true), Some('Q'));
    assert_eq!(code_to_char(2, true), Some('!'));
    assert_eq!(code_to_char(57, true), Some(' '));
    assert_eq!(code_to_char(43, false), Some('\\'));
    assert_eq!(code_to_char(40, true), Some('"'));
    assert_eq!(code_to_char(100, false), None);
}

#[test]
fn keys_reach_a_box_whose_rectangle_overflows() {
    // Key events need no arithmetic on the rectangle.
    let mut t = TextBox::new(Rect::new(i32::MAX, 0, 100, 30));
    t.set_focused(true);
    assert!(t.handle_event(&key(30, true)));
    assert_eq!(t.text, "a");
    let mut p = PasswordBox::new(Rect::new(i32::MAX, 0, 100, 30));
    p.set_focused(true);
    assert!(p.handle_event(&key(30, true)));
    assert!(!p.handle_event(&click(5, 5, false)));
}

#[test]
fn text_box_typing_and_editing() {
    let mut t = TextBox::new(Rect::new(0, 0, 100, 30));
    assert!(!t.handle_event(&key(30, true)));
    assert_eq!(t.text, "");
    assert!(t.handle_event(&click(5, 5, true)));
    assert!(t.focused);
    assert!(t.handle_event(&key(30, true)));
    assert!(t.handle_event(&key(42, true)));
    assert!(t.handle_event(&key(48, true)));
    assert!(t.handle_event(&key(42, false)));
    assert!(t.handle_event(&key(31, false)));
    assert!(t.handle_event(&key(31, true)));
    assert_eq!(t.text, "aBs");
    assert!(t.handle_event(&key(14, true)));
    assert_eq!(t.text, "aB");
    assert!(t.handle_event(&key(28, true)));
    assert!(!t.focused);
    assert!(!t.handle_event(&key(30, true)));
    assert_eq!(t.text, "aB");
}

#[test]
fn backspace_on_empty_field_keeps_it_empty() {
    let mut t = TextBox::new(Rect::new(0, 0, 100, 30));
    t.set_focused(true);
    assert!(t.handle_event(&key(14, true)));
    assert_eq!(t.text, "");
}

#[test]
fn clicking_outside_unfocuses() {
    let mut t = PasswordBox::new(Rect::new(10, 10, 100, 30));
    assert!(t.handle_event(&click(15, 15, true)));
    assert!(t.is_focused());
    assert!(!t.handle_event(&click(0, 0, true)));
    assert!(!t.is_focused());
}

#[test]
fn password_box_masks_bytes() {
    let mut p = PasswordBox::new(Rect::new(0, 0, 100, 30));
    p.set_focused(true);
    p.handle_event(&key(2, true));
    p.handle_event(&key(3, true));
    assert_eq!(p.masked(), "**");
    assert_eq!(masked_text("é"), "**");
    assert_eq!(masked_text(""), "");
}

#[test]
fn caret_blinks_only_when_focused() {
    let mut t = TextBox::new(Rect::new(0, 0, 100, 30));
    assert!(!t.tick_caret(600));
    assert!(t.caret_visible);
    t.set_focused(true);
    assert!(!t.tick_caret(500));
    assert!(t.tick_caret(501));
    assert!(!t.caret_visible);
    assert_eq!(t.caret_rect(12), Rect::new(17, 5, 2, 20));
}

#[test]
fn button_click_on_release_inside() {
    let mut b = Button { text: "OK".to_string(), rect: Rect::new(0, 0, 50, 20), pressed: false };
    assert_eq!(b.handle_event(&click(5, 5, true)), (true, false));
    assert!(b.pressed);
    assert_eq!(b.handle_event(&click(5, 5, false)), (true, true));
    assert!(!b.pressed);
    b.pressed = true;
    assert_eq!(b.handle_event(&click(60, 5, false)), (false, false));
    assert!(!b.pressed);
    assert_eq!(b.handle_event(&key(30, true)), (false, false));
}

#[test]
fn terminal_forwards_key_presses() {
    let mut t = Terminal { buffer: Vec::new(), rect: Rect::new(0, 0, 100, 100) };
    assert_eq!(t.handle_event(&key(30, true)), (true, Some(30)));
    assert_eq!(t.handle_event(&key(30, false)), (false, None));
    assert_eq!(t.handle_event(&click(5, 5, true)), (true, None));
    assert_eq!(t.handle_event(&click(500, 5, true)), (false, None));
    assert!(t.is_focused());
}

#[test]
fn terminal_shows_last_lines() {
    let t = Terminal { buffer: vec!["a".to_string(); 7], rect: Rect::new(0, 0, 100, 100) };
    assert_eq!(t.visible_start(), 2);
    let t = Terminal { buffer: vec!["a".to_string(); 3], rect: Rect::new(0, 0, 100, 100) };
    assert_eq!(t.visible_start(), 0);
}

#[test]
fn default_theme_values() {
    let t = Theme::default_ayux();
    assert_eq!(t.primary, ayux::color::Color::rgb(33, 150, 243));
    assert_eq!(t.padding, 8);
    assert_eq!(Theme::font_path(), "/ayux/fonts/default.ttf");
}

#[test]
fn terminal_emulator_keys() {
    assert_eq!(apps::code_to_char(16), Some('q'));
    assert_eq!(apps::code_to_char(38), Some('l'));
    assert_eq!(apps::code_to_char(11), Some('0'));
    assert_eq!(apps::code_to_char(12), None);
    assert_eq!(apps::key_bytes(44), vec![b'z']);
    assert_eq!(apps::key_bytes(28), vec![b'\n']);
    assert_eq!(apps::key_bytes(14), vec![8u8]);
    assert_eq!(apps::key_bytes(1), Vec::<u8>::new());
}

#[test]
fn terminal_output_becomes_lines() {
    let mut lines: Vec<String> = Vec::new();
    apps::append_text(&mut lines, "ab\r\ncd");
    assert_eq!(lines, vec!["ab".to_string(), "cd".to_string()]);
    apps::append_output(&mut lines, b"e\n\xff");
    assert_eq!(lines, vec!["ab".to_string(), "cde".to_string(), "\u{fffd}".to_string()]);
}

#[test]
fn login_window_layout() {
    let f = apps::login_form();
    assert!(f.user_box.focused);
    assert!(!f.pass_box.focused);
    assert_eq!(f.button.rect, Rect::new(150, 200, 100, 40));
    let (panel, button) = apps::desktop_layout();
    assert_eq!(panel.rect, Rect::new(0, 728, 1024, 40));
    assert_eq!(button.text, "Terminal");
}

#[test]
fn login_button_exchange() {
    let ok = Ok(AipcMessage::AuthRes(AuthResponse::Authenticated {
        internal_id: "id".to_string(),
        username: "u".to_string(),
        display_name: "U".to_string(),
        role: "Standard".to_string(),
        capabilities: vec![],
    }));
    match apps::after_login_reply(ok) {
        apps::LoginNext::OpenSession(AipcMessage::Session(SessionRequest::CreateSession { internal_id, .. })) => {
            assert_eq!(internal_id, "id")
        },
        _ => panic!("expected a session request"),
    }
    assert!(matches!(apps::after_login_reply(Err("x".to_string())), apps::LoginNext::Failed));
    assert!(apps::session_opened(Ok(AipcMessage::SessionRes(SessionResponse::Success { token: "t".to_string() }))));
    assert!(!apps::session_opened(Ok(AipcMessage::SessionRes(SessionResponse::Error("e".to_string())))));
}
