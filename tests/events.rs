use termfield::{Area, Event, InputField, KeyCode, KeyEvent, KeyModifiers, Pos};

fn key(code: KeyCode, modifiers: KeyModifiers) -> KeyEvent {
    KeyEvent::new(code, modifiers)
}

fn field(text: &str) -> InputField {
    let mut f = InputField::new(Area::new(5, 5, 10, 3));
    f.set_str(text);
    f
}

#[test]
fn click_outside_the_area_is_unhandled() {
    let mut f = field("abc\ndef");
    let before = (f.content().cursor_pos(), f.scroll(), f.focused());
    for (x, y) in [(4, 5), (15, 5), (5, 4), (5, 8), (0, 0), (u16::MAX, u16::MAX)] {
        assert!(!f.apply_click_event(x, y));
    }
    assert_eq!((f.content().cursor_pos(), f.scroll(), f.focused()), before);
    assert_eq!(f.get_content(), "abc\ndef");
}

#[test]
fn click_inside_while_unfocused_only_focuses() {
    let mut f = field("abc\ndef");
    f.set_focus(false);
    assert!(f.apply_click_event(6, 5));
    assert!(f.focused());
    assert_eq!(f.content().cursor_pos(), Pos::new(3, 1));
}

#[test]
fn click_inside_while_focused_moves_the_cursor() {
    let mut f = field("abc\ndef");
    assert!(f.apply_click_event(6, 5));
    assert_eq!(f.content().cursor_pos(), Pos::new(1, 0));
    // past the end of a line the cursor goes to the line's end
    assert!(f.apply_click_event(14, 6));
    assert_eq!(f.content().cursor_pos(), Pos::new(3, 1));
    // below the last line it goes to the last line
    assert!(f.apply_click_event(5, 7));
    assert_eq!(f.content().cursor_pos(), Pos::new(0, 1));
}

#[test]
fn click_adds_the_scroll_offset() {
    let mut f = InputField::new(Area::new(0, 0, 6, 1));
    f.set_str("abcdefghijkl");
    let sx = f.scroll().x;
    assert_eq!(sx, 12 + 1 - 6);
    assert!(f.apply_click_event(2, 0));
    assert_eq!(f.content().cursor_pos(), Pos::new(2 + sx, 0));
}

#[test]
fn ctrl_s_is_left_to_the_application() {
    let mut f = field("abc");
    assert!(!f.apply_key_event(key(KeyCode::Char('s'), KeyModifiers::control())));
    assert_eq!(f.get_content(), "abc");
    assert_eq!(f.content().cursor_pos(), Pos::new(3, 0));
}

#[test]
fn plain_and_shifted_keys_are_typed() {
    let mut f = field("");
    assert!(f.apply_key_event(key(KeyCode::Char('a'), KeyModifiers::none())));
    assert!(f.apply_key_event(key(KeyCode::Char('B'), KeyModifiers::shift())));
    assert_eq!(f.get_content(), "aB");
}

#[test]
fn registered_newline_key_breaks_the_line_first() {
    let mut f = field("ab");
    assert!(!f.apply_key_event(InputField::enter()));
    assert!(!f.apply_key_event(InputField::alt_enter()));
    f.new_line_on(InputField::alt_enter());
    assert!(f.apply_key_event(InputField::alt_enter()));
    assert_eq!(f.get_content(), "ab\n");
    assert_eq!(f.content().cursor_pos(), Pos::new(0, 1));
    f.set_mono_line();
    assert!(!f.apply_key_event(InputField::alt_enter()));
    assert_eq!(f.get_content(), "ab\n");
}

#[test]
fn unfocused_field_ignores_keys() {
    let mut f = field("ab");
    f.set_focus(false);
    assert!(!f.apply_key_event(key(KeyCode::Char('x'), KeyModifiers::none())));
    assert!(!f.apply_keycode_event(KeyCode::Backspace));
    assert_eq!(f.get_content(), "ab");
}

#[test]
fn key_table() {
    let mut f = field("abc");
    assert!(f.apply_keycode_event(KeyCode::Home));
    assert_eq!(f.content().cursor_pos(), Pos::new(0, 0));
    assert!(!f.apply_keycode_event(KeyCode::Home));
    assert!(f.apply_keycode_event(KeyCode::Delete));
    assert_eq!(f.get_content(), "bc");
    assert!(f.apply_keycode_event(KeyCode::End));
    assert!(f.apply_keycode_event(KeyCode::Backspace));
    assert_eq!(f.get_content(), "b");
    assert!(f.apply_keycode_event(KeyCode::Left));
    assert!(f.apply_keycode_event(KeyCode::Right));
    assert!(!f.apply_keycode_event(KeyCode::Up));
    assert!(!f.apply_keycode_event(KeyCode::Down));
    assert!(!f.apply_keycode_event(KeyCode::PageUp));
    assert!(!f.apply_keycode_event(KeyCode::PageDown));
    assert!(!f.apply_keycode_event(KeyCode::Tab));
    assert!(!f.apply_keycode_event(KeyCode::Esc));
    assert!(!f.apply_keycode_event(KeyCode::F(1)));
    assert_eq!(f.get_content(), "b");
}

#[test]
fn apply_event_routes_clicks_and_plain_keys() {
    let mut f = field("abc");
    assert!(f.apply_event(&Event::Key(key(KeyCode::Char('d'), KeyModifiers::none()))));
    assert_eq!(f.get_content(), "abcd");
    assert!(!f.apply_event(&Event::Key(key(KeyCode::Char('e'), KeyModifiers::alt()))));
    f.new_line_on(InputField::alt_enter());
    assert!(!f.apply_event(&Event::Key(InputField::alt_enter())));
    assert!(f.apply_event(&Event::Click(5, 5, KeyModifiers::none())));
    assert_eq!(f.content().cursor_pos(), Pos::new(0, 0));
    assert!(!f.apply_event(&Event::Wheel(1)));
    assert!(!f.apply_event(&Event::DoubleClick(5, 5)));
    assert_eq!(f.get_content(), "abcd");
}
