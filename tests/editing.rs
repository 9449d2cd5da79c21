use termfield::{Area, InputField, InputFieldContent, Pos};

#[test]
fn set_then_get_returns_the_same_text() {
    for s in ["", "a", "hello", "a\nb", "\n", "x\n\ny\n", "héllo wörld ✓", "tab\there"] {
        let mut f = InputField::new(Area::new(0, 0, 10, 3));
        f.set_str(s);
        assert_eq!(f.get_content(), s);
        assert!(f.is_content(s));
    }
}

#[test]
fn set_str_with_the_same_text_keeps_the_cursor() {
    let mut f = InputField::new(Area::new(0, 0, 10, 3));
    f.set_str("abc");
    assert!(f.move_left());
    f.set_str("abc");
    assert_eq!(f.content().cursor_pos(), Pos::new(2, 0));
    f.set_str("abcd");
    assert_eq!(f.content().cursor_pos(), Pos::new(4, 0));
}

#[test]
fn content_splits_on_line_breaks() {
    let mut c = InputFieldContent::new();
    c.set_str("ab\n\ncd");
    assert_eq!(c.line_count(), 3);
    assert_eq!(c.lines()[0], vec!['a', 'b']);
    assert!(c.lines()[1].is_empty());
    assert_eq!(c.current_line(), &vec!['c', 'd']);
    assert_eq!(c.to_string(), "ab\n\ncd");
}

#[test]
fn empty_and_clear() {
    let mut f = InputField::new(Area::new(0, 0, 10, 1));
    assert!(f.is_empty());
    f.insert_str("xy");
    assert!(!f.is_empty());
    f.clear();
    assert!(f.is_empty());
    assert_eq!(f.content().cursor_pos(), Pos::new(0, 0));
}

#[test]
fn insert_str_types_at_the_cursor() {
    let mut f = InputField::new(Area::new(0, 0, 10, 3));
    f.set_str("ad");
    assert!(f.move_left());
    f.insert_str("b\nc");
    assert_eq!(f.get_content(), "ab\ncd");
    assert_eq!(f.content().cursor_pos(), Pos::new(1, 1));
}

#[test]
fn new_line_breaks_the_line_at_the_cursor() {
    let mut f = InputField::new(Area::new(0, 0, 10, 3));
    f.set_str("abcd");
    assert!(f.move_left());
    assert!(f.move_left());
    assert!(f.insert_new_line());
    assert_eq!(f.get_content(), "ab\ncd");
    assert_eq!(f.content().cursor_pos(), Pos::new(0, 1));
}

#[test]
fn deleting_left_joins_lines_at_a_line_start() {
    let mut f = InputField::new(Area::new(0, 0, 10, 3));
    f.set_str("ab\ncd");
    assert!(f.move_to_line_start());
    assert!(f.del_char_left());
    assert_eq!(f.get_content(), "abcd");
    assert_eq!(f.content().cursor_pos(), Pos::new(2, 0));
    assert!(f.del_char_left());
    assert_eq!(f.get_content(), "acd");
    assert!(f.move_to_start());
    assert!(!f.del_char_left());
    assert_eq!(f.get_content(), "acd");
}

#[test]
fn deleting_below_joins_the_next_line_at_a_line_end() {
    let mut f = InputField::new(Area::new(0, 0, 10, 3));
    f.set_str("ab\ncd");
    assert!(f.move_up());
    assert_eq!(f.content().cursor_pos(), Pos::new(2, 0));
    assert!(f.del_char_below());
    assert_eq!(f.get_content(), "abcd");
    assert!(f.del_char_below());
    assert_eq!(f.get_content(), "abd");
    assert_eq!(f.content().cursor_pos(), Pos::new(2, 0));
    assert!(f.move_to_end());
    assert!(!f.del_char_below());
}

#[test]
fn moves_report_whether_the_cursor_moved() {
    let mut f = InputField::new(Area::new(0, 0, 10, 3));
    f.set_str("abc\nd");
    assert!(!f.move_right());
    assert!(!f.move_down());
    assert!(f.move_up());
    assert_eq!(f.content().cursor_pos(), Pos::new(1, 0));
    assert!(f.move_to_line_end());
    assert!(!f.move_to_line_end());
    assert!(f.move_right());
    assert_eq!(f.content().cursor_pos(), Pos::new(0, 1));
    assert!(f.move_left());
    assert_eq!(f.content().cursor_pos(), Pos::new(3, 0));
    assert!(f.move_to_start());
    assert!(!f.move_left());
    assert!(!f.move_up());
    assert!(!f.move_to_start());
}

#[test]
fn paging_moves_by_the_area_height() {
    let mut f = InputField::new(Area::new(0, 0, 10, 3));
    f.set_str("0\n1\n2\n3\n4\n5\n6\n7");
    assert!(f.move_to_start());
    assert!(f.page_down());
    assert_eq!(f.content().cursor_pos(), Pos::new(0, 3));
    assert!(f.page_down());
    assert!(f.page_down());
    assert_eq!(f.content().cursor_pos(), Pos::new(0, 7));
    assert!(!f.page_down());
    assert!(f.page_up());
    assert_eq!(f.content().cursor_pos(), Pos::new(0, 4));
}

#[test]
fn set_cursor_pos_clamps_into_the_text() {
    let mut c = InputFieldContent::new();
    c.set_str("abc\nde");
    c.set_cursor_pos(Pos::new(10, 0));
    assert_eq!(c.cursor_pos(), Pos::new(3, 0));
    c.set_cursor_pos(Pos::new(1, 10));
    assert_eq!(c.cursor_pos(), Pos::new(1, 1));
}

#[test]
fn settings_round_trip() {
    let mut f = InputField::new(Area::new(1, 2, 3, 4));
    assert!(f.focused());
    f.set_focus(false);
    assert!(!f.focused());
    assert!(!f.password_mode());
    f.set_password_mode(true);
    assert!(f.password_mode());
    assert_eq!(*f.area(), Area::new(1, 2, 3, 4));
}

#[test]
fn word_moves_stop_at_word_boundaries() {
    let mut f = InputField::new(Area::new(0, 0, 30, 3));
    f.set_str("one  two\tthree\nfour");
    assert!(f.move_up());
    assert!(f.move_to_line_end());
    assert_eq!(f.content().cursor_pos(), Pos::new(14, 0));
    assert!(f.move_word_left());
    assert_eq!(f.content().cursor_pos(), Pos::new(9, 0));
    assert!(f.move_word_left());
    assert_eq!(f.content().cursor_pos(), Pos::new(5, 0));
    assert!(f.move_word_left());
    assert_eq!(f.content().cursor_pos(), Pos::new(0, 0));
    assert!(!f.move_word_left());
    assert!(f.move_word_right());
    assert_eq!(f.content().cursor_pos(), Pos::new(3, 0));
    assert!(f.move_word_right());
    assert_eq!(f.content().cursor_pos(), Pos::new(8, 0));
    assert!(f.move_word_right());
    assert_eq!(f.content().cursor_pos(), Pos::new(14, 0));
    assert!(f.move_word_right());
    assert_eq!(f.content().cursor_pos(), Pos::new(0, 1));
}

#[test]
fn word_deletions() {
    let mut f = InputField::new(Area::new(0, 0, 30, 3));
    f.set_str("alpha beta  gamma");
    assert!(f.del_word_left());
    assert_eq!(f.get_content(), "alpha beta  ");
    assert!(f.del_word_left());
    assert_eq!(f.get_content(), "alpha ");
    assert_eq!(f.content().cursor_pos(), Pos::new(6, 0));
    assert!(f.move_to_start());
    assert!(f.del_word_right());
    assert_eq!(f.get_content(), " ");
    assert!(f.del_word_right());
    assert_eq!(f.get_content(), "");
    assert!(!f.del_word_right());
    assert!(!f.del_word_left());
}

#[test]
fn word_deletions_join_lines_at_line_ends() {
    let mut f = InputField::new(Area::new(0, 0, 30, 3));
    f.set_str("ab\ncd");
    assert!(f.move_to_line_start());
    assert!(f.del_word_left());
    assert_eq!(f.get_content(), "abcd");
    assert_eq!(f.content().cursor_pos(), Pos::new(2, 0));
    f.set_str("ab\ncd");
    assert!(f.move_up());
    assert!(f.del_word_right());
    assert_eq!(f.get_content(), "abcd");
}
