use termfield::{fix_scroll, Area, InputField, Pos};

fn field(width: u16, height: u16, text: &str) -> InputField {
    let mut f = InputField::new(Area::new(0, 0, width, height));
    f.set_str(text);
    f
}

#[test]
fn short_line_needs_no_horizontal_scroll() {
    let f = field(10, 1, "hello");
    assert_eq!(f.content().cursor_pos(), Pos::new(5, 0));
    assert_eq!(f.scroll().x, 0);
}

#[test]
fn typing_past_the_width_scrolls_to_keep_the_end_visible() {
    let mut f = field(10, 1, "hello");
    for c in "0123456789".chars() {
        assert!(f.put_char(c));
    }
    assert_eq!(f.content().cursor_pos(), Pos::new(15, 0));
    assert_eq!(f.scroll().x, 15 + 1 - 10);
}

#[test]
fn cursor_on_last_line_sits_on_the_bottom_row() {
    let text = "0\n1\n2\n3\n4\n5\n6\n7\n8\n9";
    let mut f = field(20, 3, text);
    assert!(f.move_to_start());
    assert_eq!(f.scroll().y, 0);
    for _ in 0..9 {
        assert!(f.move_down());
    }
    assert_eq!(f.content().cursor_pos().y, 9);
    assert_eq!(f.scroll().y, 9 - 3 + 1);
}

#[test]
fn set_str_scrolls_to_the_last_line() {
    let f = field(20, 3, "0\n1\n2\n3\n4\n5\n6\n7\n8\n9");
    assert_eq!(f.content().cursor_pos(), Pos::new(1, 9));
    assert_eq!(f.scroll().y, 7);
}

#[test]
fn moving_up_above_the_window_keeps_one_line_of_context() {
    let mut f = field(20, 6, "0\n1\n2\n3\n4\n5\n6\n7\n8\n9");
    assert_eq!(f.scroll().y, 4);
    for _ in 0..6 {
        assert!(f.move_up());
    }
    // cursor on line 3, one line of context above it
    assert_eq!(f.content().cursor_pos().y, 3);
    assert_eq!(f.scroll().y, 2);
}

#[test]
fn fix_scroll_twice_gives_the_same_offset() {
    let area = Area::new(0, 0, 8, 3);
    let cases = [
        (Pos::new(0, 0), 10, 20, Pos::new(17, 9)),
        (Pos::new(12, 6), 10, 20, Pos::new(3, 2)),
        (Pos::new(5, 1), 2, 5, Pos::new(5, 1)),
        (Pos::new(100, 100), 40, 30, Pos::new(30, 20)),
    ];
    for (scroll, n, len, cursor) in cases {
        for focused in [true, false] {
            let once = fix_scroll(&area, focused, scroll, n, len, cursor);
            let twice = fix_scroll(&area, focused, once, n, len, cursor);
            assert_eq!(once, twice);
        }
    }
}

#[test]
fn fix_scroll_keeps_the_cursor_in_view() {
    let area = Area::new(0, 0, 12, 4);
    // 20 lines: a scrollbar takes one column, 11 remain
    let r = fix_scroll(&area, true, Pos::new(0, 0), 20, 40, Pos::new(30, 19));
    assert!(r.y <= 19 && 19 < r.y + 4);
    assert!(r.x <= 30 && 30 < r.x + 11);
    assert_eq!(r, Pos::new(21, 16));
}

#[test]
fn fix_scroll_clamps_both_axes() {
    let area = Area::new(0, 0, 10, 5);
    let r = fix_scroll(&area, false, Pos::new(50, 50), 8, 20, Pos::new(0, 0));
    assert_eq!(r.y, 8 - 5);
    // 9 text columns beside the scrollbar
    assert_eq!(r.x, 20 + 1 - 9);
    let r = fix_scroll(&area, false, Pos::new(50, 50), 3, 4, Pos::new(0, 0));
    assert_eq!(r, Pos::new(0, 0));
}

#[test]
fn narrow_area_uses_a_one_cell_margin() {
    let area = Area::new(0, 0, 3, 1);
    let r = fix_scroll(&area, true, Pos::new(0, 0), 1, 10, Pos::new(6, 0));
    assert_eq!(r.x, 6 + 1 - 3);
    let r = fix_scroll(&area, true, Pos::new(5, 0), 1, 10, Pos::new(5, 0));
    assert_eq!(r.x, 4);
}

#[test]
fn zero_size_area_does_not_panic() {
    let mut f = InputField::default();
    f.set_str("abc\ndef");
    assert!(f.put_char('x'));
    assert_eq!(f.get_content(), "abc\ndefx");
}

#[test]
fn set_area_and_change_area_resynchronize() {
    let mut f = field(20, 1, "a long line of text here");
    assert_eq!(f.scroll().x, 24 + 1 - 20);
    f.change_area(2, 3, 10);
    assert_eq!(*f.area(), Area::new(2, 3, 10, 1));
    assert_eq!(f.scroll().x, 24 + 1 - 10);
    f.set_area(Area::new(0, 0, 30, 1));
    assert_eq!(f.scroll().x, 0);
}

#[test]
fn moving_below_the_window_shows_the_next_line() {
    let mut f = field(20, 3, "0\n1\n2\n3\n4\n5\n6\n7\n8\n9");
    assert!(f.move_to_start());
    for _ in 0..3 {
        assert!(f.move_down());
    }
    // cursor on line 3, not the last: the window shows lines 2 to 4
    assert_eq!(f.scroll().y, 2);
    assert!(f.move_down());
    assert_eq!(f.scroll().y, 2);
}

#[test]
fn cursor_below_the_window_stays_visible() {
    let area = Area::new(0, 0, 20, 3);
    let r = fix_scroll(&area, true, Pos::new(0, 0), 10, 1, Pos::new(0, 5));
    assert_eq!(r.y, 4);
    assert!(r.y <= 5 && 5 < r.y + 3);
    // a single row has no room below the cursor
    let one = Area::new(0, 0, 20, 1);
    let r = fix_scroll(&one, true, Pos::new(0, 0), 10, 1, Pos::new(0, 5));
    assert_eq!(r.y, 5);
}

#[test]
fn single_column_shows_the_cursor_column() {
    let area = Area::new(0, 0, 1, 1);
    let r = fix_scroll(&area, true, Pos::new(0, 0), 1, 5, Pos::new(1, 0));
    assert_eq!(r.x, 1);
    let r = fix_scroll(&area, true, Pos::new(4, 0), 1, 5, Pos::new(0, 0));
    assert_eq!(r.x, 0);
    let r = fix_scroll(&area, true, Pos::new(0, 0), 1, 5, Pos::new(5, 0));
    assert_eq!(r.x, 5);
}

#[test]
fn narrow_area_scrolls_when_the_cursor_reaches_the_right_edge() {
    let area = Area::new(0, 0, 3, 1);
    // cursor at column 3 of a 5-character line: columns 0..3 are shown, so it must scroll
    let r = fix_scroll(&area, true, Pos::new(0, 0), 1, 5, Pos::new(3, 0));
    assert_eq!(r.x, 3 + 1 - 3);
    let mut f = InputField::new(Area::new(0, 0, 3, 1));
    f.set_str("abcde");
    assert!(f.move_to_start());
    for _ in 0..3 {
        assert!(f.move_right());
    }
    let sx = f.scroll().x;
    assert!(sx <= 3 && 3 < sx + 3);
}
