use termfield::{scrollbar_thumb, Area, Cell, CellStyle, InputField, ELLIPSIS};

fn row_text(row: &[Cell]) -> String {
    row.iter().map(|c| c.ch).collect()
}

fn styles(row: &[Cell]) -> Vec<CellStyle> {
    row.iter().map(|c| c.style).collect()
}

#[test]
fn short_line_with_cursor_at_its_end() {
    let mut f = InputField::new(Area::new(0, 0, 8, 1));
    f.set_str("hello");
    let rows = f.render_cells('#', '|');
    assert_eq!(rows.len(), 1);
    assert_eq!(row_text(&rows[0]), "hello   ");
    let s = styles(&rows[0]);
    assert_eq!(s[5], CellStyle::Cursor);
    assert_eq!(s.iter().filter(|x| **x == CellStyle::Cursor).count(), 1);
}

#[test]
fn unfocused_field_has_no_cursor_cell() {
    let mut f = InputField::new(Area::new(0, 0, 8, 1));
    f.set_str("hello");
    f.set_focus(false);
    let rows = f.render_cells('#', '|');
    assert!(rows[0].iter().all(|c| c.style == CellStyle::Normal));
}

#[test]
fn password_mode_masks_every_character() {
    let mut f = InputField::new(Area::new(0, 0, 6, 1));
    f.set_str("abc");
    f.set_password_mode(true);
    let rows = f.render_cells('#', '|');
    assert_eq!(row_text(&rows[0]), "***   ");
}

#[test]
fn scrolled_line_shows_a_leading_ellipsis() {
    let mut f = InputField::new(Area::new(0, 0, 10, 1));
    f.set_str("hello");
    f.insert_str("0123456789");
    assert_eq!(f.scroll().x, 6);
    let rows = f.render_cells('#', '|');
    let expected: String = std::iter::once(ELLIPSIS).chain("23456789 ".chars()).collect();
    assert_eq!(row_text(&rows[0]), expected);
    assert_eq!(rows[0][9].style, CellStyle::Cursor);
}

#[test]
fn cut_line_shows_a_trailing_ellipsis() {
    let mut f = InputField::new(Area::new(0, 0, 6, 1));
    f.set_str("abcdefghij");
    assert!(f.move_to_start());
    assert_eq!(f.scroll().x, 0);
    let rows = f.render_cells('#', '|');
    let expected: String = "abcde".chars().chain(std::iter::once(ELLIPSIS)).collect();
    assert_eq!(row_text(&rows[0]), expected);
    assert_eq!(rows[0][0].style, CellStyle::Cursor);
}

#[test]
fn narrow_area_shows_no_ellipsis() {
    let mut f = InputField::new(Area::new(0, 0, 4, 1));
    f.set_str("abcdefghij");
    assert!(f.move_to_start());
    let rows = f.render_cells('#', '|');
    assert_eq!(row_text(&rows[0]), "abcd");
}

#[test]
fn scrollbar_takes_the_last_column() {
    let mut f = InputField::new(Area::new(0, 0, 4, 3));
    f.set_str("0\n1\n2\n3\n4\n5\n6\n7\n8\n9");
    assert_eq!(f.scroll().y, 7);
    let rows = f.render_cells('#', '|');
    assert_eq!(rows.len(), 3);
    assert_eq!(row_text(&rows[0]), "7  |");
    assert_eq!(row_text(&rows[1]), "8  |");
    assert_eq!(row_text(&rows[2]), "9  #");
    assert_eq!(rows[2][3].style, CellStyle::Thumb);
    assert_eq!(rows[0][3].style, CellStyle::Track);
    assert_eq!(rows[2][1].style, CellStyle::Cursor);
}

#[test]
fn rows_past_the_last_line_are_blank() {
    let mut f = InputField::new(Area::new(0, 0, 3, 3));
    f.set_str("a");
    let rows = f.render_cells('#', '|');
    assert_eq!(row_text(&rows[1]), "   ");
    assert_eq!(row_text(&rows[2]), "   ");
}

#[test]
fn zero_size_area_renders_nothing() {
    let mut f = InputField::default();
    f.set_str("abc");
    assert!(f.render_cells('#', '|').is_empty());
}

#[test]
fn scrollbar_thumb_positions() {
    assert_eq!(scrollbar_thumb(0, 3, 3), None);
    assert_eq!(scrollbar_thumb(0, 10, 0), None);
    assert_eq!(scrollbar_thumb(0, 10, 3), Some((0, 1)));
    assert_eq!(scrollbar_thumb(7, 10, 3), Some((2, 3)));
    assert_eq!(scrollbar_thumb(0, 20, 10), Some((0, 5)));
    assert_eq!(scrollbar_thumb(5, 20, 10), Some((2, 7)));
    assert_eq!(scrollbar_thumb(10, 20, 10), Some((5, 10)));
    assert_eq!(scrollbar_thumb(99, 20, 10), Some((5, 10)));
}

#[test]
fn empty_line_in_a_scrolled_view_shows_the_leading_ellipsis() {
    let mut f = InputField::new(Area::new(0, 0, 6, 2));
    f.set_str("\nabcdefghijkl");
    assert!(f.scroll().x > 0);
    let rows = f.render_cells('#', '|');
    assert_eq!(rows[0][0].ch, ELLIPSIS);
    assert_eq!(rows[1][0].ch, ELLIPSIS);
}
