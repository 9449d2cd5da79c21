use crossterm::style::{Attribute, Color, ContentStyle};
use termfield::{Area, CellStyle, InputField, ScrollBarStyle, StyledChar};

fn bar() -> ScrollBarStyle {
    ScrollBarStyle {
        thumb: StyledChar { ch: '#', style: ContentStyle::new() },
        track: StyledChar { ch: '|', style: ContentStyle::new() },
    }
}

#[test]
fn cursor_style_is_the_focused_style_reversed() {
    let mut f = InputField::new(Area::new(0, 0, 10, 1));
    assert!(f.cursor_style().attributes.has(Attribute::Reverse));
    let mut s = ContentStyle::new();
    s.foreground_color = Some(Color::Red);
    f.set_normal_style(s);
    assert_eq!(f.focused_style(), s);
    let c = f.cursor_style();
    assert_eq!(c.foreground_color, Some(Color::Red));
    assert!(c.attributes.has(Attribute::Reverse));
    assert!(!f.focused_style().attributes.has(Attribute::Reverse));
}

#[test]
fn cell_styles_follow_focus() {
    let mut f = InputField::new(Area::new(0, 0, 10, 1));
    let mut a = ContentStyle::new();
    a.foreground_color = Some(Color::Green);
    let mut b = ContentStyle::new();
    b.foreground_color = Some(Color::Blue);
    f.set_normal_style(a);
    f.set_unfocused_style(b);
    assert_eq!(f.unfocused_style(), b);
    let bar = bar();
    assert_eq!(f.cell_style(CellStyle::Normal, &bar), a);
    f.set_focus(false);
    assert_eq!(f.cell_style(CellStyle::Normal, &bar), b);
    assert_eq!(f.cell_style(CellStyle::Cursor, &bar), f.cursor_style());
    assert_eq!(f.cell_style(CellStyle::Thumb, &bar), bar.thumb.style);
}

#[test]
fn focused_scrollbar_takes_the_focused_background() {
    let mut f = InputField::new(Area::new(0, 0, 10, 1));
    let plain = f.scrollbar_style(bar());
    assert_eq!(plain.thumb.style.background_color, None);
    let mut s = ContentStyle::new();
    s.background_color = Some(Color::DarkBlue);
    f.set_normal_style(s);
    let styled = f.scrollbar_style(bar());
    assert_eq!(styled.thumb.ch, '#');
    assert_eq!(styled.thumb.style.background_color, Some(Color::DarkBlue));
    assert_eq!(styled.track.style.background_color, Some(Color::DarkBlue));
    f.set_focus(false);
    assert_eq!(f.scrollbar_style(bar()).thumb.style.background_color, None);
}
