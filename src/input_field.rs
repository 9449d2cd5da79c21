//! The input field: a text buffer shown through a scrolled viewport, driven
//! by key and click events.
use vstd::prelude::*;
use crate::content::{
    InputFieldContent,
    broken_at,
    clamp_to,
    deleted_below,
    deleted_left,
    deleted_word_left,
    deleted_word_right,
    left_of,
    lemma_line_count_fits,
    lines_down,
    lines_up,
    right_of,
    split_lines,
    total,
    typed,
    typed_all,
    word_left_of,
    word_right_of,
};
use crate::geometry::{Area, Pos};
use crate::keys::{Event, KeyCode, KeyEvent, KeyModifiers};
use crate::scroll::{
    effective_width,
    fix_scroll,
    lemma_fix_scroll_clamped,
    lemma_fix_scroll_idempotent,
    synced_scroll,
};
use crate::style::{plain_style, reversed, reversed_of};
use crossterm::style::ContentStyle;

verus! {

/// Text, cursor and the changed flag that a key reports, for the keys that the
/// field handles; `height` is the page size. A buffer whose size a `usize`
/// can no longer count takes no more characters.
pub open spec fn keycode_result(t: Seq<Seq<char>>, p: Pos, code: KeyCode, height: int) -> (
    Seq<Seq<char>>,
    Pos,
    bool,
) {
    match code {
        KeyCode::Home => (t, Pos { x: 0, y: p.y }, p.x != 0),
        KeyCode::End => (
            t,
            Pos { x: t[p.y as int].len() as usize, y: p.y },
            p.x != t[p.y as int].len(),
        ),
        KeyCode::Char(c) => if total(t) < usize::MAX {
            (typed(t, p, c).0, typed(t, p, c).1, true)
        } else {
            (t, p, false)
        },
        KeyCode::Up => (t, lines_up(t, p, 1), lines_up(t, p, 1) != p),
        KeyCode::Down => (t, lines_down(t, p, 1), lines_down(t, p, 1) != p),
        KeyCode::Left => (t, left_of(t, p), left_of(t, p) != p),
        KeyCode::Right => (t, right_of(t, p), right_of(t, p) != p),
        KeyCode::PageUp => (t, lines_up(t, p, height), lines_up(t, p, height) != p),
        KeyCode::PageDown => (t, lines_down(t, p, height), lines_down(t, p, height) != p),
        KeyCode::Backspace => deleted_left(t, p),
        KeyCode::Delete => deleted_below(t, p),
        _ => (t, p, false),
    }
}

/// Whether the field acts on this key at all.
pub open spec fn handled_code(code: KeyCode) -> bool {
    match code {
        KeyCode::Home | KeyCode::End | KeyCode::Char(_) | KeyCode::Up | KeyCode::Down
        | KeyCode::Left | KeyCode::Right | KeyCode::PageUp | KeyCode::PageDown
        | KeyCode::Backspace | KeyCode::Delete => true,
        _ => false,
    }
}

/// Whether a key with these modifiers is passed on to the key table:
/// none, or Shift alone.
pub open spec fn plain_modifiers(m: KeyModifiers) -> bool {
    m.bits == 0 || m.bits == KeyModifiers::SHIFT_BIT
}

/// A single-line or multi-line text input shown in an area of the terminal.
///
/// To make a multi-line input (a textarea), give it an area more than one
/// row high and register a key that breaks lines with `new_line_on`.
pub struct InputField {
    content: InputFieldContent,
    area: Area,
    focused_style: ContentStyle,
    unfocused_style: ContentStyle,
    cursor_style: ContentStyle,
    password_mode: bool,
    focused: bool,
    scroll: Pos,
    new_line_keys: Vec<KeyEvent>,
}

impl Default for InputField {
    /// A focused, empty field with a zero-size area, to be laid out later.
    fn default() -> (r: Self)
        ensures
            r.wf(),
            r.text() == seq![Seq::<char>::empty()],
            r.cursor() == (Pos { x: 0, y: 0 }),
            r.spec_area() == (Area { left: 0, top: 0, width: 0, height: 0 }),
            r.spec_focused(),
            r.spec_scroll() == (Pos { x: 0, y: 0 }),
            r.spec_keys().len() == 0,
            !r.spec_password(),
            r.spec_styles().2 == reversed_of(r.spec_styles().0),
    {
        Self::new(Area::uninitialized())
    }
}

impl InputField {
    pub closed spec fn buffer(&self) -> InputFieldContent {
        self.content
    }

    pub closed spec fn spec_area(&self) -> Area {
        self.area
    }

    pub closed spec fn spec_focused(&self) -> bool {
        self.focused
    }

    pub closed spec fn spec_scroll(&self) -> Pos {
        self.scroll
    }

    /// The focused text style, the unfocused one, and the cursor's.
    pub closed spec fn spec_styles(&self) -> (ContentStyle, ContentStyle, ContentStyle) {
        (self.focused_style, self.unfocused_style, self.cursor_style)
    }

    /// When true, every character is shown as a mask glyph.
    pub closed spec fn spec_password(&self) -> bool {
        self.password_mode
    }

    pub closed spec fn spec_keys(&self) -> Seq<KeyEvent> {
        self.new_line_keys@
    }

    pub open spec fn wf(&self) -> bool {
        self.buffer().wf()
    }

    pub open spec fn text(&self) -> Seq<Seq<char>> {
        self.buffer().text()
    }

    pub open spec fn cursor(&self) -> Pos {
        self.buffer().cursor()
    }

    /// Whether the scroll offset is what synchronizing `prev` gives for the
    /// current area, focus, text and cursor.
    pub open spec fn resynced_from(&self, prev: Pos) -> bool {
        self.spec_scroll() == synced_scroll(
            self.spec_area(),
            self.spec_focused(),
            prev,
            self.text().len() as int,
            self.buffer().line_len(),
            self.cursor(),
        )
    }

    /// Area, focus, newline keys and password mode are those of `o`.
    pub open spec fn same_setup(&self, o: &InputField) -> bool {
        &&& self.spec_area() == o.spec_area()
        &&& self.spec_focused() == o.spec_focused()
        &&& self.spec_keys() == o.spec_keys()
        &&& self.spec_password() == o.spec_password()
        &&& self.spec_styles() == o.spec_styles()
    }

    /// After an operation that reported `changed`: resynchronized if it
    /// changed something, else the scroll offset of `o` kept.
    pub open spec fn scroll_after(&self, o: &InputField, changed: bool) -> bool {
        if changed {
            self.resynced_from(o.spec_scroll())
        } else {
            self.spec_scroll() == o.spec_scroll()
        }
    }

    /// What a key without modifiers does to the field `o`, giving `self`
    /// and the result `r`.
    pub open spec fn keycode_applied(&self, o: &InputField, code: KeyCode, r: bool) -> bool {
        if !o.spec_focused() || !handled_code(code) {
            !r && *self == *o
        } else {
            let (t, p, changed) = keycode_result(
                o.text(),
                o.cursor(),
                code,
                o.spec_area().height as int,
            );
            &&& r == changed
            &&& self.text() == t
            &&& self.cursor() == p
            &&& self.same_setup(o)
            &&& self.scroll_after(o, changed)
        }
    }

    /// What a click at `(x, y)` does to the field `o`, giving `self` and the
    /// result `r`.
    pub open spec fn click_applied(&self, o: &InputField, x: u16, y: u16, r: bool) -> bool {
        if !o.spec_area().spec_contains(x as int, y as int) {
            !r && *self == *o
        } else if !o.spec_focused() {
            &&& r
            &&& self.spec_focused()
            &&& self.buffer() == o.buffer()
            &&& self.spec_scroll() == o.spec_scroll()
            &&& self.spec_area() == o.spec_area()
            &&& self.spec_keys() == o.spec_keys()
            &&& self.spec_password() == o.spec_password()
            &&& self.spec_styles() == o.spec_styles()
        } else {
            &&& r
            &&& self.text() == o.text()
            &&& self.cursor() == clamp_to(
                o.text(),
                x - o.spec_area().left + o.spec_scroll().x,
                y - o.spec_area().top + o.spec_scroll().y,
            )
            &&& self.same_setup(o)
            &&& self.resynced_from(o.spec_scroll())
        }
    }

    /// The key that breaks lines in most text areas: Enter.
    pub fn enter() -> (r: KeyEvent)
        ensures
            r.code == KeyCode::Enter,
            r.modifiers.bits == 0,
    {
        KeyEvent { code: KeyCode::Enter, modifiers: KeyModifiers::none() }
    }

    /// Alt-Enter, a line-break key that leaves plain Enter to the application.
    pub fn alt_enter() -> (r: KeyEvent)
        ensures
            r.code == KeyCode::Enter,
            r.modifiers.bits == KeyModifiers::ALT_BIT,
    {
        KeyEvent { code: KeyCode::Enter, modifiers: KeyModifiers::alt() }
    }

    /// A focused, empty field in `area`, not in password mode, without
    /// newline keys.
    pub fn new(area: Area) -> (r: Self)
        ensures
            r.wf(),
            r.text() == seq![Seq::<char>::empty()],
            r.cursor() == (Pos { x: 0, y: 0 }),
            r.spec_area() == area,
            r.spec_focused(),
            r.spec_scroll() == (Pos { x: 0, y: 0 }),
            r.spec_keys().len() == 0,
            !r.spec_password(),
            r.spec_styles().2 == reversed_of(r.spec_styles().0),
    {
        let focused_style = plain_style();
        InputField {
            content: InputFieldContent::new(),
            area,
            focused_style,
            unfocused_style: plain_style(),
            cursor_style: reversed(focused_style),
            password_mode: false,
            focused: true,
            scroll: Pos { x: 0, y: 0 },
            new_line_keys: Vec::new(),
        }
    }

    /// Recomputes the scroll offset from the area, focus, text and cursor.
    fn fix_scroll(&mut self)
        requires
            old(self).wf(),
        ensures
            final(self).buffer() == old(self).buffer(),
            final(self).same_setup(old(self)),
            final(self).resynced_from(old(self).spec_scroll()),
    {
        let n = self.content.line_count();
        let len = self.content.current_line_len();
        let cursor = self.content.cursor_pos();
        self.scroll = fix_scroll(&self.area, self.focused, self.scroll, n, len, cursor);
    }

    /// Resynchronizes when `changed`.
    fn resync_if(&mut self, changed: bool)
        requires
            old(self).wf(),
        ensures
            final(self).buffer() == old(self).buffer(),
            final(self).same_setup(old(self)),
            final(self).scroll_after(old(self), changed),
    {
        if changed {
            self.fix_scroll();
        }
    }

    /// Forgets the newline keys: the field becomes single-line for key events.
    pub fn set_mono_line(&mut self)
        ensures
            final(self).spec_keys().len() == 0,
            final(self).buffer() == old(self).buffer(),
            final(self).spec_area() == old(self).spec_area(),
            final(self).spec_focused() == old(self).spec_focused(),
            final(self).spec_scroll() == old(self).spec_scroll(),
            final(self).spec_password() == old(self).spec_password(),
            final(self).spec_styles() == old(self).spec_styles(),
    {
        self.new_line_keys.clear();
    }

    /// Registers a key that breaks the line. Several can be registered.
    pub fn new_line_on(&mut self, key: KeyEvent)
        ensures
            final(self).spec_keys() == old(self).spec_keys().push(key),
            final(self).buffer() == old(self).buffer(),
            final(self).spec_area() == old(self).spec_area(),
            final(self).spec_focused() == old(self).spec_focused(),
            final(self).spec_scroll() == old(self).spec_scroll(),
            final(self).spec_password() == old(self).spec_password(),
            final(self).spec_styles() == old(self).spec_styles(),
    {
        self.new_line_keys.push(key);
    }

    /// Moves the area and changes its width, keeping its height.
    pub fn change_area(&mut self, x: u16, y: u16, w: u16)
        requires
            old(self).wf(),
        ensures
            final(self).wf(),
            final(self).spec_area() == (Area {
                left: x,
                top: y,
                width: w,
                height: old(self).spec_area().height,
            }),
            final(self).buffer() == old(self).buffer(),
            final(self).spec_focused() == old(self).spec_focused(),
            final(self).spec_keys() == old(self).spec_keys(),
            final(self).spec_password() == old(self).spec_password(),
            final(self).spec_styles() == old(self).spec_styles(),
            final(self).resynced_from(old(self).spec_scroll()),
    {
        self.area = Area { left: x, top: y, width: w, height: self.area.height };
        self.fix_scroll();
    }

    /// Sets the area; the scroll offset is recomputed when it differs.
    pub fn set_area(&mut self, area: Area)
        requires
            old(self).wf(),
        ensures
            final(self).wf(),
            final(self).spec_area() == area,
            final(self).buffer() == old(self).buffer(),
            final(self).spec_focused() == old(self).spec_focused(),
            final(self).spec_keys() == old(self).spec_keys(),
            final(self).spec_password() == old(self).spec_password(),
            final(self).spec_styles() == old(self).spec_styles(),
            area == old(self).spec_area() ==> *final(self) == *old(self),
            area != old(self).spec_area() ==> final(self).resynced_from(old(self).spec_scroll()),
    {
        if self.area != area {
            self.area = area;
            self.fix_scroll();
        }
    }

    pub fn area(&self) -> (r: &Area)
        ensures
            *r == self.spec_area(),
    {
        &self.area
    }

    /// The scroll offset on both axes.
    pub fn scroll(&self) -> (r: Pos)
        ensures
            r == self.spec_scroll(),
    {
        self.scroll
    }

    /// Focuses or unfocuses the field; focusing recomputes the scroll offset.
    pub fn set_focus(&mut self, b: bool)
        requires
            old(self).wf(),
        ensures
            final(self).wf(),
            final(self).spec_focused() == b,
            final(self).buffer() == old(self).buffer(),
            final(self).spec_area() == old(self).spec_area(),
            final(self).spec_keys() == old(self).spec_keys(),
            final(self).spec_password() == old(self).spec_password(),
            final(self).spec_styles() == old(self).spec_styles(),
            b ==> final(self).resynced_from(old(self).spec_scroll()),
            !b ==> final(self).spec_scroll() == old(self).spec_scroll(),
    {
        self.focused = b;
        // unfocusing leaves the view where it is
        if self.focused {
            self.fix_scroll();
        }
    }

    /// Sets the focused text style; the cursor is drawn in it, reversed.
    pub fn set_normal_style(&mut self, style: ContentStyle)
        ensures
            final(self).spec_styles() == (style, old(self).spec_styles().1, reversed_of(style)),
            final(self).buffer() == old(self).buffer(),
            final(self).spec_area() == old(self).spec_area(),
            final(self).spec_focused() == old(self).spec_focused(),
            final(self).spec_scroll() == old(self).spec_scroll(),
            final(self).spec_keys() == old(self).spec_keys(),
            final(self).spec_password() == old(self).spec_password(),
    {
        self.focused_style = style;
        self.cursor_style = reversed(style);
    }

    /// Sets the text style used while unfocused.
    pub fn set_unfocused_style(&mut self, style: ContentStyle)
        ensures
            final(self).spec_styles() == (
                old(self).spec_styles().0,
                style,
                old(self).spec_styles().2,
            ),
            final(self).buffer() == old(self).buffer(),
            final(self).spec_area() == old(self).spec_area(),
            final(self).spec_focused() == old(self).spec_focused(),
            final(self).spec_scroll() == old(self).spec_scroll(),
            final(self).spec_keys() == old(self).spec_keys(),
            final(self).spec_password() == old(self).spec_password(),
    {
        self.unfocused_style = style;
    }

    pub fn focused_style(&self) -> (r: ContentStyle)
        ensures
            r == self.spec_styles().0,
    {
        self.focused_style
    }

    pub fn unfocused_style(&self) -> (r: ContentStyle)
        ensures
            r == self.spec_styles().1,
    {
        self.unfocused_style
    }

    pub fn cursor_style(&self) -> (r: ContentStyle)
        ensures
            r == self.spec_styles().2,
    {
        self.cursor_style
    }

    /// Shows every character as a mask glyph, or not.
    pub fn set_password_mode(&mut self, b: bool)
        ensures
            final(self).spec_password() == b,
            final(self).spec_styles() == old(self).spec_styles(),
            final(self).buffer() == old(self).buffer(),
            final(self).spec_area() == old(self).spec_area(),
            final(self).spec_focused() == old(self).spec_focused(),
            final(self).spec_scroll() == old(self).spec_scroll(),
            final(self).spec_keys() == old(self).spec_keys(),
    {
        self.password_mode = b;
    }

    pub fn password_mode(&self) -> (r: bool)
        ensures
            r == self.spec_password(),
    {
        self.password_mode
    }

    pub fn focused(&self) -> (r: bool)
        ensures
            r == self.spec_focused(),
    {
        self.focused
    }

    pub fn content(&self) -> (r: &InputFieldContent)
        ensures
            *r == self.buffer(),
    {
        &self.content
    }

    /// The text, lines joined with line breaks.
    pub fn get_content(&self) -> (r: String)
        requires
            self.wf(),
        ensures
            r@ == self.buffer().content(),
    {
        self.content.to_string()
    }

    pub fn is_empty(&self) -> (r: bool)
        requires
            self.wf(),
        ensures
            r == (self.buffer().content().len() == 0),
    {
        self.content.is_empty()
    }

    /// Whether the text is exactly `s`.
    pub fn is_content(&self, s: &str) -> (r: bool)
        requires
            self.wf(),
        ensures
            r == (self.buffer().content() == s@),
    {
        self.content.is_str(s)
    }

    /// Replaces the text by `s`, with the cursor at its end, unless the text
    /// already is `s`; then recomputes the scroll offset.
    pub fn set_str(&mut self, s: &str)
        requires
            old(self).wf(),
            s@.len() < usize::MAX,
        ensures
            final(self).wf(),
            final(self).buffer().content() == s@,
            old(self).buffer().content() == s@ ==> final(self).buffer() == old(self).buffer(),
            old(self).buffer().content() != s@ ==> final(self).text() == split_lines(s@),
            old(self).buffer().content() != s@ ==> final(self).cursor() == (Pos {
                x: split_lines(s@).last().len() as usize,
                y: (split_lines(s@).len() - 1) as usize,
            }),
            final(self).same_setup(old(self)),
            final(self).resynced_from(old(self).spec_scroll()),
    {
        self.content.set_str(s);
        self.fix_scroll();
    }

    /// Breaks the line at the cursor; a buffer whose size a `usize` can no
    /// longer count is left as it is, and false is returned.
    pub fn insert_new_line(&mut self) -> (r: bool)
        requires
            old(self).wf(),
        ensures
            final(self).wf(),
            r == (total(old(self).text()) < usize::MAX),
            !r ==> *final(self) == *old(self),
            r ==> final(self).text() == broken_at(old(self).text(), old(self).cursor()),
            r ==> final(self).cursor() == (Pos { x: 0, y: (old(self).cursor().y + 1) as usize }),
            r ==> final(self).same_setup(old(self)),
            r ==> final(self).resynced_from(old(self).spec_scroll()),
    {
        if self.content.size() == usize::MAX {
            return false;
        }
        self.content.insert_new_line();
        self.fix_scroll();
        true
    }

    /// Types `c` at the cursor; a buffer whose size a `usize` can no longer
    /// count is left as it is, and false is returned.
    pub fn put_char(&mut self, c: char) -> (r: bool)
        requires
            old(self).wf(),
        ensures
            final(self).wf(),
            r == (total(old(self).text()) < usize::MAX),
            !r ==> *final(self) == *old(self),
            r ==> (final(self).text(), final(self).cursor()) == typed(
                old(self).text(),
                old(self).cursor(),
                c,
            ),
            r ==> final(self).same_setup(old(self)),
            r ==> final(self).resynced_from(old(self).spec_scroll()),
    {
        if self.content.size() == usize::MAX {
            return false;
        }
        self.content.insert_char(c);
        self.fix_scroll();
        true
    }

    /// Empties the field.
    pub fn clear(&mut self)
        requires
            old(self).wf(),
        ensures
            final(self).wf(),
            final(self).text() == seq![Seq::<char>::empty()],
            final(self).cursor() == (Pos { x: 0, y: 0 }),
            final(self).same_setup(old(self)),
            final(self).resynced_from(old(self).spec_scroll()),
    {
        self.content.clear();
        self.fix_scroll();
    }

    /// Types the characters of `s` at the cursor.
    pub fn insert_str(&mut self, s: &str)
        requires
            old(self).wf(),
            total(old(self).text()) + s@.len() <= usize::MAX,
        ensures
            final(self).wf(),
            (final(self).text(), final(self).cursor()) == typed_all(
                old(self).text(),
                old(self).cursor(),
                s@,
            ),
            final(self).same_setup(old(self)),
            final(self).resynced_from(old(self).spec_scroll()),
    {
        self.content.insert_str(s);
        self.fix_scroll();
    }

    /// Deletes the character under the cursor, or joins the next line.
    pub fn del_char_below(&mut self) -> (r: bool)
        requires
            old(self).wf(),
        ensures
            final(self).wf(),
            (final(self).text(), final(self).cursor(), r) == deleted_below(
                old(self).text(),
                old(self).cursor(),
            ),
            final(self).same_setup(old(self)),
            final(self).scroll_after(old(self), r),
    {
        let changed = self.content.del_char_below();
        self.resync_if(changed);
        changed
    }

    /// Deletes the character before the cursor, or joins the previous line.
    pub fn del_char_left(&mut self) -> (r: bool)
        requires
            old(self).wf(),
        ensures
            final(self).wf(),
            (final(self).text(), final(self).cursor(), r) == deleted_left(
                old(self).text(),
                old(self).cursor(),
            ),
            final(self).same_setup(old(self)),
            final(self).scroll_after(old(self), r),
    {
        let changed = self.content.del_char_left();
        self.resync_if(changed);
        changed
    }
    /// Moves one line up. Returns whether the cursor moved; the scroll offset is
    /// recomputed only then.
    pub fn move_up(&mut self) -> (r: bool)
        requires
            old(self).wf(),
        ensures
            final(self).wf(),
            final(self).text() == old(self).text(),
            final(self).cursor() == lines_up(old(self).text(), old(self).cursor(), 1),
            r == (final(self).cursor() != old(self).cursor()),
            final(self).same_setup(old(self)),
            final(self).scroll_after(old(self), r),
    {
        let changed = self.content.move_up();
        self.resync_if(changed);
        changed
    }

    /// Moves one line down. Returns whether the cursor moved; the scroll offset is
    /// recomputed only then.
    pub fn move_down(&mut self) -> (r: bool)
        requires
            old(self).wf(),
        ensures
            final(self).wf(),
            final(self).text() == old(self).text(),
            final(self).cursor() == lines_down(old(self).text(), old(self).cursor(), 1),
            r == (final(self).cursor() != old(self).cursor()),
            final(self).same_setup(old(self)),
            final(self).scroll_after(old(self), r),
    {
        let changed = self.content.move_down();
        self.resync_if(changed);
        changed
    }

    /// Moves one character left. Returns whether the cursor moved; the scroll offset is
    /// recomputed only then.
    pub fn move_left(&mut self) -> (r: bool)
        requires
            old(self).wf(),
        ensures
            final(self).wf(),
            final(self).text() == old(self).text(),
            final(self).cursor() == left_of(old(self).text(), old(self).cursor()),
            r == (final(self).cursor() != old(self).cursor()),
            final(self).same_setup(old(self)),
            final(self).scroll_after(old(self), r),
    {
        let changed = self.content.move_left();
        self.resync_if(changed);
        changed
    }

    /// Moves one character right. Returns whether the cursor moved; the scroll offset is
    /// recomputed only then.
    pub fn move_right(&mut self) -> (r: bool)
        requires
            old(self).wf(),
        ensures
            final(self).wf(),
            final(self).text() == old(self).text(),
            final(self).cursor() == right_of(old(self).text(), old(self).cursor()),
            r == (final(self).cursor() != old(self).cursor()),
            final(self).same_setup(old(self)),
            final(self).scroll_after(old(self), r),
    {
        let changed = self.content.move_right();
        self.resync_if(changed);
        changed
    }

    /// Moves to the start of the text. Returns whether the cursor moved; the scroll offset is
    /// recomputed only then.
    pub fn move_to_start(&mut self) -> (r: bool)
        requires
            old(self).wf(),
        ensures
            final(self).wf(),
            final(self).text() == old(self).text(),
            final(self).cursor() == (Pos { x: 0, y: 0 }),
            r == (final(self).cursor() != old(self).cursor()),
            final(self).same_setup(old(self)),
            final(self).scroll_after(old(self), r),
    {
        let changed = self.content.move_to_start();
        self.resync_if(changed);
        changed
    }

    /// Moves to the end of the text. Returns whether the cursor moved; the scroll offset is
    /// recomputed only then.
    pub fn move_to_end(&mut self) -> (r: bool)
        requires
            old(self).wf(),
        ensures
            final(self).wf(),
            final(self).text() == old(self).text(),
            final(self).cursor() == (Pos {
                x: old(self).text().last().len() as usize,
                y: (old(self).text().len() - 1) as usize,
            }),
            r == (final(self).cursor() != old(self).cursor()),
            final(self).same_setup(old(self)),
            final(self).scroll_after(old(self), r),
    {
        let changed = self.content.move_to_end();
        self.resync_if(changed);
        changed
    }

    /// Moves to the start of the cursor's line. Returns whether the cursor moved; the scroll offset is
    /// recomputed only then.
    pub fn move_to_line_start(&mut self) -> (r: bool)
        requires
            old(self).wf(),
        ensures
            final(self).wf(),
            final(self).text() == old(self).text(),
            final(self).cursor() == (Pos { x: 0, y: old(self).cursor().y }),
            r == (final(self).cursor() != old(self).cursor()),
            final(self).same_setup(old(self)),
            final(self).scroll_after(old(self), r),
    {
        let changed = self.content.move_to_line_start();
        self.resync_if(changed);
        changed
    }

    /// Moves to the end of the cursor's line. Returns whether the cursor moved; the scroll offset is
    /// recomputed only then.
    pub fn move_to_line_end(&mut self) -> (r: bool)
        requires
            old(self).wf(),
        ensures
            final(self).wf(),
            final(self).text() == old(self).text(),
            final(self).cursor() == (Pos {
                x: old(self).text()[old(self).cursor().y as int].len() as usize,
                y: old(self).cursor().y,
            }),
            r == (final(self).cursor() != old(self).cursor()),
            final(self).same_setup(old(self)),
            final(self).scroll_after(old(self), r),
    {
        let changed = self.content.move_to_line_end();
        self.resync_if(changed);
        changed
    }

    /// Moves up by the height of the area. Returns whether the cursor moved; the scroll offset is
    /// recomputed only then.
    pub fn page_up(&mut self) -> (r: bool)
        requires
            old(self).wf(),
        ensures
            final(self).wf(),
            final(self).text() == old(self).text(),
            final(self).cursor() == lines_up(old(self).text(), old(self).cursor(), old(self).spec_area().height as int),
            r == (final(self).cursor() != old(self).cursor()),
            final(self).same_setup(old(self)),
            final(self).scroll_after(old(self), r),
    {
        let changed = self.content.move_lines_up(self.area.height as usize);
        self.resync_if(changed);
        changed
    }

    /// Moves down by the height of the area. Returns whether the cursor moved; the scroll offset is
    /// recomputed only then.
    pub fn page_down(&mut self) -> (r: bool)
        requires
            old(self).wf(),
        ensures
            final(self).wf(),
            final(self).text() == old(self).text(),
            final(self).cursor() == lines_down(old(self).text(), old(self).cursor(), old(self).spec_area().height as int),
            r == (final(self).cursor() != old(self).cursor()),
            final(self).same_setup(old(self)),
            final(self).scroll_after(old(self), r),
    {
        let changed = self.content.move_lines_down(self.area.height as usize);
        self.resync_if(changed);
        changed
    }

    /// Moves one word left. Returns whether the cursor moved; the scroll offset is
    /// recomputed only then.
    pub fn move_word_left(&mut self) -> (r: bool)
        requires
            old(self).wf(),
        ensures
            final(self).wf(),
            final(self).text() == old(self).text(),
            final(self).cursor() == word_left_of(old(self).text(), old(self).cursor()),
            r == (final(self).cursor() != old(self).cursor()),
            final(self).same_setup(old(self)),
            final(self).scroll_after(old(self), r),
    {
        let changed = self.content.move_word_left();
        self.resync_if(changed);
        changed
    }

    /// Moves one word right. Returns whether the cursor moved; the scroll offset is
    /// recomputed only then.
    pub fn move_word_right(&mut self) -> (r: bool)
        requires
            old(self).wf(),
        ensures
            final(self).wf(),
            final(self).text() == old(self).text(),
            final(self).cursor() == word_right_of(old(self).text(), old(self).cursor()),
            r == (final(self).cursor() != old(self).cursor()),
            final(self).same_setup(old(self)),
            final(self).scroll_after(old(self), r),
    {
        let changed = self.content.move_word_right();
        self.resync_if(changed);
        changed
    }

    /// Deletes back to the start of the word before the cursor. Returns whether anything changed; the scroll offset is
    /// recomputed only then.
    pub fn del_word_left(&mut self) -> (r: bool)
        requires
            old(self).wf(),
        ensures
            final(self).wf(),
            (final(self).text(), final(self).cursor(), r) == deleted_word_left(
                old(self).text(),
                old(self).cursor(),
            ),
            final(self).same_setup(old(self)),
            final(self).scroll_after(old(self), r),
    {
        let changed = self.content.del_word_left();
        self.resync_if(changed);
        changed
    }

    /// Deletes up to the end of the word after the cursor. Returns whether anything changed; the scroll offset is
    /// recomputed only then.
    pub fn del_word_right(&mut self) -> (r: bool)
        requires
            old(self).wf(),
        ensures
            final(self).wf(),
            (final(self).text(), final(self).cursor(), r) == deleted_word_right(
                old(self).text(),
                old(self).cursor(),
            ),
            final(self).same_setup(old(self)),
            final(self).scroll_after(old(self), r),
    {
        let changed = self.content.del_word_right();
        self.resync_if(changed);
        changed
    }

    /// Applies a key without its modifiers: Home and End go to the line's
    /// ends, a character is typed, the arrows move, PageUp and PageDown move
    /// by the area's height, Backspace and Delete delete. Other keys, and any
    /// key while unfocused, are left unhandled. Returns whether the key
    /// changed something.
    #[verifier::rlimit(40)]
    pub fn apply_keycode_event(&mut self, code: KeyCode) -> (r: bool)
        requires
            old(self).wf(),
        ensures
            final(self).wf(),
            final(self).keycode_applied(old(self), code, r),
    {
        if !self.focused {
            return false;
        }
        proof {
            lemma_line_count_fits(self.text());
        }
        match code {
            KeyCode::Home => self.move_to_line_start(),
            KeyCode::End => self.move_to_line_end(),
            KeyCode::Char(c) => self.put_char(c),
            KeyCode::Up => self.move_up(),
            KeyCode::Down => self.move_down(),
            KeyCode::Left => self.move_left(),
            KeyCode::PageUp => self.page_up(),
            KeyCode::PageDown => self.page_down(),
            KeyCode::Right => self.move_right(),
            KeyCode::Backspace => self.del_char_left(),
            KeyCode::Delete => self.del_char_below(),
            _ => false,
        }
    }

    /// Whether `key` is a registered newline key, modifiers included.
    fn is_new_line_key(&self, key: KeyEvent) -> (r: bool)
        ensures
            r == self.spec_keys().contains(key),
    {
        let mut i: usize = 0;
        while i < self.new_line_keys.len()
            invariant
                0 <= i <= self.new_line_keys@.len(),
                forall|k: int| 0 <= k < i ==> self.new_line_keys@[k] != key,
            decreases self.new_line_keys@.len() - i,
        {
            if self.new_line_keys[i] == key {
                return true;
            }
            i = i + 1;
        }
        false
    }

    /// Applies a key press. While focused, a registered newline key breaks
    /// the line, before anything else; a key with no modifier or with Shift
    /// alone goes to `apply_keycode_event`; any other combination is left to
    /// the application. Returns whether the key was used.
    pub fn apply_key_event(&mut self, key: KeyEvent) -> (r: bool)
        requires
            old(self).wf(),
        ensures
            final(self).wf(),
            !old(self).spec_focused() ==> !r && *final(self) == *old(self),
            old(self).spec_focused() && old(self).spec_keys().contains(key) ==> r,
            old(self).spec_focused() && old(self).spec_keys().contains(key) && total(
                old(self).text(),
            ) < usize::MAX ==> {
                &&& final(self).text() == broken_at(old(self).text(), old(self).cursor())
                &&& final(self).cursor() == (Pos { x: 0, y: (old(self).cursor().y + 1) as usize })
                &&& final(self).same_setup(old(self))
                &&& final(self).resynced_from(old(self).spec_scroll())
            },
            old(self).spec_focused() && old(self).spec_keys().contains(key) && total(
                old(self).text(),
            ) >= usize::MAX ==> *final(self) == *old(self),
            old(self).spec_focused() && !old(self).spec_keys().contains(key) && plain_modifiers(
                key.modifiers,
            ) ==> final(self).keycode_applied(old(self), key.code, r),
            old(self).spec_focused() && !old(self).spec_keys().contains(key) && !plain_modifiers(
                key.modifiers,
            ) ==> !r && *final(self) == *old(self),
    {
        if !self.focused {
            return false;
        }
        if self.is_new_line_key(key) {
            self.insert_new_line();
            return true;
        }
        if key.modifiers.bits == 0 || key.modifiers.bits == KeyModifiers::SHIFT_BIT {
            self.apply_keycode_event(key.code)
        } else {
            false
        }
    }

    /// Applies a click at the cell `(x, y)`. Outside the area it is left
    /// unhandled. Inside, an unfocused field takes the focus and its cursor
    /// stays; a focused one moves its cursor to the clicked cell's buffer
    /// position, clamped into the text.
    pub fn apply_click_event(&mut self, x: u16, y: u16) -> (r: bool)
        requires
            old(self).wf(),
        ensures
            final(self).wf(),
            final(self).click_applied(old(self), x, y, r),
    {
        if self.area.contains(x, y) {
            if self.focused {
                let dx = (x - self.area.left) as usize;
                let dy = (y - self.area.top) as usize;
                // past usize::MAX the position is clamped to the text all the same
                let px = if self.scroll.x <= usize::MAX - dx { dx + self.scroll.x } else { usize::MAX };
                let py = if self.scroll.y <= usize::MAX - dy { dy + self.scroll.y } else { usize::MAX };
                proof {
                    lemma_line_count_fits(self.text());
                }
                self.content.set_cursor_pos(Pos { x: px, y: py });
                self.fix_scroll();
            } else {
                self.focused = true;
            }
            true
        } else {
            false
        }
    }

    /// Applies an event: a click as `apply_click_event`, a key with no
    /// modifier or with Shift alone as `apply_keycode_event`. Other events,
    /// newline keys included, are left unhandled.
    pub fn apply_event(&mut self, event: &Event) -> (r: bool)
        requires
            old(self).wf(),
        ensures
            final(self).wf(),
            match *event {
                Event::Click(x, y, _) => final(self).click_applied(old(self), x, y, r),
                Event::Key(k) => if plain_modifiers(k.modifiers) {
                    final(self).keycode_applied(old(self), k.code, r)
                } else {
                    !r && *final(self) == *old(self)
                },
                _ => !r && *final(self) == *old(self),
            },
    {
        match event {
            Event::Click(x, y, _) => self.apply_click_event(*x, *y),
            Event::Key(k) => {
                if k.modifiers.bits == 0 || k.modifiers.bits == KeyModifiers::SHIFT_BIT {
                    self.apply_keycode_event(k.code)
                } else {
                    false
                }
            },
            _ => false,
        }
    }
}

/// After any operation that resynchronizes a field, its vertical offset
/// leaves no blank rows after the last line, and on a cursor line at least
/// as wide as the text columns the offset stops at the column just past the
/// line's end.
pub proof fn lemma_field_scroll_clamped(f: InputField, prev: Pos)
    requires
        f.wf(),
        f.resynced_from(prev),
    ensures
        ({
            let n = f.text().len() as int;
            let h = f.spec_area().height as int;
            let w = effective_width(f.spec_area(), n);
            &&& f.spec_scroll().y as int <= if n > h { n - h } else { 0 }
            &&& f.buffer().line_len() >= w ==> f.spec_scroll().x + w <= f.buffer().line_len() + 1
        }),
{
    lemma_fix_scroll_clamped(
        f.spec_area(),
        f.spec_focused(),
        prev,
        f.text().len() as int,
        f.buffer().line_len(),
        f.cursor(),
    );
}

/// Resynchronizing a field that was just resynchronized changes nothing,
/// under the conditions of `lemma_fix_scroll_idempotent`.
pub proof fn lemma_field_resync_stable(f: InputField, prev: Pos)
    requires
        f.wf(),
        f.resynced_from(prev),
        f.spec_focused() ==> f.spec_area().height >= 1,
    ensures
        f.resynced_from(f.spec_scroll()),
{
    lemma_fix_scroll_idempotent(
        f.spec_area(),
        f.spec_focused(),
        prev,
        f.text().len() as int,
        f.buffer().line_len(),
        f.cursor(),
    );
}

} // verus!
