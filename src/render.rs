//! The cell grid that shows an input field: the visible window of the text,
//! the cursor highlight, ellipsis marks and the scrollbar.
use vstd::prelude::*;
use crate::input_field::InputField;
use crate::scroll::NARROW_WIDTH;
use crate::style::{ScrollBarStyle, background_of, bg_of, with_background, with_bg_of};
use crossterm::style::ContentStyle;

verus! {

/// The glyph that marks text cut at an edge of the area.
pub const ELLIPSIS: char = '…';

/// The glyph shown for each character in password mode.
pub const PASSWORD_MASK: char = '*';

/// The role of a cell, which the terminal backend maps to a style.
#[derive(Debug, Clone, Copy, PartialEq, Eq, Structural)]
pub enum CellStyle {
    /// The focused or unfocused text style, whichever the field is in.
    Normal,
    /// The highlighted cell under the cursor.
    Cursor,
    /// The part of the scrollbar that stands for the visible lines.
    Thumb,
    /// The rest of the scrollbar.
    Track,
}

/// One character cell of the terminal.
#[derive(Debug, Clone, Copy, PartialEq, Eq, Structural)]
pub struct Cell {
    pub ch: char,
    pub style: CellStyle,
}

/// The rows `[start, end)` of the scrollbar thumb, counted from the top of an
/// area of `h` rows that shows `n` lines from line `sy` on: as long as the
/// area holds `h` rows of `n` lines, at least one row, and at the bottom when
/// the last line is shown.
pub open spec fn thumb_rows(sy: int, n: int, h: int) -> (int, int) {
    let s = if sy + h > n { n - h } else { sy };
    let len = if h * h / n == 0 { 1 } else { h * h / n };
    let start = if s + h >= n { h - len } else if s * h / n + len > h { h - len } else { s * h / n };
    (start, start + len)
}

/// The scrollbar thumb, as rows `[start, end)` from the top of the area, or
/// `None` when all lines fit and no scrollbar is shown, or the area has no row.
pub fn scrollbar_thumb(scroll_y: usize, line_count: usize, height: u16) -> (r: Option<(u16, u16)>)
    ensures
        line_count <= height || height == 0 ==> r is None,
        line_count > height > 0 ==> r == Some(
            (
                thumb_rows(scroll_y as int, line_count as int, height as int).0 as u16,
                thumb_rows(scroll_y as int, line_count as int, height as int).1 as u16,
            ),
        ),
        line_count > height > 0 ==> 0 <= thumb_rows(scroll_y as int, line_count as int, height as int).0
            < thumb_rows(scroll_y as int, line_count as int, height as int).1 <= height,
{
    let h = height as usize;
    if line_count <= h || h == 0 {
        return None;
    }
    let n = line_count as u128;
    let hh = height as u128;
    let s: u128 = if scroll_y > line_count - h { (line_count - h) as u128 } else { scroll_y as u128 };
    proof {
        let (ni, hi, si) = (n as int, hh as int, s as int);
        assert(hi * hi <= 65535 * 65535) by (nonlinear_arith)
            requires
                0 <= hi <= 65535,
        ;
        assert(si * hi <= ni * hi) by (nonlinear_arith)
            requires
                0 <= si <= ni,
                0 <= hi,
        ;
        assert(ni * hi <= 0x1_0000_0000_0000_0000 * 65535) by (nonlinear_arith)
            requires
                0 <= ni <= 0x1_0000_0000_0000_0000,
                0 <= hi <= 65535,
        ;
        assert(hi * hi / ni <= hi) by (nonlinear_arith)
            requires
                ni > hi,
                hi >= 0,
        ;
        assert(si * hi / ni <= hi) by (nonlinear_arith)
            requires
                0 <= si <= ni,
                ni > 0,
                hi >= 0,
        ;
    }
    let q = hh * hh / n;
    let len: u128 = if q == 0 { 1 } else { q };
    let start: u128 = if s + hh >= n {
        hh - len
    } else if s * hh / n + len > hh {
        hh - len
    } else {
        s * hh / n
    };
    Some((start as u16, (start + len) as u16))
}

impl InputField {
    /// The number of text columns: the area's width, less the scrollbar's
    /// column when there is one.
    pub open spec fn text_width(&self) -> int {
        if self.has_scrollbar() { self.spec_area().width - 1 } else { self.spec_area().width as int }
    }

    /// Whether a scrollbar is drawn: the lines do not fit and there is a
    /// column for it.
    pub open spec fn has_scrollbar(&self) -> bool {
        self.text().len() > self.spec_area().height && self.spec_area().width > 0
    }

    /// The cell in column `i` of the text window on the row that shows line `y`.
    pub open spec fn text_cell(&self, y: int, i: int) -> Cell {
        let w = self.text_width();
        let sx = self.spec_scroll().x as int;
        let p = self.cursor();
        let chars = self.text()[y];
        let ellipsis_at_start = sx > 0 && w > NARROW_WIDTH;
        let cursor_at_end = self.spec_focused() && y == p.y && p.x == chars.len();
        let ellipsis_at_end = !cursor_at_end && chars.len() > sx + w && w > NARROW_WIDTH;
        let idx = i + sx;
        if i == 0 && ellipsis_at_start {
            Cell { ch: ELLIPSIS, style: CellStyle::Normal }
        } else if i == w - 1 && ellipsis_at_end {
            Cell { ch: ELLIPSIS, style: CellStyle::Normal }
        } else if idx >= chars.len() {
            Cell {
                ch: ' ',
                style: if cursor_at_end && idx == chars.len() {
                    CellStyle::Cursor
                } else {
                    CellStyle::Normal
                },
            }
        } else {
            Cell {
                ch: if self.spec_password() { PASSWORD_MASK } else { chars[idx] },
                style: if self.spec_focused() && p.x == idx && p.y == y {
                    CellStyle::Cursor
                } else {
                    CellStyle::Normal
                },
            }
        }
    }

    /// The cell in column `i` of row `j` of the area: text, blank past the
    /// last line, and in the last column the scrollbar when there is one.
    pub open spec fn cell(&self, j: int, i: int, thumb: char, track: char) -> Cell {
        let y = self.spec_scroll().y + j;
        if i == self.text_width() {
            let (start, end) = thumb_rows(
                self.spec_scroll().y as int,
                self.text().len() as int,
                self.spec_area().height as int,
            );
            if start <= j < end {
                Cell { ch: thumb, style: CellStyle::Thumb }
            } else {
                Cell { ch: track, style: CellStyle::Track }
            }
        } else if y >= self.text().len() {
            Cell { ch: ' ', style: CellStyle::Normal }
        } else {
            self.text_cell(y, i)
        }
    }

    /// The scrollbar as drawn: while focused, thumb and track take the
    /// focused style's background when it has one; otherwise `base` as it is.
    pub fn scrollbar_style(&self, base: ScrollBarStyle) -> (r: ScrollBarStyle)
        ensures
            r.thumb.ch == base.thumb.ch,
            r.track.ch == base.track.ch,
            !self.spec_focused() ==> r == base,
            self.spec_focused() ==> match bg_of(self.spec_styles().0) {
                Some(bg) => r.thumb.style == with_bg_of(base.thumb.style, bg) && r.track.style
                    == with_bg_of(base.track.style, bg),
                None => r == base,
            },
    {
        let mut bar = base;
        if self.focused() {
            let focused_style = self.focused_style();
            if let Some(bg) = background_of(&focused_style) {
                bar.thumb.style = with_background(bar.thumb.style, bg);
                bar.track.style = with_background(bar.track.style, bg);
            }
        }
        bar
    }

    /// The style of a cell of this role: the focused or unfocused text style,
    /// the cursor style, or the scrollbar's thumb or track style.
    pub fn cell_style(&self, role: CellStyle, bar: &ScrollBarStyle) -> (r: ContentStyle)
        ensures
            role == CellStyle::Normal && self.spec_focused() ==> r == self.spec_styles().0,
            role == CellStyle::Normal && !self.spec_focused() ==> r == self.spec_styles().1,
            role == CellStyle::Cursor ==> r == self.spec_styles().2,
            role == CellStyle::Thumb ==> r == bar.thumb.style,
            role == CellStyle::Track ==> r == bar.track.style,
    {
        match role {
            CellStyle::Normal => if self.focused() {
                self.focused_style()
            } else {
                self.unfocused_style()
            },
            CellStyle::Cursor => self.cursor_style(),
            CellStyle::Thumb => bar.thumb.style,
            CellStyle::Track => bar.track.style,
        }
    }

    /// The cell in column `i` of the text window on the row that shows line `y`.
    fn text_cell_at(&self, chars: &Vec<char>, y: usize, i: usize, width: usize) -> (r: Cell)
        requires
            self.wf(),
            y < self.text().len(),
            chars@ == self.text()[y as int],
            width == self.text_width(),
            i < width,
        ensures
            r == self.text_cell(y as int, i as int),
    {
        let pos = self.content().cursor_pos();
        let sx = self.scroll().x;
        let focused = self.focused();
        let len = chars.len();
        let ellipsis_at_start = sx > 0 && width > NARROW_WIDTH;
        let cursor_at_end = focused && y == pos.y && pos.x == len;
        let ellipsis_at_end = !cursor_at_end && sx < len && len - sx > width && width
            > NARROW_WIDTH;
        if i == 0 && ellipsis_at_start {
            Cell { ch: ELLIPSIS, style: CellStyle::Normal }
        } else if i == width - 1 && ellipsis_at_end {
            Cell { ch: ELLIPSIS, style: CellStyle::Normal }
        } else if sx >= len || i >= len - sx {
            let at_end = cursor_at_end && sx <= len && i == len - sx;
            Cell { ch: ' ', style: if at_end { CellStyle::Cursor } else { CellStyle::Normal } }
        } else {
            let idx = sx + i;
            Cell {
                ch: if self.password_mode() { PASSWORD_MASK } else { chars[idx] },
                style: if focused && pos.x == idx && pos.y == y {
                    CellStyle::Cursor
                } else {
                    CellStyle::Normal
                },
            }
        }
    }

    /// The cells of the area, row by row: the visible part of the text, the
    /// cursor highlight while focused, an ellipsis where text is cut off at
    /// an edge (not below `NARROW_WIDTH` columns, and never over a cursor
    /// at the end of its line), and the scrollbar, drawn with the `thumb`
    /// and `track` glyphs. Reads the field and changes nothing.
    pub fn render_cells(&self, thumb: char, track: char) -> (r: Vec<Vec<Cell>>)
        requires
            self.wf(),
        ensures
            r@.len() == self.spec_area().height,
            forall|j: int| 0 <= j < r@.len() ==> r@[j]@.len() == self.spec_area().width,
            forall|j: int, i: int|
                0 <= j < r@.len() && 0 <= i < self.spec_area().width ==> r@[j]@[i] == self.cell(
                    j,
                    i,
                    thumb,
                    track,
                ),
    {
        let area = *self.area();
        let content = self.content();
        let lines = content.lines();
        let n = content.line_count();
        let scroll = self.scroll();
        let has_bar = n > area.height as usize && area.width > 0;
        let width: usize = if has_bar { area.width as usize - 1 } else { area.width as usize };
        let bar = scrollbar_thumb(scroll.y, n, area.height);
        proof {
            crate::content::lemma_line_count_fits(self.text());
            assert(lines@.len() == n);
        }
        let mut rows: Vec<Vec<Cell>> = Vec::new();
        let mut j: u16 = 0;
        while j < area.height
            invariant
                self.wf(),
                area == self.spec_area(),
                *content == self.buffer(),
                lines@.map_values(|l: Vec<char>| l@) == self.text(),
                n == self.text().len(),
                lines@.len() == n,
                scroll == self.spec_scroll(),
                has_bar == self.has_scrollbar(),
                width == self.text_width(),
                has_bar && area.height > 0 ==> bar == Some(
                    (
                        thumb_rows(scroll.y as int, n as int, area.height as int).0 as u16,
                        thumb_rows(scroll.y as int, n as int, area.height as int).1 as u16,
                    ),
                ),
                has_bar && area.height > 0 ==> 0 <= thumb_rows(scroll.y as int, n as int, area.height as int).0
                    < thumb_rows(scroll.y as int, n as int, area.height as int).1 <= area.height,
                j <= area.height,
                rows@.len() == j,
                forall|jj: int| 0 <= jj < j ==> rows@[jj]@.len() == area.width,
                forall|jj: int, i: int|
                    0 <= jj < j && 0 <= i < area.width ==> rows@[jj]@[i] == self.cell(
                        jj,
                        i,
                        thumb,
                        track,
                    ),
            decreases area.height - j,
        {
            let mut row: Vec<Cell> = Vec::new();
            let has_line = scroll.y < n && (j as usize) < n - scroll.y;
            if has_line {
                let y = scroll.y + j as usize;
                let chars = &lines[y];
                proof {
                    assert(chars@ == self.text()[y as int]);
                }
                let mut i: usize = 0;
                while i < width
                    invariant
                        self.wf(),
                        width == self.text_width(),
                        chars@ == self.text()[y as int],
                        y < self.text().len(),
                        0 <= i <= width,
                        row@.len() == i,
                        forall|k: int| 0 <= k < i ==> row@[k] == self.text_cell(y as int, k),
                    decreases width - i,
                {
                    let cell = self.text_cell_at(chars, y, i, width);
                    row.push(cell);
                    i = i + 1;
                }
            } else {
                let mut i: usize = 0;
                while i < width
                    invariant
                        0 <= i <= width,
                        row@.len() == i,
                        forall|k: int| 0 <= k < i ==> row@[k] == (Cell { ch: ' ', style: CellStyle::Normal }),
                    decreases width - i,
                {
                    row.push(Cell { ch: ' ', style: CellStyle::Normal });
                    i = i + 1;
                }
            }
            if has_bar {
                let (start, end) = bar.unwrap();
                let in_thumb = start <= j && j < end;
                row.push(
                    if in_thumb {
                        Cell { ch: thumb, style: CellStyle::Thumb }
                    } else {
                        Cell { ch: track, style: CellStyle::Track }
                    },
                );
            }
            proof {
                assert forall|i: int| 0 <= i < area.width implies row@[i] == self.cell(
                    j as int,
                    i,
                    thumb,
                    track,
                ) by {}
            }
            rows.push(row);
            j = j + 1;
        }
        rows
    }
}

} // verus!
