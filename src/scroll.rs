//! The scroll synchronizer: the scroll offset that keeps the cursor in view.
use vstd::prelude::*;
use crate::geometry::{Area, Pos};

verus! {

/// Below this usable width no ellipsis is drawn, and the horizontal margin
/// around the cursor shrinks from two cells to one.
pub const NARROW_WIDTH: usize = 4;

/// Whether the buffer needs a vertical scrollbar in an area of this height.
pub open spec fn has_y_scroll(height: int, line_count: int) -> bool {
    line_count > height
}

/// The number of text columns: one column goes to the scrollbar when there is one.
pub open spec fn effective_width(area: Area, line_count: int) -> int {
    if has_y_scroll(area.height as int, line_count) && area.width > 0 {
        area.width - 1
    } else {
        area.width as int
    }
}

/// The vertical offset clamped so that no blank rows follow the last line.
pub open spec fn clamped_y(height: int, sy: int, n: int) -> int {
    if sy + height > n { n - height } else { sy }
}

/// The vertical scroll offset after synchronization. While focused, a
/// cursor above the window puts its line at the top, with one line of context
/// above it in areas over four rows high; a cursor below the window puts its
/// line at the bottom, or one row higher when a next line exists and the
/// area has room to show it under the cursor.
pub open spec fn synced_y(height: int, focused: bool, sy: int, n: int, cy: int) -> int {
    if has_y_scroll(height, n) {
        let s1 = clamped_y(height, sy, n);
        if !focused {
            s1
        } else if s1 > cy {
            if cy > 0 && height > 4 { cy - 1 } else { cy }
        } else if cy >= s1 + height {
            if cy + 1 < n && height > 1 { cy - height + 2 } else { cy - height + 1 }
        } else {
            s1
        }
    } else {
        0
    }
}

/// The horizontal scroll offset, before the final clamp, while focused:
/// it moves only when the cursor leaves the margin band. A single column has
/// no room for a margin and shows the cursor's column.
pub open spec fn banded_x(w: int, sx: int, px: int) -> int {
    if w <= 1 {
        px
    } else if w < NARROW_WIDTH {
        if px < 2 {
            0
        } else if px < sx + 1 {
            px - 1
        } else if px >= sx + w {
            px + 1 - w
        } else {
            sx
        }
    } else if px < sx + 2 {
        if px < 2 { 0 } else { px - 2 }
    } else if px > sx + w - 2 {
        px + 2 - w
    } else {
        sx
    }
}

/// The horizontal scroll offset after synchronization.
pub open spec fn synced_x(w: int, focused: bool, sx: int, len: int, px: int) -> int {
    if len < w {
        0
    } else {
        let s1 = if focused { banded_x(w, sx, px) } else { sx };
        if s1 + w > len + 1 { len + 1 - w } else { s1 }
    }
}

/// The scroll offset that `fix_scroll` returns.
pub open spec fn synced_scroll(
    area: Area,
    focused: bool,
    scroll: Pos,
    line_count: int,
    line_len: int,
    cursor: Pos,
) -> Pos {
    Pos {
        x: synced_x(
            effective_width(area, line_count),
            focused,
            scroll.x as int,
            line_len,
            cursor.x as int,
        ) as usize,
        y: synced_y(area.height as int, focused, scroll.y as int, line_count, cursor.y as int) as usize,
    }
}

/// A cursor that designates a line of the buffer and a column of that line,
/// or the column just past its end.
pub open spec fn valid_cursor(line_count: int, line_len: int, cursor: Pos) -> bool {
    &&& cursor.y < line_count
    &&& cursor.x <= line_len
}

/// Recomputes the scroll offset of a viewport from its area, its focus, the
/// current offset, the number of lines of the buffer, the length of the
/// cursor's line and the cursor.
///
/// Vertically the offset is clamped so that no blank rows follow the last
/// line, and while focused it follows the cursor line. Horizontally it is
/// zero for a line narrower than the area; otherwise, while focused, it moves
/// only when the cursor leaves a margin band, and it is clamped so that the
/// position just past the line's end stays representable.
pub fn fix_scroll(
    area: &Area,
    focused: bool,
    scroll: Pos,
    line_count: usize,
    line_len: usize,
    cursor: Pos,
) -> (r: Pos)
    requires
        valid_cursor(line_count as int, line_len as int, cursor),
        line_len < usize::MAX,
    ensures
        r == synced_scroll(*area, focused, scroll, line_count as int, line_len as int, cursor),
        r.x as int == synced_x(
            effective_width(*area, line_count as int),
            focused,
            scroll.x as int,
            line_len as int,
            cursor.x as int,
        ),
        r.y as int == synced_y(
            area.height as int,
            focused,
            scroll.y as int,
            line_count as int,
            cursor.y as int,
        ),
{
    let height = area.height as usize;
    let has_y = line_count > height;
    let width: usize = if has_y && area.width > 0 {
        area.width as usize - 1
    } else {
        area.width as usize
    };
    let px = cursor.x;
    let cy = cursor.y;

    let mut sy = scroll.y;
    if has_y {
        if sy > line_count - height {
            sy = line_count - height;
        }
        if focused {
            // the cursor line must be visible
            if sy > cy {
                sy = cy;
                if sy > 0 && height > 4 {
                    sy = sy - 1;
                }
            } else if cy - sy >= height {
                sy = cy - height + 1;
                // show the next line under the cursor when there is one and room for it
                if cy + 1 < line_count && height > 1 {
                    sy = sy + 1;
                }
            }
        }
    } else {
        sy = 0;
    }

    let mut sx = scroll.x;
    if line_len < width {
        sx = 0;
    } else {
        if focused {
            if width <= 1 {
                sx = px;
            } else if width < NARROW_WIDTH {
                // no ellipsis is drawn at this width, so a smaller margin is enough
                if px < 2 {
                    sx = 0;
                } else if px <= sx {
                    sx = px - 1;
                } else if px - sx >= width {
                    sx = px + 1 - width;
                }
            } else if px < 2 || px - 2 < sx {
                if px < 2 {
                    sx = 0;
                } else {
                    sx = px - 2;
                }
            } else if px - sx > width - 2 {
                sx = px - (width - 2);
            }
        }
        if sx > line_len + 1 - width {
            sx = line_len + 1 - width;
        }
    }
    Pos { x: sx, y: sy }
}

/// Synchronizing twice gives the offset that synchronizing once gave.
///
/// This holds for every unfocused viewport, and for a focused one at least
/// one row high: with no row, a cursor on the last line sends the offset back
/// and forth between two values.
pub proof fn lemma_fix_scroll_idempotent(
    area: Area,
    focused: bool,
    scroll: Pos,
    line_count: int,
    line_len: int,
    cursor: Pos,
)
    requires
        valid_cursor(line_count, line_len, cursor),
        focused ==> area.height >= 1,
    ensures
        synced_scroll(
            area,
            focused,
            synced_scroll(area, focused, scroll, line_count, line_len, cursor),
            line_count,
            line_len,
            cursor,
        ) == synced_scroll(area, focused, scroll, line_count, line_len, cursor),
{
}

/// While focused, in an area with at least one row and one text column, the
/// cursor cell is inside the window that the synchronized offset shows.
pub proof fn lemma_fix_scroll_shows_cursor(
    area: Area,
    scroll: Pos,
    line_count: int,
    line_len: int,
    cursor: Pos,
)
    requires
        valid_cursor(line_count, line_len, cursor),
        area.height >= 1,
        effective_width(area, line_count) >= 1,
    ensures
        ({
            let r = synced_scroll(area, true, scroll, line_count, line_len, cursor);
            &&& r.y <= cursor.y < r.y + area.height
            &&& r.x <= cursor.x < r.x + effective_width(area, line_count)
        }),
{
}

/// The vertical offset never leaves blank rows after the last line, and a
/// cursor line at least as wide as the text columns is never scrolled past
/// the column just after its end.
pub proof fn lemma_fix_scroll_clamped(
    area: Area,
    focused: bool,
    scroll: Pos,
    line_count: int,
    line_len: int,
    cursor: Pos,
)
    requires
        valid_cursor(line_count, line_len, cursor),
    ensures
        ({
            let r = synced_scroll(area, focused, scroll, line_count, line_len, cursor);
            let w = effective_width(area, line_count);
            &&& r.y as int <= if line_count > area.height { line_count - area.height } else { 0 }
            &&& line_count <= area.height ==> r.y == 0
            &&& line_len >= w ==> r.x + w <= line_len + 1
            &&& line_len < w ==> r.x == 0
        }),
{
}

} // verus!
