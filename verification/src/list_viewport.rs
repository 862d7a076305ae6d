//! The list's own viewport: where its scroll window sits relative to the cursor, and where a
//! half-page press moves the cursor to.

use vstd::prelude::*;

use crate::action::Action;
use crate::paint::{at_most, less};

verus! {

/// The window's first row once it has followed the cursor: moved up to a cursor above it, down
/// just enough for a cursor past its far edge, held otherwise; never past the table's own last
/// window, and never past the cursor.
pub open spec fn followed(offset: int, cursor: int, viewport_rows: int, row_count: int) -> int {
    if viewport_rows == 0 || row_count == 0 {
        0
    } else {
        let moved = if cursor < offset {
            cursor
        } else if cursor >= offset + viewport_rows {
            cursor + 1 - viewport_rows
        } else {
            offset
        };
        at_most(at_most(moved, less(row_count, viewport_rows)), cursor)
    }
}

/// The smallest change to `offset` that puts `cursor` inside a `viewport_rows`-tall window,
/// clamped so the result can never scroll the table past its own end, and never past `cursor`
/// itself. A viewport or a table without rows gives `0`.
pub fn offset_following_cursor(
    offset: usize,
    cursor: usize,
    viewport_rows: usize,
    row_count: usize,
) -> (next: usize)
    ensures
        next == followed(offset as int, cursor as int, viewport_rows as int, row_count as int),
{
    if viewport_rows == 0 || row_count == 0 {
        return 0;
    }
    let last_offset: usize = row_count.saturating_sub(viewport_rows);
    let mut next: usize = offset;
    if cursor < next {
        next = cursor;
    } else if cursor - next >= viewport_rows {
        next = cursor - (viewport_rows - 1);
    }
    if next > last_offset {
        next = last_offset;
    }
    if next > cursor {
        next = cursor;
    }
    next
}

/// Where a half-page press takes the cursor: half the window, at least one row, kept inside the
/// table.
pub open spec fn half_paged(cursor: int, action: Action, viewport_rows: int, row_count: int) -> int {
    let half = if viewport_rows / 2 < 1 {
        1
    } else {
        viewport_rows / 2
    };
    if row_count == 0 {
        cursor
    } else {
        match action {
            Action::HalfPageDown => at_most(cursor + half, row_count - 1),
            Action::HalfPageUp => less(cursor, half),
            _ => cursor,
        }
    }
}

/// `cursor`'s next value after `action` moves it half a page. Any other action, and an empty
/// table, leave `cursor` untouched.
pub fn half_page_cursor(cursor: usize, action: Action, viewport_rows: usize, row_count: usize) -> (
next: usize)
    ensures
        next == half_paged(cursor as int, action, viewport_rows as int, row_count as int),
{
    if row_count == 0 {
        return cursor;
    }
    let last: usize = row_count - 1;
    let half: usize = if viewport_rows / 2 < 1 {
        1
    } else {
        viewport_rows / 2
    };
    match action {
        Action::HalfPageDown => if cursor >= last || last - cursor < half {
            last
        } else {
            cursor + half
        },
        Action::HalfPageUp => cursor.saturating_sub(half),
        _ => cursor,
    }
}

/// A cursor inside the table is inside the window that follows it.
pub proof fn law_the_window_holds_the_cursor(
    offset: int,
    cursor: int,
    viewport_rows: int,
    row_count: int,
)
    requires
        0 <= offset,
        0 < viewport_rows,
        0 <= cursor < row_count,
    ensures
        ({
            let next = followed(offset, cursor, viewport_rows, row_count);
            0 <= next <= cursor < next + viewport_rows
        }),
{
}

/// The window never starts past the last one that shows only real rows, whatever the cursor and
/// the window before it.
pub proof fn law_the_window_stays_on_the_table(
    offset: int,
    cursor: int,
    viewport_rows: int,
    row_count: int,
)
    requires
        0 <= offset,
        0 <= cursor,
        0 <= viewport_rows,
        0 <= row_count,
    ensures
        0 <= followed(offset, cursor, viewport_rows, row_count) <= less(row_count, viewport_rows),
{
}

/// The window holds still while the cursor moves inside it.
pub proof fn law_the_window_holds_still(
    offset: int,
    cursor: int,
    viewport_rows: int,
    row_count: int,
)
    requires
        0 < viewport_rows,
        0 <= offset <= less(row_count, viewport_rows),
        offset <= cursor < offset + viewport_rows,
        cursor < row_count,
    ensures
        followed(offset, cursor, viewport_rows, row_count) == offset,
{
}

/// The window moves by as little as it can, wherever it stood, past the end of a table that shrank
/// under it too: no window on the table that holds the cursor is nearer to where it stood.
pub proof fn law_the_window_moves_as_little_as_it_can(
    offset: int,
    cursor: int,
    viewport_rows: int,
    row_count: int,
    other: int,
)
    requires
        0 < viewport_rows,
        0 <= offset,
        0 <= cursor < row_count,
        0 <= other <= cursor < other + viewport_rows,
        other <= less(row_count, viewport_rows),
    ensures
        ({
            let next = followed(offset, cursor, viewport_rows, row_count);
            (next - offset) * (next - offset) <= (other - offset) * (other - offset)
        }),
{
    let next = followed(offset, cursor, viewport_rows, row_count);
    let near = if next < offset {
        offset - next
    } else {
        next - offset
    };
    let far = if other < offset {
        offset - other
    } else {
        other - offset
    };
    assert(near <= far);
    assert((next - offset) * (next - offset) == near * near) by (nonlinear_arith)
        requires
            near == next - offset || near == offset - next,
    ;
    assert((other - offset) * (other - offset) == far * far) by (nonlinear_arith)
        requires
            far == other - offset || far == offset - other,
    ;
    assert(near * near <= far * far) by (nonlinear_arith)
        requires
            0 <= near <= far,
    ;
}

/// A half-page press keeps a cursor that is on the table on it, and moves it unless it already
/// stands on the row it would move towards.
pub proof fn law_a_half_page_stays_on_the_table(
    cursor: int,
    action: Action,
    viewport_rows: int,
    row_count: int,
)
    requires
        0 <= viewport_rows,
        0 <= cursor < row_count,
    ensures
        0 <= half_paged(cursor, action, viewport_rows, row_count) < row_count,
        action == Action::HalfPageDown && cursor < row_count - 1 ==> half_paged(
            cursor,
            action,
            viewport_rows,
            row_count,
        ) > cursor,
        action == Action::HalfPageUp && cursor > 0 ==> half_paged(
            cursor,
            action,
            viewport_rows,
            row_count,
        ) < cursor,
{
}

/// A half page is half the window's rows, rounded down, and one row where that is none: a press
/// moves the cursor by that many, or to the first or last row where fewer are left. Nothing else
/// moves it, and nothing moves it where there are no rows.
pub proof fn law_how_far_a_half_page_goes(
    cursor: int,
    action: Action,
    viewport_rows: int,
    row_count: int,
    half: int,
)
    requires
        0 <= viewport_rows,
        0 <= cursor,
        0 <= row_count,
        viewport_rows < 2 ==> half == 1,
        viewport_rows >= 2 ==> half + half == viewport_rows || half + half + 1 == viewport_rows,
    ensures
        ({
            let next = half_paged(cursor, action, viewport_rows, row_count);
            &&& row_count == 0 ==> next == cursor
            &&& row_count > 0 && action == Action::HalfPageDown && cursor + half < row_count
                ==> next == cursor + half
            &&& row_count > 0 && action == Action::HalfPageDown && cursor + half >= row_count
                ==> next == row_count - 1
            &&& row_count > 0 && action == Action::HalfPageUp && half <= cursor ==> next == cursor
                - half
            &&& row_count > 0 && action == Action::HalfPageUp && half > cursor ==> next == 0
            &&& action != Action::HalfPageDown && action != Action::HalfPageUp ==> next == cursor
        }),
{
}

} // verus!
