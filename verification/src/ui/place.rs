//! Where a menu's window and cursor stand over a list, and how scrolling,
//! resizing and repainting move them.

use vstd::prelude::*;

verus! {

/// The row that stands for "no entry is selected".
pub const NO_SELECTION: i32 = -1;

/// The window and cursor of a menu: the first row used for the list, the
/// position in the list of the entry on that row, and the row of the cursor.
pub ghost struct Place {
    pub start_row: int,
    pub top_row: int,
    pub selected: int,
}

/// The number of entries that a menu can reach: its rows are counted in
/// `i32`.
pub open spec fn reach(len: int) -> int {
    if len > i32::MAX {
        i32::MAX as int
    } else {
        len
    }
}

/// `x`, moved into `lo..=hi` where it lies outside.
pub open spec fn clamp(x: int, lo: int, hi: int) -> int
    recommends
        lo <= hi,
{
    if x < lo {
        lo
    } else if x > hi {
        hi
    } else {
        x
    }
}

/// The position in the list of the entry under the cursor.
pub open spec fn index_at(p: Place) -> int {
    p.top_row + p.selected - p.start_row
}

/// The last row that the cursor can be on in a window of `n_row` rows: the
/// last row of the window, or the first row of the list where the window
/// ends above it. A window without a row for the list is treated as if it
/// had that one row.
pub open spec fn last_row(start_row: int, n_row: int) -> int {
    if n_row - 1 > start_row {
        n_row - 1
    } else {
        start_row
    }
}

/// The number of rows that the list has in a window of `n_row` rows, the one
/// row counted that a window without room is treated as having.
pub open spec fn capacity(start_row: int, n_row: int) -> int {
    last_row(start_row, n_row) - start_row + 1
}

/// The largest `top_row` that leaves no row of the window empty while the
/// list has entries for it: the window has `cap` rows for the list.
pub open spec fn max_top(len: int, cap: int) -> int {
    if len > cap {
        len - cap
    } else {
        0
    }
}

/// The cursor is on an entry of the list.
pub open spec fn on_entry(p: Place, len: int) -> bool {
    &&& 0 <= p.start_row
    &&& 0 <= p.top_row
    &&& 0 <= index_at(p) < len
}

/// The cursor is on a row that the list uses, and on an entry of the list.
pub open spec fn anchored(p: Place, len: int, n_row: int) -> bool {
    &&& on_entry(p, len)
    &&& p.start_row <= p.selected <= last_row(p.start_row, n_row)
}

/// Anchored, and the window is not scrolled further than the list needs.
pub open spec fn valid(p: Place, len: int, n_row: int) -> bool {
    &&& anchored(p, len, n_row)
    &&& p.top_row <= max_top(len, capacity(p.start_row, n_row))
}

/// The place that a repaint settles on.
///
/// * Over an empty list no entry is selected, and the window is at the
///   start.
/// * Otherwise the cursor stays on its entry, or moves to the nearest entry
///   if it is on none: the last one if the list has become shorter. The
///   window is scrolled back as far as the list allows, and then just far
///   enough to hold the cursor, which is never above the first row of the
///   list.
pub open spec fn settle(p: Place, len: int, n_row: int) -> Place {
    if len <= 0 {
        Place { start_row: p.start_row, top_row: 0, selected: NO_SELECTION as int }
    } else {
        let cap = capacity(p.start_row, n_row);
        let entry = clamp(index_at(p), 0, len - 1);
        let top = clamp(p.top_row, 0, max_top(len, cap));
        let top = if entry < top {
            entry
        } else if entry > top + cap - 1 {
            entry - (cap - 1)
        } else {
            top
        };
        Place { start_row: p.start_row, top_row: top, selected: p.start_row + entry - top }
    }
}

/// One step down: the cursor moves to the next entry, and the window with
/// it where the cursor is on the last row. On the last entry nothing moves.
pub open spec fn step_down(p: Place, len: int, n_row: int) -> Place {
    if index_at(p) + 1 >= len {
        p
    } else if p.selected < last_row(p.start_row, n_row) {
        Place { selected: p.selected + 1, ..p }
    } else {
        Place { top_row: p.top_row + 1, ..p }
    }
}

/// One step up: the cursor moves to the entry before, and the window with
/// it where the cursor is on the first row. On the first entry nothing
/// moves.
pub open spec fn step_up(p: Place) -> Place {
    if p.selected > p.start_row {
        Place { selected: p.selected - 1, ..p }
    } else if p.top_row > 0 {
        Place { top_row: p.top_row - 1, ..p }
    } else {
        p
    }
}

/// One step in the direction of `lines`: down for a positive number, up for
/// a negative one.
pub open spec fn step(p: Place, len: int, n_row: int, lines: int) -> Place {
    if lines > 0 {
        step_down(p, len, n_row)
    } else if lines < 0 {
        step_up(p)
    } else {
        p
    }
}

/// What a scroll in the direction of `lines` makes of a place: nothing over
/// an empty list; one step from a cursor that is on a row of the list and on
/// an entry; and one step from where a repaint settles otherwise.
pub open spec fn scroll_once(p: Place, len: int, n_row: int, lines: int) -> Place {
    if len <= 0 {
        p
    } else if anchored(p, len, n_row) {
        step(p, len, n_row, lines)
    } else {
        step(settle(p, len, n_row), len, n_row, lines)
    }
}

/// The place after the window has been given `rows` rows: a cursor that
/// would fall below the window moves to its last row, and the window
/// scrolls by as much, so that the cursor stays on its entry.
pub open spec fn resized(p: Place, rows: int) -> Place {
    if p.selected > rows - 1 {
        Place {
            start_row: p.start_row,
            top_row: clamp(p.top_row + p.selected - (rows - 1), i32::MIN as int, i32::MAX as int),
            selected: rows - 1,
        }
    } else {
        p
    }
}

/// `steps` scrolls in the direction of `lines`.
pub open spec fn scrolled(p: Place, len: int, n_row: int, lines: int, steps: nat) -> Place
    decreases steps,
{
    if steps == 0 {
        p
    } else {
        scroll_once(scrolled(p, len, n_row, lines, (steps - 1) as nat), len, n_row, lines)
    }
}

/// A repaint of a list with entries leaves a valid place, in every window:
/// the cursor is on a row of the list and on an entry. The entry is the one
/// that the cursor was on, or the nearest one.
pub proof fn lemma_settle_valid(p: Place, len: int, n_row: int)
    requires
        len > 0,
        0 <= p.start_row,
    ensures
        valid(settle(p, len, n_row), len, n_row),
        p.start_row <= settle(p, len, n_row).selected,
        0 <= index_at(settle(p, len, n_row)) < len,
        index_at(settle(p, len, n_row)) == clamp(index_at(p), 0, len - 1),
        index_at(p) >= len ==> index_at(settle(p, len, n_row)) == len - 1,
{
}

/// Only over an empty list does a repaint select no entry.
pub proof fn lemma_no_selection_only_without_entries(p: Place, len: int, n_row: int)
    requires
        0 <= p.start_row,
    ensures
        settle(p, len, n_row).selected == NO_SELECTION <==> len <= 0,
{
}

/// A repaint does not move a valid place.
pub proof fn lemma_settle_fixed(p: Place, len: int, n_row: int)
    requires
        valid(p, len, n_row),
    ensures
        settle(p, len, n_row) == p,
{
}

/// A step keeps the cursor on an entry, and moves it by one entry unless it
/// is on the last or first entry already.
pub proof fn lemma_step(p: Place, len: int, n_row: int, lines: int)
    requires
        anchored(p, len, n_row),
    ensures
        anchored(step(p, len, n_row, lines), len, n_row),
        valid(p, len, n_row) ==> valid(step(p, len, n_row, lines), len, n_row),
        lines > 0 ==> index_at(step(p, len, n_row, lines)) == clamp(index_at(p) + 1, 0, len - 1),
        lines < 0 ==> index_at(step(p, len, n_row, lines)) == clamp(index_at(p) - 1, 0, len - 1),
        step(p, len, n_row, lines).start_row == p.start_row,
{
}

/// A scroll over a list with entries leaves the cursor on a row of the list
/// and on an entry, wherever it was and whatever the window.
pub proof fn lemma_scroll_once(p: Place, len: int, n_row: int, lines: int)
    requires
        len > 0,
        0 <= p.start_row,
    ensures
        anchored(scroll_once(p, len, n_row, lines), len, n_row),
        scroll_once(p, len, n_row, lines).start_row == p.start_row,
        !anchored(p, len, n_row) || valid(p, len, n_row) ==> valid(
            scroll_once(p, len, n_row, lines),
            len,
            n_row,
        ),
        on_entry(p, len) && lines > 0 ==> index_at(scroll_once(p, len, n_row, lines)) == clamp(
            index_at(p) + 1,
            0,
            len - 1,
        ),
        on_entry(p, len) && lines < 0 ==> index_at(scroll_once(p, len, n_row, lines)) == clamp(
            index_at(p) - 1,
            0,
            len - 1,
        ),
{
    if anchored(p, len, n_row) {
        lemma_step(p, len, n_row, lines);
    } else {
        lemma_settle_valid(p, len, n_row);
        lemma_step(settle(p, len, n_row), len, n_row, lines);
    }
}

/// Any number of scrolls, at least one, leaves the cursor on a row of the
/// list and on an entry; from a cursor on an entry they move it by so many
/// entries as far as the list reaches.
pub proof fn lemma_scrolled(p: Place, len: int, n_row: int, lines: int, steps: nat)
    requires
        len > 0,
        0 <= p.start_row,
    ensures
        scrolled(p, len, n_row, lines, steps).start_row == p.start_row,
        steps > 0 ==> anchored(scrolled(p, len, n_row, lines, steps), len, n_row),
        steps > 0 && (!anchored(p, len, n_row) || valid(p, len, n_row)) ==> valid(
            scrolled(p, len, n_row, lines, steps),
            len,
            n_row,
        ),
        on_entry(p, len) ==> on_entry(scrolled(p, len, n_row, lines, steps), len),
        on_entry(p, len) && lines > 0 ==> index_at(scrolled(p, len, n_row, lines, steps)) == clamp(
            index_at(p) + steps,
            0,
            len - 1,
        ),
        on_entry(p, len) && lines < 0 ==> index_at(scrolled(p, len, n_row, lines, steps)) == clamp(
            index_at(p) - steps,
            0,
            len - 1,
        ),
    decreases steps,
{
    if steps > 0 {
        let before = scrolled(p, len, n_row, lines, (steps - 1) as nat);
        lemma_scrolled(p, len, n_row, lines, (steps - 1) as nat);
        lemma_scroll_once(before, len, n_row, lines);
        if steps > 1 {
            lemma_step(before, len, n_row, lines);
        }
    }
}

/// Scrolling down often enough leaves the cursor on the last entry, and
/// there it stays. If the window was not scrolled further than the list
/// needs, the cursor is then on the last row that it can be on and the
/// window shows the end of the list, where the list is longer than the
/// window has rows for it.
pub proof fn lemma_scroll_down_stabilizes(p: Place, len: int, n_row: int, steps: nat)
    requires
        on_entry(p, len),
        steps > 0,
        steps >= len - 1 - index_at(p),
    ensures
        index_at(scrolled(p, len, n_row, 1, steps)) == len - 1,
        scrolled(p, len, n_row, 1, steps + 1) == scrolled(p, len, n_row, 1, steps),
        (!anchored(p, len, n_row) || valid(p, len, n_row)) && len > capacity(p.start_row, n_row)
            ==> scrolled(p, len, n_row, 1, steps).selected == last_row(p.start_row, n_row)
            && scrolled(p, len, n_row, 1, steps).top_row == len - capacity(p.start_row, n_row),
{
    lemma_scrolled(p, len, n_row, 1, steps);
    lemma_scroll_once(scrolled(p, len, n_row, 1, steps), len, n_row, 1);
}

/// Scrolling up often enough leaves the window at the start of the list
/// and the cursor on the first row of the list, and there they stay, in
/// every window.
pub proof fn lemma_scroll_up_stabilizes(p: Place, len: int, n_row: int, steps: nat)
    requires
        on_entry(p, len),
        steps > 0,
        steps >= index_at(p),
    ensures
        scrolled(p, len, n_row, -1, steps).top_row == 0,
        scrolled(p, len, n_row, -1, steps).selected == p.start_row,
        scrolled(p, len, n_row, -1, steps + 1) == scrolled(p, len, n_row, -1, steps),
{
    lemma_scrolled(p, len, n_row, -1, steps);
    lemma_scroll_once(scrolled(p, len, n_row, -1, steps), len, n_row, -1);
}

/// A resize keeps the cursor on its entry, in every window, as long as the
/// new `top_row` can be counted in `i32`. A cursor that was below the new
/// window is then on its last row.
pub proof fn lemma_resize_keeps_entry(p: Place, len: int, rows: int)
    requires
        on_entry(p, len),
        0 <= rows,
        len + p.start_row <= i32::MAX,
    ensures
        on_entry(resized(p, rows), len),
        index_at(resized(p, rows)) == index_at(p),
        resized(p, rows).start_row == p.start_row,
        p.selected > rows - 1 ==> resized(p, rows).selected == rows - 1,
        p.selected <= rows - 1 ==> resized(p, rows) == p,
        p.start_row <= p.selected && p.start_row < rows ==> anchored(resized(p, rows), len, rows),
{
}

/// What moves a place: a scroll down, a scroll up, or a resize to so many
/// rows.
pub enum MenuMove {
    Down,
    Up,
    Resize(i32),
}

/// The window's rows after each of `moves`, starting from `n_row`.
pub open spec fn rows_after(n_row: int, moves: Seq<MenuMove>) -> int
    decreases moves.len(),
{
    if moves.len() == 0 {
        n_row
    } else {
        match moves.last() {
            MenuMove::Resize(rows) => rows as int,
            _ => rows_after(n_row, moves.drop_last()),
        }
    }
}

/// The place after each of `moves`, starting from `p` in a window of
/// `n_row` rows.
pub open spec fn place_after(p: Place, len: int, n_row: int, moves: Seq<MenuMove>) -> Place
    decreases moves.len(),
{
    if moves.len() == 0 {
        p
    } else {
        let before = place_after(p, len, n_row, moves.drop_last());
        let rows = rows_after(n_row, moves.drop_last());
        match moves.last() {
            MenuMove::Down => scroll_once(before, len, rows, 1),
            MenuMove::Up => scroll_once(before, len, rows, -1),
            MenuMove::Resize(new_rows) => resized(before, new_rows as int),
        }
    }
}

/// Whether every resize among `moves` is one to a number of rows: none is
/// negative.
pub open spec fn sized(moves: Seq<MenuMove>) -> bool {
    forall|i: int|
        0 <= i < moves.len() ==> match #[trigger] moves[i] {
            MenuMove::Resize(rows) => 0 <= rows,
            _ => true,
        }
}

/// After any sequence of scrolls and resizes the cursor is on an entry of
/// the list, whatever the windows, as long as positions can be counted in
/// `i32`.
pub proof fn lemma_moves_keep_index(p: Place, len: int, n_row: int, moves: Seq<MenuMove>)
    requires
        on_entry(p, len),
        len + p.start_row <= i32::MAX,
        sized(moves),
    ensures
        on_entry(place_after(p, len, n_row, moves), len),
        place_after(p, len, n_row, moves).start_row == p.start_row,
        0 <= index_at(place_after(p, len, n_row, moves)) < len,
    decreases moves.len(),
{
    if moves.len() > 0 {
        let init = moves.drop_last();
        assert(sized(init)) by {
            assert forall|i: int| 0 <= i < init.len() implies match #[trigger] init[i] {
                MenuMove::Resize(rows) => 0 <= rows,
                _ => true,
            } by {
                assert(init[i] == moves[i]);
            }
        }
        lemma_moves_keep_index(p, len, n_row, init);
        let before = place_after(p, len, n_row, init);
        let rows = rows_after(n_row, init);
        assert(moves.last() == moves[moves.len() - 1]);
        match moves.last() {
            MenuMove::Down => {
                lemma_scroll_once(before, len, rows, 1);
            },
            MenuMove::Up => {
                lemma_scroll_once(before, len, rows, -1);
            },
            MenuMove::Resize(new_rows) => {
                lemma_resize_keeps_entry(before, len, new_rows as int);
            },
        }
    }
}

/// The place that three fields of a menu describe.
pub open spec fn place_of(start_row: i32, top_row: i32, selected: i32) -> Place {
    Place { start_row: start_row as int, top_row: top_row as int, selected: selected as int }
}

/// The number of entries that a menu can reach.
pub fn reach_of(len: usize) -> (r: i64)
    ensures
        r == reach(len as int),
{
    if len > 2147483647 {
        2147483647
    } else {
        len as i64
    }
}

/// Whether the cursor is on a row that the list uses and on an entry of a
/// list of `len` entries.
pub fn is_anchored(start_row: i32, top_row: i32, selected: i32, len: usize, n_row: i32) -> (r: bool)
    ensures
        r == anchored(
            place_of(start_row, top_row, selected),
            reach(len as int),
            n_row as int,
        ),
{
    let n: i64 = reach_of(len);
    let entry: i64 = top_row as i64 + selected as i64 - start_row as i64;
    let last: i64 = if n_row as i64 - 1 > start_row as i64 {
        n_row as i64 - 1
    } else {
        start_row as i64
    };
    0 <= start_row && start_row <= selected && selected as i64 <= last && 0 <= top_row && 0 <= entry
        && entry < n
}

/// Where a repaint leaves window and cursor: the new `top_row` and
/// `selected`.
pub fn settled(start_row: i32, top_row: i32, selected: i32, len: usize, n_row: i32) -> (r: (
    i32,
    i32,
))
    ensures
        place_of(start_row, r.0, r.1) == settle(
            place_of(start_row, top_row, selected),
            reach(len as int),
            n_row as int,
        ),
{
    let n: i64 = reach_of(len);
    if n <= 0 {
        return (0, NO_SELECTION);
    }
    let start: i64 = start_row as i64;
    let last: i64 = if n_row as i64 - 1 > start {
        n_row as i64 - 1
    } else {
        start
    };
    let cap: i64 = last - start + 1;
    let wanted: i64 = top_row as i64 + selected as i64 - start;
    let entry: i64 = if wanted < 0 {
        0
    } else if wanted > n - 1 {
        n - 1
    } else {
        wanted
    };
    let limit: i64 = if n > cap {
        n - cap
    } else {
        0
    };
    let top: i64 = if top_row < 0 {
        0
    } else if top_row as i64 > limit {
        limit
    } else {
        top_row as i64
    };
    let top: i64 = if entry < top {
        entry
    } else if entry > top + cap - 1 {
        entry - (cap - 1)
    } else {
        top
    };
    (top as i32, (start + entry - top) as i32)
}

/// Where one step in the direction of `lines` leaves window and cursor:
/// the new `top_row` and `selected`.
pub fn stepped(
    start_row: i32,
    top_row: i32,
    selected: i32,
    len: usize,
    n_row: i32,
    lines: i32,
) -> (r: (i32, i32))
    requires
        anchored(
            place_of(start_row, top_row, selected),
            reach(len as int),
            n_row as int,
        ),
    ensures
        place_of(start_row, r.0, r.1) == step(
            place_of(start_row, top_row, selected),
            reach(len as int),
            n_row as int,
            lines as int,
        ),
{
    let n: i64 = reach_of(len);
    let entry: i64 = top_row as i64 + selected as i64 - start_row as i64;
    let last: i32 = if n_row as i64 - 1 > start_row as i64 {
        n_row - 1
    } else {
        start_row
    };
    if lines > 0 {
        if entry + 1 >= n {
            (top_row, selected)
        } else if selected < last {
            (top_row, selected + 1)
        } else {
            (top_row + 1, selected)
        }
    } else if lines < 0 {
        if selected > start_row {
            (top_row, selected - 1)
        } else if top_row > 0 {
            (top_row - 1, selected)
        } else {
            (top_row, selected)
        }
    } else {
        (top_row, selected)
    }
}

/// Where a resize to `rows` rows leaves window and cursor: the new
/// `top_row` and `selected`.
pub fn resized_to(start_row: i32, top_row: i32, selected: i32, rows: i32) -> (r: (i32, i32))
    requires
        rows >= 0,
    ensures
        place_of(start_row, r.0, r.1) == resized(
            place_of(start_row, top_row, selected),
            rows as int,
        ),
{
    if selected > rows - 1 {
        let top: i64 = top_row as i64 + selected as i64 - (rows as i64 - 1);
        let top: i32 = if top > 2147483647 {
            2147483647
        } else if top < -2147483648 {
            -2147483648
        } else {
            top as i32
        };
        (top, rows - 1)
    } else {
        (top_row, selected)
    }
}

} // verus!
