//! Cursor movement over a list that may be taller than the screen.
//!
//! A screen of `height` rows shows `height - 1` items: the last row stays
//! free so that writing the last visible item never scrolls the terminal.
use vstd::prelude::*;

verus! {

/// Number of items a screen of `height` rows shows.
pub open spec fn visible_rows(height: int) -> int {
    height - 1
}

/// Cursor and top-of-screen index after one step down among `n` items.
///
/// From the last item the cursor wraps to the first one and the view goes
/// back to the top; otherwise the view scrolls by one row when the cursor
/// leaves its bottom.
pub open spec fn spec_move_down(n: int, cursor: int, top: int, height: int) -> (int, int) {
    if n == 0 {
        (cursor, top)
    } else if cursor == n - 1 {
        (0, 0)
    } else if cursor + 1 > top + visible_rows(height) - 1 {
        (cursor + 1, top + 1)
    } else {
        (cursor + 1, top)
    }
}

/// Cursor and top-of-screen index after one step up among `n` items.
///
/// From the first item the cursor wraps to the last one and the view is
/// placed so that the last item is its bottom row; otherwise the view
/// scrolls by one row when the cursor leaves its top.
pub open spec fn spec_move_up(n: int, cursor: int, top: int, height: int) -> (int, int) {
    if n == 0 {
        (cursor, top)
    } else if cursor == 0 {
        (n - 1, if n + 1 - height > 0 { n + 1 - height } else { 0 })
    } else if cursor - 1 < top {
        (cursor - 1, top - 1)
    } else {
        (cursor - 1, top)
    }
}

/// A position is valid among `n` items when the cursor names an item (or is
/// zero with no items) and the view does not start below it.
pub open spec fn valid_position(n: int, cursor: int, top: int) -> bool {
    &&& 0 <= top <= cursor
    &&& n == 0 ==> cursor == 0
    &&& n > 0 ==> cursor < n
}

pub fn move_down(n: usize, cursor: usize, top: usize, height: usize) -> (r: (usize, usize))
    requires
        valid_position(n as int, cursor as int, top as int),
        height >= 2,
    ensures
        (r.0 as int, r.1 as int) == spec_move_down(n as int, cursor as int, top as int, height as int),
        valid_position(n as int, r.0 as int, r.1 as int),
{
    if n == 0 {
        (cursor, top)
    } else if cursor == n - 1 {
        (0, 0)
    } else if cursor + 1 - top > height - 2 {
        (cursor + 1, top + 1)
    } else {
        (cursor + 1, top)
    }
}

pub fn move_up(n: usize, cursor: usize, top: usize, height: usize) -> (r: (usize, usize))
    requires
        valid_position(n as int, cursor as int, top as int),
        height >= 2,
    ensures
        (r.0 as int, r.1 as int) == spec_move_up(n as int, cursor as int, top as int, height as int),
        valid_position(n as int, r.0 as int, r.1 as int),
{
    if n == 0 {
        (cursor, top)
    } else if cursor == 0 {
        let top = match n.checked_sub(height - 1) {
            Some(t) => t,
            None => 0,
        };
        (n - 1, top)
    } else if cursor - 1 < top {
        (cursor - 1, top - 1)
    } else {
        (cursor - 1, top)
    }
}

/// Result of a sequence of steps, `true` for a step down and `false` for a
/// step up.
pub open spec fn spec_apply_moves(n: int, pos: (int, int), height: int, moves: Seq<bool>) -> (int, int)
    decreases moves.len(),
{
    if moves.len() == 0 {
        pos
    } else {
        let next = if moves[0] {
            spec_move_down(n, pos.0, pos.1, height)
        } else {
            spec_move_up(n, pos.0, pos.1, height)
        };
        spec_apply_moves(n, next, height, moves.drop_first())
    }
}

/// Moving down from the last of two or more items selects the first one,
/// and moving up from the first selects the last; with one item or none,
/// both moves leave the position as it is.
pub proof fn lemma_cursor_wraps_around(n: int, top: int, height: int)
    requires
        n >= 0,
        height >= 2,
    ensures
        n >= 2 ==> spec_move_down(n, n - 1, top, height).0 == 0,
        n >= 2 ==> spec_move_up(n, 0, top, height).0 == n - 1,
        n <= 1 ==> spec_move_down(n, 0, 0, height) == (0int, 0int),
        n <= 1 ==> spec_move_up(n, 0, 0, height) == (0int, 0int),
{
}

proof fn lemma_step_keeps_cursor_visible(n: int, pos: (int, int), height: int, down: bool)
    requires
        n > 0,
        height >= 2,
        valid_position(n, pos.0, pos.1),
        pos.0 < pos.1 + visible_rows(height),
    ensures
        ({
            let next = if down {
                spec_move_down(n, pos.0, pos.1, height)
            } else {
                spec_move_up(n, pos.0, pos.1, height)
            };
            valid_position(n, next.0, next.1) && next.0 < next.1 + visible_rows(height)
        }),
{
}

/// Starting from the first item at the top of the screen, any sequence of
/// moves keeps the cursor inside the visible window:
/// `top <= cursor < top + visible_rows(height)`.
pub proof fn lemma_moves_keep_cursor_visible(n: int, height: int, moves: Seq<bool>)
    requires
        n > 0,
        height >= 2,
    ensures
        ({
            let pos = spec_apply_moves(n, (0, 0), height, moves);
            pos.1 <= pos.0 < pos.1 + visible_rows(height) && pos.0 < n
        }),
{
    lemma_moves_from_visible_position(n, (0, 0), height, moves);
}

proof fn lemma_moves_from_visible_position(n: int, pos: (int, int), height: int, moves: Seq<bool>)
    requires
        n > 0,
        height >= 2,
        valid_position(n, pos.0, pos.1),
        pos.0 < pos.1 + visible_rows(height),
    ensures
        ({
            let last = spec_apply_moves(n, pos, height, moves);
            valid_position(n, last.0, last.1) && last.0 < last.1 + visible_rows(height)
        }),
    decreases moves.len(),
{
    if moves.len() > 0 {
        lemma_step_keeps_cursor_visible(n, pos, height, moves[0]);
        let next = if moves[0] {
            spec_move_down(n, pos.0, pos.1, height)
        } else {
            spec_move_up(n, pos.0, pos.1, height)
        };
        lemma_moves_from_visible_position(n, next, height, moves.drop_first());
    }
}

} // verus!
