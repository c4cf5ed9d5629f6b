//! The selection cursor: a position in the table, bounded by its length.

use vstd::prelude::*;

verus! {

/// The last position of a table with `len` rows; 0 for the empty table.
pub open spec fn last_row(len: nat) -> nat {
    if len == 0 {
        0
    } else {
        (len - 1) as nat
    }
}

/// Whether a cursor is a position of a table with `len` rows. The cursor of
/// the empty table is 0.
pub open spec fn in_bounds(cursor: nat, len: nat) -> bool {
    cursor <= last_row(len)
}

/// The cursor one row up: never above the first row, nor below the last.
pub open spec fn moved_up(cursor: nat, len: nat) -> nat {
    let up = if cursor == 0 {
        0
    } else {
        (cursor - 1) as nat
    };
    if up <= last_row(len) {
        up
    } else {
        last_row(len)
    }
}

/// The cursor one row down: never below the last row.
pub open spec fn moved_down(cursor: nat, len: nat) -> nat {
    if cursor + 1 <= last_row(len) {
        cursor + 1
    } else {
        last_row(len)
    }
}

/// A direction the cursor can take.
pub enum Move {
    Up,
    Down,
}

/// The cursor after one move.
pub open spec fn moved(cursor: nat, len: nat, step: Move) -> nat {
    match step {
        Move::Up => moved_up(cursor, len),
        Move::Down => moved_down(cursor, len),
    }
}

/// The cursor after a series of moves, first to last.
pub open spec fn after_moves(cursor: nat, len: nat, steps: Seq<Move>) -> nat
    decreases steps.len(),
{
    if steps.len() == 0 {
        cursor
    } else {
        moved(after_moves(cursor, len, steps.drop_last()), len, steps.last())
    }
}

/// On a cursor within bounds a move is the plain rule: one less but not
/// below 0, one more but not above the last row.
pub proof fn lemma_move_in_bounds(cursor: nat, len: nat)
    requires
        in_bounds(cursor, len),
    ensures
        moved_up(cursor, len) == (if cursor == 0 {
            0int
        } else {
            cursor - 1
        }),
        len > 0 ==> moved_down(cursor, len) == (if cursor + 1 < len {
            cursor + 1
        } else {
            (len - 1) as nat
        }),
        len == 0 ==> moved_down(cursor, len) == cursor,
{
}

/// Cursor bounds: whatever the moves, a cursor that starts within a table of
/// at least one row stays within it, and the cursor of the empty table
/// stays where it is.
pub proof fn lemma_cursor_bounds(cursor: nat, len: nat, steps: Seq<Move>)
    requires
        in_bounds(cursor, len),
    ensures
        in_bounds(after_moves(cursor, len, steps), len),
        len >= 1 ==> 0 <= after_moves(cursor, len, steps) <= len - 1,
        len == 0 ==> after_moves(cursor, len, steps) == cursor,
    decreases steps.len(),
{
    if steps.len() > 0 {
        lemma_cursor_bounds(cursor, len, steps.drop_last());
    }
}

/// A single move brings any cursor within bounds.
pub proof fn lemma_move_restores_bounds(cursor: nat, len: nat, step: Move)
    ensures
        in_bounds(moved(cursor, len, step), len),
{
}

/// Moves the cursor one row up.
pub fn move_up(cursor: usize, len: usize) -> (next: usize)
    ensures
        next == moved_up(cursor as nat, len as nat),
{
    let last = if len == 0 {
        0
    } else {
        len - 1
    };
    let up = if cursor == 0 {
        0
    } else {
        cursor - 1
    };
    if up <= last {
        up
    } else {
        last
    }
}

/// Moves the cursor one row down.
pub fn move_down(cursor: usize, len: usize) -> (next: usize)
    ensures
        next == moved_down(cursor as nat, len as nat),
{
    let last = if len == 0 {
        0
    } else {
        len - 1
    };
    if cursor < last {
        cursor + 1
    } else {
        last
    }
}

} // verus!
