//! The position tracker's model: how row and column follow from the
//! bytes consumed so far. Row and column are 1-based; a line feed
//! increments the row and resets the column, any other byte moves the
//! column one to the right.

use vstd::prelude::*;

verus! {

/// A source position: 1-based row and column.
pub struct Position {
    pub row: int,
    pub column: int,
}

/// The position after consuming one byte at position `p`.
pub open spec fn step(p: Position, c: u8) -> Position {
    if c == 10 {
        Position { row: p.row + 1, column: 1 }
    } else {
        Position { row: p.row, column: p.column + 1 }
    }
}

/// The position of offset `j` in input `s`: the result of consuming the
/// first `j` bytes, starting from row 1, column 1.
pub open spec fn position_at(s: Seq<u8>, j: int) -> Position
    decreases j,
{
    if j <= 0 {
        Position { row: 1, column: 1 }
    } else {
        step(position_at(s, j - 1), s[j - 1])
    }
}

/// Row and column are at least 1 and at most one more than the number
/// of bytes consumed.
pub proof fn lemma_position_bounds(s: Seq<u8>, j: int)
    requires
        0 <= j,
    ensures
        1 <= position_at(s, j).row <= j + 1,
        1 <= position_at(s, j).column <= j + 1,
    decreases j,
{
    if j > 0 {
        lemma_position_bounds(s, j - 1);
    }
}

} // verus!
