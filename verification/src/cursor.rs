//! The terminal cursor as a logical row of the rendered frame.

use vstd::prelude::*;

verus! {

/// The rows of a frame that the terminal shows: from `top`, `height` rows.
#[derive(Clone, Copy, Debug, Eq, PartialEq, Structural)]
pub struct Viewport {
    pub height: usize,
    pub top: usize,
}

/// The screen row at which a logical row appears: its distance from the top
/// of the viewport, and zero above it.
pub open spec fn screen_row_spec(top: nat, row: nat) -> nat {
    if row > top {
        (row - top) as nat
    } else {
        0
    }
}

impl Viewport {
    /// A viewport starting at logical row `top`.
    pub fn new(top: usize, height: usize) -> (r: Viewport)
        ensures
            r.top == top,
            r.height == height,
    {
        Viewport { height, top }
    }

    /// The screen row of a logical row.
    pub fn screen_row(self, row: usize) -> (r: usize)
        ensures
            r == screen_row_spec(self.top as nat, row as nat),
    {
        if row > self.top {
            row - self.top
        } else {
            0
        }
    }
}

/// A count as a signed count, saturating at `isize::MAX`.
pub open spec fn saturating_isize(x: nat) -> int {
    if x <= isize::MAX {
        x as int
    } else {
        isize::MAX as int
    }
}

fn to_isize(x: usize) -> (r: isize)
    ensures
        r == saturating_isize(x as nat),
{
    if x <= isize::MAX as usize {
        x as isize
    } else {
        isize::MAX
    }
}

/// The terminal cursor, attached to a logical row of the frame rather than
/// to a screen row, so that scrolling between writes can be accounted for.
#[derive(Clone, Copy, Debug, Eq, PartialEq, Structural)]
pub struct Cursor {
    row: usize,
}

impl Cursor {
    /// The signed vertical movement from the cursor, seen through `from`, to
    /// `target_row`, seen through `to`.
    pub fn diff_to(self, from: Viewport, target_row: usize, to: Viewport) -> (r: isize)
        ensures
            r == saturating_isize(screen_row_spec(to.top as nat, target_row as nat))
                - saturating_isize(screen_row_spec(from.top as nat, self.row_spec() as nat)),
    {
        to_isize(to.screen_row(target_row)) - to_isize(from.screen_row(self.row))
    }

    /// A cursor at a logical row.
    pub fn new(row: usize) -> (r: Cursor)
        ensures
            r.row() == row,
    {
        Cursor { row }
    }

    /// The logical row.
    pub closed spec fn row_spec(self) -> usize {
        self.row
    }

    /// The logical row.
    #[verifier::when_used_as_spec(row_spec)]
    pub fn row(self) -> (r: usize)
        ensures
            r == self.row_spec(),
    {
        self.row
    }
}

/// Moving the cursor there and back cancels out: the movement from one row
/// to another is the opposite of the movement back.
pub proof fn law_diff_antisymmetric(a: usize, from: Viewport, b: usize, to: Viewport)
    ensures
        saturating_isize(screen_row_spec(to.top as nat, b as nat)) - saturating_isize(
            screen_row_spec(from.top as nat, a as nat),
        ) == -(saturating_isize(screen_row_spec(from.top as nat, a as nat)) - saturating_isize(
            screen_row_spec(to.top as nat, b as nat),
        )),
{
}

} // verus!
