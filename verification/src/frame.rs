//! Rendered frames, the terminal's dimensions, and what changed between
//! two frames.

use vstd::prelude::*;

use crate::changed_range::{ChangedRange, changed_range_spec, lines_chars};

verus! {

/// The size of the terminal.
#[derive(Clone, Copy, Debug, Eq, PartialEq, Structural)]
pub struct Dimensions {
    pub height: u16,
    pub width: u16,
}

impl Dimensions {
    /// The height as a count of rows.
    pub fn height(self) -> (r: usize)
        ensures
            r == self.height,
    {
        self.height as usize
    }
}

/// A frame of rendered lines, and the first row shown when the frame is
/// taller than the terminal.
#[derive(Clone, Debug, Eq, PartialEq)]
pub struct Frame {
    pub dimensions: Dimensions,
    pub lines: Vec<String>,
    pub viewport_top: usize,
}

impl Frame {
    /// The index of the last row (zero for an empty frame).
    pub fn last_row(&self) -> (r: usize)
        ensures
            r == if self.lines@.len() == 0 { 0 } else { self.lines@.len() - 1 },
    {
        if self.lines.len() == 0 {
            0
        } else {
            self.lines.len() - 1
        }
    }

    /// The number of rows.
    pub fn len(&self) -> (r: usize)
        ensures
            r == self.lines@.len(),
    {
        self.lines.len()
    }

    /// A frame whose viewport shows its last page: the top row is as far down
    /// as the height allows, and zero when everything fits.
    pub fn new(lines: Vec<String>, dimensions: Dimensions) -> (r: Frame)
        ensures
            r.lines == lines,
            r.dimensions == dimensions,
            r.viewport_top == if lines@.len() > dimensions.height {
                lines@.len() - dimensions.height
            } else {
                0
            },
    {
        let height = dimensions.height();
        let viewport_top = if lines.len() > height { lines.len() - height } else { 0 };
        Frame { dimensions, lines, viewport_top }
    }
}

/// What changed between two frames.
#[derive(Clone, Copy, Debug, Eq, PartialEq, Structural)]
pub struct Diff {
    pub changed: ChangedRange,
    pub next_len: usize,
    pub previous_len: usize,
}

impl Diff {
    /// The changed lines and both frames' lengths, or `None` when the frames
    /// hold the same lines.
    pub fn between(previous: &Frame, next: &Frame) -> (r: Option<Diff>)
        ensures
            match r {
                Option::None => changed_range_spec(
                    lines_chars(previous.lines@),
                    lines_chars(next.lines@),
                    Option::None,
                ),
                Option::Some(d) => {
                    &&& changed_range_spec(
                        lines_chars(previous.lines@),
                        lines_chars(next.lines@),
                        Option::Some(d.changed),
                    )
                    &&& d.next_len == next.lines@.len()
                    &&& d.previous_len == previous.lines@.len()
                },
            },
    {
        match ChangedRange::between(previous.lines.as_slice(), next.lines.as_slice()) {
            Some(changed) => Some(
                Diff { changed, next_len: next.len(), previous_len: previous.len() },
            ),
            None => None,
        }
    }

    /// How many rows the previous frame had past the end of the next one.
    pub fn deleted_tail_len(self) -> (r: usize)
        ensures
            r == if self.previous_len > self.next_len {
                self.previous_len - self.next_len
            } else {
                0
            },
    {
        if self.previous_len > self.next_len {
            self.previous_len - self.next_len
        } else {
            0
        }
    }
}

/// A planned update of the terminal: the changed rows, where the cursor goes,
/// and where the viewport starts.
#[derive(Clone, Copy, Debug, Eq, PartialEq, Structural)]
pub struct Patch {
    pub changed: ChangedRange,
    pub move_target_row: usize,
    pub prepend_line_feed: bool,
    pub viewport_top: usize,
}

} // verus!
