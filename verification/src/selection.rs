//! Text selection over the terminal grid: a rectangle between two cell
//! positions, normalized so the start never lies after the end.

use vstd::prelude::*;

verus! {

/// A selection between two cell positions, in row-major order. The anchor
/// may lie after the drag position; [`Selection::normalized`] orders them.
#[derive(Clone, Copy, PartialEq, Eq, Structural, Debug)]
pub struct Selection {
    pub start_row: usize,
    pub start_col: usize,
    pub end_row: usize,
    pub end_col: usize,
}

/// Row-major order on cell positions.
pub open spec fn pos_le(r1: int, c1: int, r2: int, c2: int) -> bool {
    r1 < r2 || (r1 == r2 && c1 <= c2)
}

/// Whether a cell lies inside a normalized selection span.
pub open spec fn span_contains(sr: int, sc: int, er: int, ec: int, row: int, col: int) -> bool {
    if row < sr || row > er {
        false
    } else if sr == er {
        sc <= col <= ec
    } else if row == sr {
        col >= sc
    } else if row == er {
        col <= ec
    } else {
        true
    }
}

impl Selection {
    /// The selection's corners ordered: the returned start never lies after
    /// the returned end, and both corners are the selection's own.
    pub fn normalized(&self) -> (r: ((usize, usize), (usize, usize)))
        ensures
            pos_le(r.0.0 as int, r.0.1 as int, r.1.0 as int, r.1.1 as int),
            (r.0 == (self.start_row, self.start_col) && r.1 == (self.end_row, self.end_col)) || (
            r.0 == (self.end_row, self.end_col) && r.1 == (self.start_row, self.start_col)),
            pos_le(
                self.start_row as int,
                self.start_col as int,
                self.end_row as int,
                self.end_col as int,
            ) ==> r.0 == (self.start_row, self.start_col) && r.1 == (self.end_row, self.end_col),
    {
        if self.start_row < self.end_row || (self.start_row == self.end_row && self.start_col
            <= self.end_col) {
            ((self.start_row, self.start_col), (self.end_row, self.end_col))
        } else {
            ((self.end_row, self.end_col), (self.start_row, self.start_col))
        }
    }

    /// Whether the selection covers no cell.
    pub fn is_empty(&self) -> (r: bool)
        ensures
            r == (self.start_row == self.end_row && self.start_col == self.end_col),
    {
        self.start_row == self.end_row && self.start_col == self.end_col
    }

    /// Whether a cell lies inside the selection.
    pub fn contains(&self, row: usize, col: usize) -> (r: bool)
        ensures
            ({
                let ((sr, sc), (er, ec)) = self.normalized_spec();
                r == span_contains(sr, sc, er, ec, row as int, col as int)
            }),
    {
        let ((sr, sc), (er, ec)) = self.normalized();
        if row < sr || row > er {
            return false;
        }
        if sr == er {
            return col >= sc && col <= ec;
        }
        if row == sr {
            return col >= sc;
        }
        if row == er {
            return col <= ec;
        }
        true
    }

    /// The normalized corners, as the executable `normalized` returns them.
    pub open spec fn normalized_spec(&self) -> ((int, int), (int, int)) {
        if pos_le(self.start_row as int, self.start_col as int, self.end_row as int, self.end_col as int) {
            (
                (self.start_row as int, self.start_col as int),
                (self.end_row as int, self.end_col as int),
            )
        } else {
            (
                (self.end_row as int, self.end_col as int),
                (self.start_row as int, self.start_col as int),
            )
        }
    }

    /// The column span selected on one row: the full row between the
    /// endpoints' rows, the outer parts on the endpoint rows themselves.
    pub open spec fn row_span_spec(&self, row: int, max_cols: int) -> (int, int) {
        let ((sr, sc), (er, ec)) = self.normalized_spec();
        if sr == er {
            (sc, ec)
        } else if row == sr {
            (sc, vstd::math::max(max_cols - 1, 0))
        } else if row == er {
            (0, ec)
        } else {
            (0, vstd::math::max(max_cols - 1, 0))
        }
    }

    /// One `(row, first column, last column)` triple for every selected
    /// row, in order.
    pub fn selection_ranges(&self, max_cols: usize) -> (out: Vec<(usize, usize, usize)>)
        ensures
            ({
                let ((sr, sc), (er, ec)) = self.normalized_spec();
                &&& out@.len() == er - sr + 1
                &&& forall|i: int| 0 <= i < out@.len() ==> {
                    let (c0, c1) = self.row_span_spec(sr + i, max_cols as int);
                    #[trigger] out@[i] == ((sr + i) as usize, c0 as usize, c1 as usize)
                }
            }),
    {
        let ((sr, sc), (er, ec)) = self.normalized();
        let mut out: Vec<(usize, usize, usize)> = Vec::new();
        let mut row = sr;
        loop
            invariant_except_break
                out@.len() == row - sr,
            invariant
                ((sr as int, sc as int), (er as int, ec as int)) == self.normalized_spec(),
                sr <= row <= er,
                forall|i: int| 0 <= i < out@.len() ==> {
                    let (c0, c1) = self.row_span_spec(sr + i, max_cols as int);
                    #[trigger] out@[i] == ((sr + i) as usize, c0 as usize, c1 as usize)
                },
            ensures
                row == er,
                out@.len() == er - sr + 1,
                forall|i: int| 0 <= i < out@.len() ==> {
                    let (c0, c1) = self.row_span_spec(sr + i, max_cols as int);
                    #[trigger] out@[i] == ((sr + i) as usize, c0 as usize, c1 as usize)
                },
            decreases er + 1 - row,
        {
            let (col_start, col_end) = if sr == er {
                (sc, ec)
            } else if row == sr {
                (sc, if max_cols > 0 { max_cols - 1 } else { 0 })
            } else if row == er {
                (0, ec)
            } else {
                (0, if max_cols > 0 { max_cols - 1 } else { 0 })
            };
            out.push((row, col_start, col_end));
            if row == er {
                break;
            }
            row = row + 1;
        }
        out
    }
}

} // verus!
