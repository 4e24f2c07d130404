//! The presentation: what is drawn in every frame, as plain values for the
//! caller to draw.

use crate::board::BOARD_SIZE;
use crate::coords::{cell_to_world, spec_line_position};
use vstd::prelude::*;

verus! {

/// The radius in world units of the marker of a placed stone.
pub const PIECE_RADIUS: i64 = 12;

/// The radius in world units of the indicator drawn at the pointer.
pub const CURSOR_RADIUS: i64 = 10;

/// A straight segment between two world positions.
#[derive(Clone, Copy, Debug, PartialEq, Eq, Structural)]
pub struct Line {
    pub start_x: i64,
    pub start_y: i64,
    pub end_x: i64,
    pub end_y: i64,
}

/// The grid line through the cells of column `col`, from the first row to
/// the last.
pub open spec fn spec_column_line(col: int) -> Line {
    Line {
        start_x: spec_line_position(col) as i64,
        start_y: spec_line_position(0) as i64,
        end_x: spec_line_position(col) as i64,
        end_y: spec_line_position(BOARD_SIZE - 1) as i64,
    }
}

/// The grid line through the cells of row `row`, from the first column to
/// the last.
pub open spec fn spec_row_line(row: int) -> Line {
    Line {
        start_x: spec_line_position(0) as i64,
        start_y: spec_line_position(row) as i64,
        end_x: spec_line_position(BOARD_SIZE - 1) as i64,
        end_y: spec_line_position(row) as i64,
    }
}

/// The grid lines of the board in the order in which they are drawn: for
/// each index in turn, the line of that column and then the line of that row.
pub open spec fn spec_grid_lines() -> Seq<Line> {
    Seq::new(
        2 * BOARD_SIZE as nat,
        |k: int|
            if k % 2 == 0 {
                spec_column_line(k / 2)
            } else {
                spec_row_line(k / 2)
            },
    )
}

/// The grid lines of the board, for the caller to draw: one through each
/// column of cells and one through each row.
pub fn draw_board() -> (lines: Vec<Line>)
    ensures
        lines@ == spec_grid_lines(),
        lines@.len() == 2 * BOARD_SIZE,
        forall|i: int| 0 <= i < BOARD_SIZE ==> lines@[2 * i] == spec_column_line(i),
        forall|i: int| 0 <= i < BOARD_SIZE ==> lines@[2 * i + 1] == spec_row_line(i),
{
    let last: i64 = (BOARD_SIZE - 1) as i64;
    let (first_pos, _) = cell_to_world(0, 0);
    let (last_pos, _) = cell_to_world(last, last);
    let mut lines: Vec<Line> = Vec::new();
    let mut i: usize = 0;
    while i < BOARD_SIZE
        invariant
            i <= BOARD_SIZE,
            first_pos == spec_line_position(0),
            last_pos == spec_line_position(BOARD_SIZE - 1),
            lines@.len() == 2 * i,
            forall|k: int| 0 <= k < 2 * i ==> lines@[k] == spec_grid_lines()[k],
        decreases BOARD_SIZE - i,
    {
        let (pos, _) = cell_to_world(i as i64, 0);
        lines.push(Line { start_x: pos, start_y: first_pos, end_x: pos, end_y: last_pos });
        lines.push(Line { start_x: first_pos, start_y: pos, end_x: last_pos, end_y: pos });
        i += 1;
    }
    assert(lines@ =~= spec_grid_lines());
    lines
}

} // verus!
