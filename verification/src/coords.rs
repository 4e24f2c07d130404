//! The coordinate mapper: between board cells and positions in the world.
//!
//! World positions are whole numbers of world units. The cell `(0, 0)` stands
//! at `(BOARD_OFFSET, BOARD_OFFSET)`, and neighbouring cells stand `GRID_SIZE`
//! units apart along each axis: the cells of column `i` lie on the vertical
//! grid line `i`, those of row `i` on the horizontal grid line `i`, and line
//! `i` has the coordinate `BOARD_OFFSET + i * GRID_SIZE`.
//!
//! A position is mapped to the cell on the nearest line of each axis. Where a
//! position lies half-way between two lines, it goes to the line farther from
//! line 0.
//!
//! A caller whose positions have fractions of a unit hands over whole units
//! by cutting off, on each axis, the fraction of the distance from line 0:
//! `lemma_whole_units_suffice` shows that the nearest line is the same.

use crate::board::BOARD_SIZE;
use vstd::arithmetic::div_mod::{
    lemma_fundamental_div_mod, lemma_fundamental_div_mod_converse, lemma_mod_bound,
};
use vstd::prelude::*;

verus! {

/// The distance in world units between two neighbouring cells.
pub const GRID_SIZE: i64 = 30;

/// The world coordinate, on both axes, of the cell `(0, 0)`.
pub const BOARD_OFFSET: i64 = -285;

/// The world coordinate of the grid line with the given index.
pub open spec fn spec_line_position(index: int) -> int {
    BOARD_OFFSET + index * GRID_SIZE
}

/// The index of the grid line nearest to a world coordinate: the quotient of
/// the distance from line 0 by `GRID_SIZE`, rounded to the nearest integer,
/// a tie going away from zero.
pub open spec fn spec_line_index(coord: int) -> int {
    let d = coord - BOARD_OFFSET;
    if d >= 0 {
        (2 * d + GRID_SIZE) / (2 * GRID_SIZE)
    } else {
        -((GRID_SIZE - 2 * d) / (2 * GRID_SIZE))
    }
}

/// The world position of the cell `(col, row)`.
pub open spec fn spec_cell_to_world(col: int, row: int) -> (int, int) {
    (spec_line_position(col), spec_line_position(row))
}

/// The cell nearest to the world position `(x, y)`, on the board or off it.
pub open spec fn spec_world_to_cell(x: int, y: int) -> (int, int) {
    (spec_line_index(x), spec_line_index(y))
}

fn line_index(coord: i64) -> (index: i64)
    ensures
        index == spec_line_index(coord as int),
{
    let d: i128 = coord as i128 - BOARD_OFFSET as i128;
    if d >= 0 {
        let q: u128 = ((2 * d + GRID_SIZE as i128) as u128) / ((2 * GRID_SIZE) as u128);
        q as i64
    } else {
        let q: u128 = ((GRID_SIZE as i128 - 2 * d) as u128) / ((2 * GRID_SIZE) as u128);
        -(q as i64)
    }
}

/// Maps a world position to the nearest cell. The cell may lie off the board:
/// whether it does is for the caller to test.
pub fn world_to_cell(x: i64, y: i64) -> (cell: (i64, i64))
    ensures
        cell.0 == spec_world_to_cell(x as int, y as int).0,
        cell.1 == spec_world_to_cell(x as int, y as int).1,
{
    (line_index(x), line_index(y))
}

/// Maps a cell to its world position.
pub fn cell_to_world(col: i64, row: i64) -> (point: (i64, i64))
    requires
        i64::MIN <= spec_line_position(col as int) <= i64::MAX,
        i64::MIN <= spec_line_position(row as int) <= i64::MAX,
    ensures
        point.0 == spec_cell_to_world(col as int, row as int).0,
        point.1 == spec_cell_to_world(col as int, row as int).1,
        spec_world_to_cell(point.0 as int, point.1 as int) == (col as int, row as int),
{
    proof {
        lemma_round_trip(col as int, row as int);
    }
    let x: i128 = BOARD_OFFSET as i128 + col as i128 * GRID_SIZE as i128;
    let y: i128 = BOARD_OFFSET as i128 + row as i128 * GRID_SIZE as i128;
    (x as i64, y as i64)
}

/// The grid line that `spec_line_index` gives is the nearest one: the
/// coordinate lies within half a grid step of it. A coordinate half-way
/// between two lines goes to the one farther from line 0.
pub proof fn lemma_line_index_is_nearest(coord: int)
    ensures
        -GRID_SIZE <= 2 * (coord - spec_line_position(spec_line_index(coord))) <= GRID_SIZE,
        coord >= BOARD_OFFSET ==> 2 * (coord - spec_line_position(spec_line_index(coord)))
            < GRID_SIZE,
        coord < BOARD_OFFSET ==> -GRID_SIZE < 2 * (coord - spec_line_position(
            spec_line_index(coord),
        )),
        coord >= BOARD_OFFSET ==> spec_line_index(coord) >= 0,
        coord < BOARD_OFFSET ==> spec_line_index(coord) <= 0,
{
    let d = coord - BOARD_OFFSET;
    if d >= 0 {
        let q = (2 * d + 30) / 60;
        assert(spec_line_index(coord) == q);
        assert(spec_line_position(q) == BOARD_OFFSET + q * 30);
        assert(60 * q <= 2 * d + 30 < 60 * q + 60);
    } else {
        let q = (30 - 2 * d) / 60;
        assert(spec_line_index(coord) == -q);
        assert(spec_line_position(-q) == BOARD_OFFSET - q * 30);
        assert(60 * q <= 30 - 2 * d < 60 * q + 60);
    }
}

/// No other grid line is as near, the tie decided in the same way.
pub proof fn lemma_line_index_unique(coord: int, index: int)
    requires
        coord >= BOARD_OFFSET ==> -GRID_SIZE <= 2 * (coord - spec_line_position(index))
            < GRID_SIZE,
        coord < BOARD_OFFSET ==> -GRID_SIZE < 2 * (coord - spec_line_position(index))
            <= GRID_SIZE,
    ensures
        index == spec_line_index(coord),
{
    let d = coord - BOARD_OFFSET;
    assert(spec_line_position(index) == BOARD_OFFSET + index * 30);
    if d >= 0 {
        assert(60 * index <= 2 * d + 30 < 60 * index + 60);
        assert((2 * d + 30) / 60 == index);
    } else {
        assert(60 * (-index) <= 30 - 2 * d < 60 * (-index) + 60);
        assert((30 - 2 * d) / 60 == -index);
    }
}

/// Line 0 lies half the board's width, counted in cells, before the world's
/// origin.
pub proof fn lemma_board_offset()
    ensures
        2 * BOARD_OFFSET == -(BOARD_SIZE * GRID_SIZE),
{
}

/// The grid line nearest to the position of a grid line is that line.
pub proof fn lemma_line_round_trip(index: int)
    ensures
        spec_line_index(spec_line_position(index)) == index,
{
    let d = spec_line_position(index) - BOARD_OFFSET;
    assert(d == index * 30);
    if d >= 0 {
        assert((2 * d + 30) / 60 == index);
    } else {
        assert((30 - 2 * d) / 60 == -index);
    }
}

/// Mapping a cell to the world and back gives the same cell.
pub proof fn lemma_round_trip(col: int, row: int)
    ensures
        spec_world_to_cell(spec_cell_to_world(col, row).0, spec_cell_to_world(col, row).1) == (
            col,
            row,
        ),
{
    lemma_line_round_trip(col);
    lemma_line_round_trip(row);
}

/// The whole world units in the distance `num / den`, the fraction cut off
/// toward zero.
pub open spec fn spec_whole_units(num: int, den: int) -> int
    recommends
        den > 0,
{
    if num >= 0 {
        num / den
    } else {
        -((-num) / den)
    }
}

/// The index of the grid line nearest to the point that lies the distance
/// `num / den` from line 0: the quotient of that distance by `GRID_SIZE`,
/// rounded to the nearest integer, a tie going away from zero.
pub open spec fn spec_line_index_at_distance(num: int, den: int) -> int
    recommends
        den > 0,
{
    if num >= 0 {
        (2 * num + den * GRID_SIZE) / (2 * den * GRID_SIZE)
    } else {
        -((den * GRID_SIZE - 2 * num) / (2 * den * GRID_SIZE))
    }
}

proof fn lemma_cut_distance(num: int, den: int)
    requires
        num >= 0,
        den > 0,
    ensures
        (2 * num + den * 30) / (2 * den * 30) == (2 * (num / den) + 30) / 60,
{
    let whole = num / den;
    let rest = num % den;
    let q = (2 * whole + 30) / 60;
    lemma_fundamental_div_mod(num, den);
    assert(num == den * whole + rest);
    assert(0 <= rest < den) by {
        lemma_mod_bound(num, den);
    }
    assert(60 * q <= 2 * whole + 30 <= 60 * q + 58);
    let x = 2 * num + den * 30;
    let a = 2 * den * 30;
    assert(x == den * (2 * whole + 30) + 2 * rest) by (nonlinear_arith)
        requires
            x == 2 * num + den * 30,
            num == den * whole + rest,
    ;
    assert(a * q <= x < a * q + a) by (nonlinear_arith)
        requires
            x == den * (2 * whole + 30) + 2 * rest,
            a == 2 * den * 30,
            60 * q <= 2 * whole + 30 <= 60 * q + 58,
            0 <= rest < den,
            den > 0,
    ;
    lemma_fundamental_div_mod_converse(x, a, q, x - a * q);
}

/// A point between two whole world coordinates is nearest to the same grid
/// line as the whole coordinate next to it on the side of line 0: the
/// fraction of a distance from line 0 does not count.
pub proof fn lemma_whole_units_suffice(num: int, den: int)
    requires
        den > 0,
    ensures
        spec_line_index_at_distance(num, den) == spec_line_index(
            BOARD_OFFSET + spec_whole_units(num, den),
        ),
{
    if num >= 0 {
        lemma_cut_distance(num, den);
        assert(num / den >= 0) by (nonlinear_arith)
            requires
                num >= 0,
                den > 0,
        ;
    } else {
        lemma_cut_distance(-num, den);
        assert((-num) / den >= 0) by (nonlinear_arith)
            requires
                -num >= 0,
                den > 0,
        ;
    }
}

} // verus!
