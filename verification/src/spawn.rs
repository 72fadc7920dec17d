//! Where agents enter a level: on cells drawn at random around the middle
//! of the maze, but never close to the origin.

use vstd::prelude::*;
use crate::geometry::{
    lemma_center_values, span, Point3, MAX_SIDE, WALL_LENGTH, WALL_THICKNESS,
};
use rand::Rng;

verus! {

/// Cells closer to the origin than this, along both axes, stay free.
pub const SPAWN_CLEARANCE: i32 = 3;

/// Offset of a spawn point from the line of its cell, in half units.
pub const SPAWN_OFFSET: i32 = 7;

/// Height at which agents enter the level, in half units.
pub const SPAWN_HEIGHT: i32 = 3;

/// Whether the cell `(cx, cy)`, counted from the middle of the maze, is
/// close to the origin along both axes.
pub open spec fn near_origin(cx: int, cy: int) -> bool {
    -SPAWN_CLEARANCE < cx < SPAWN_CLEARANCE && -SPAWN_CLEARANCE < cy < SPAWN_CLEARANCE
}

/// The range of cell coordinates along an axis of `cells` cells, counted
/// from the middle of the maze: from `-(cells / 2)` up to, but not
/// including, `cells / 2`.
pub open spec fn in_spawn_range(cells: int, c: int) -> bool {
    -(cells / 2) <= c < cells / 2
}

/// Whether an agent may enter the level on the cell `(cx, cy)`.
pub fn spawn_cell_is_clear(cx: i32, cy: i32) -> (clear: bool)
    ensures
        clear == !near_origin(cx as int, cy as int),
{
    !(-SPAWN_CLEARANCE < cx && cx < SPAWN_CLEARANCE && -SPAWN_CLEARANCE < cy && cy
        < SPAWN_CLEARANCE)
}

/// The point at which an agent enters the level on the cell `(cx, cy)`,
/// in half units.
pub fn spawn_position(cx: i32, cy: i32) -> (p: Point3)
    requires
        -MAX_SIDE <= cx <= MAX_SIDE,
        -MAX_SIDE <= cy <= MAX_SIDE,
    ensures
        p.x == 2 * cx * span() + SPAWN_OFFSET,
        p.y == SPAWN_HEIGHT,
        p.z == 2 * cy * span() + SPAWN_OFFSET,
{
    proof {
        lemma_center_values(0, cx as int);
        lemma_center_values(0, cy as int);
    }
    let step: i32 = 2 * (WALL_LENGTH + WALL_THICKNESS);
    Point3 { x: step * cx + SPAWN_OFFSET, y: SPAWN_HEIGHT, z: step * cy + SPAWN_OFFSET }
}

/// Draws a number at random with `rand::Rng::gen_range` on the generator
/// of the current thread, `rand::thread_rng`. This is believed, not
/// proved: the number lies in the half-open range from `low` to `high`.
/// Nothing else is claimed of it, and two draws may differ. The range must
/// not be empty, or `gen_range` panics; the generator itself panics only
/// when the operating system gives it no seed.
#[verifier::external_body]
fn random_in_range(low: i32, high: i32) -> (r: i32)
    requires
        low < high,
    ensures
        low <= r < high,
{
    rand::thread_rng().gen_range(low..high)
}

/// Draws a cell at random for an agent to enter a maze of `maze_width` by
/// `maze_height` cells. The cell may be close to the origin: ask
/// [`spawn_cell_is_clear`], and draw again if it is.
pub fn random_spawn_cell(maze_width: usize, maze_height: usize) -> (cell: (i32, i32))
    requires
        2 <= maze_width <= MAX_SIDE,
        2 <= maze_height <= MAX_SIDE,
    ensures
        in_spawn_range(maze_width as int, cell.0 as int),
        in_spawn_range(maze_height as int, cell.1 as int),
{
    let half_width: i32 = (maze_width / 2) as i32;
    let half_height: i32 = (maze_height / 2) as i32;
    let cx = random_in_range(-half_width, half_width);
    let cy = random_in_range(-half_height, half_height);
    (cx, cy)
}

} // verus!
