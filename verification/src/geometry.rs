//! Dimensions of the level's building blocks and the transform from grid
//! coordinates to world coordinates.
//!
//! World coordinates are stored in half world units, so that the centre of
//! every wall and post is an integer. A maze of `cells` cells along an axis
//! is centred on the origin of that axis.

use vstd::prelude::*;

verus! {

/// Length of a wall segment, in world units.
pub const WALL_LENGTH: i32 = 4;

/// Height of walls and posts, in world units.
pub const WALL_HEIGHT: i32 = 6;

/// Thickness of a wall, and side of a post, in world units.
pub const WALL_THICKNESS: i32 = 1;

/// Largest number of cells a maze may have along one axis.
pub const MAX_SIDE: usize = 32768;

/// A point of the world, in fixed-point coordinates. `y` is the vertical axis.
#[derive(Clone, Copy, Debug, PartialEq, Eq, Structural)]
pub struct Point3 {
    pub x: i32,
    pub y: i32,
    pub z: i32,
}

/// Distance between two neighbouring grid lines, in world units.
pub open spec fn span() -> int {
    WALL_LENGTH + WALL_THICKNESS
}

/// Extent of a maze of `cells` cells along one axis, in world units. The
/// maze reaches half of it to either side of the origin, which in half
/// units is the same number.
pub open spec fn maze_extent(cells: int) -> int {
    cells * span() + WALL_THICKNESS
}

/// Centre of grid line `i` on an axis of `cells` cells, in half units.
pub open spec fn line_center(cells: int, i: int) -> int {
    -maze_extent(cells) + 2 * i * span() + WALL_THICKNESS
}

/// Centre of cell `i` on an axis of `cells` cells, in half units.
pub open spec fn cell_center(cells: int, i: int) -> int {
    -maze_extent(cells) + 2 * WALL_THICKNESS + 2 * i * span() + WALL_LENGTH
}

/// Height of the centre of every wall and post, in half units.
pub open spec fn center_height() -> int {
    WALL_HEIGHT as int
}

/// The transform in numbers, for the dimensions above: grid lines lie ten
/// half units apart, and a cell's centre five half units past its line.
pub proof fn lemma_center_values(cells: int, i: int)
    ensures
        2 * i * span() == 10 * i,
        maze_extent(cells) == 5 * cells + 1,
        line_center(cells, i) == 10 * i - 5 * cells,
        cell_center(cells, i) == 10 * i - 5 * cells + 5,
{
    assert(span() == 5);
    assert(cells * span() == 5 * cells) by (nonlinear_arith)
        requires
            span() == 5,
    ;
    assert(2 * i * span() == 10 * i) by (nonlinear_arith)
        requires
            span() == 5,
    ;
}

/// The centres of grid lines and cells lie within the maze, whose half
/// extent in half units is [`maze_extent`].
pub proof fn lemma_centers_within_extent(cells: int, i: int)
    requires
        0 <= i <= cells <= MAX_SIDE,
    ensures
        -maze_extent(cells) + WALL_THICKNESS <= line_center(cells, i) <= maze_extent(cells)
            - WALL_THICKNESS,
        i < cells ==> -maze_extent(cells) + 2 * WALL_THICKNESS + WALL_LENGTH <= cell_center(cells, i)
            <= maze_extent(cells) - 2 * WALL_THICKNESS - WALL_LENGTH,
        maze_extent(cells) <= (WALL_LENGTH + WALL_THICKNESS) * MAX_SIDE + WALL_THICKNESS,
{
    lemma_center_values(cells, i);
}

/// The transform is symmetric about the origin: mirroring a grid line or a
/// cell through the middle of the maze negates its centre.
pub proof fn lemma_centers_mirror(cells: int, i: int)
    ensures
        line_center(cells, cells - i) == -line_center(cells, i),
        cell_center(cells, cells - 1 - i) == -cell_center(cells, i),
{
    lemma_center_values(cells, i);
    lemma_center_values(cells, cells - i);
    lemma_center_values(cells, cells - 1 - i);
}

/// Computes [`line_center`].
pub fn line_center_of(cells: usize, i: usize) -> (c: i32)
    requires
        cells <= MAX_SIDE,
        i <= cells,
    ensures
        c == line_center(cells as int, i as int),
{
    proof {
        lemma_center_values(cells as int, i as int);
    }
    let n: i32 = cells as i32;
    let k: i32 = i as i32;
    let extent: i32 = n * (WALL_LENGTH + WALL_THICKNESS) + WALL_THICKNESS;
    2 * k * (WALL_LENGTH + WALL_THICKNESS) + WALL_THICKNESS - extent
}

/// Computes [`cell_center`].
pub fn cell_center_of(cells: usize, i: usize) -> (c: i32)
    requires
        cells <= MAX_SIDE,
        i < cells,
    ensures
        c == cell_center(cells as int, i as int),
{
    proof {
        lemma_center_values(cells as int, i as int);
    }
    let n: i32 = cells as i32;
    let k: i32 = i as i32;
    let extent: i32 = n * (WALL_LENGTH + WALL_THICKNESS) + WALL_THICKNESS;
    2 * WALL_THICKNESS + 2 * k * (WALL_LENGTH + WALL_THICKNESS) + WALL_LENGTH - extent
}

} // verus!
