//! Compiling a maze graph into level geometry: wall segments along the grid
//! lines and posts at the grid corners, each with its place in the world.
//!
//! A horizontal wall at `(x, y)` runs along the x axis between the corners
//! `(x, y)` and `(x + 1, y)`; it separates cell `(x, y - 1)` from cell
//! `(x, y)`. A vertical wall at `(x, y)` runs along the z axis between the
//! corners `(x, y)` and `(x, y + 1)`; it separates cell `(x - 1, y)` from
//! cell `(x, y)`. A post stands on a corner.
//!
//! [`rules`] says where segments stand and in which order they are laid
//! out; [`theory`] proves what follows for the geometry as a whole.

pub mod rules;
pub mod theory;

use vstd::prelude::*;
use crate::geometry::{
    cell_center_of, line_center_of, Point3, MAX_SIDE, WALL_HEIGHT, WALL_LENGTH, WALL_THICKNESS,
};
use crate::graph::MazeGraph;
use crate::level::rules::{
    collider_of, corner_segments, has_horizontal_wall, has_post, has_vertical_wall,
    incident_walls, layout, quarter_turns_of, row_segments, rows_segments, segment_at, stands,
    valid_anchor,
};
use crate::level::theory::{lemma_layout_contains, lemma_layout_no_duplicates};

verus! {

/// The three kinds of level geometry.
#[derive(Clone, Copy, Debug, PartialEq, Eq, Structural)]
pub enum SegmentKind {
    Horizontal,
    Vertical,
    Post,
}

/// One placed piece of level geometry: its kind, its anchor on the grid and
/// the centre of its box in the world, in half units.
#[derive(Clone, Copy, Debug, PartialEq, Eq, Structural)]
pub struct WallSegment {
    pub kind: SegmentKind,
    pub x: usize,
    pub y: usize,
    pub position: Point3,
}

/// Full size of a box along its own x, y and z axes, in world units.
#[derive(Clone, Copy, Debug, PartialEq, Eq, Structural)]
pub struct BoxSize {
    pub x: i32,
    pub y: i32,
    pub z: i32,
}

/// What the physics world is asked to place for one segment.
#[derive(Clone, Copy, Debug, PartialEq, Eq, Structural)]
pub struct Placement {
    pub kind: SegmentKind,
    /// Centre of the box in the world, in half units.
    pub position: Point3,
    /// Rotation of the box about the vertical axis, in quarter turns.
    pub quarter_turns: u8,
    /// The box of the collider, before it is rotated.
    pub collider: BoxSize,
    /// The body never moves.
    pub is_static: bool,
    /// The navigation mesh treats the body as an obstacle.
    pub nav_obstacle: bool,
}

impl WallSegment {
    /// The placement request for this segment: an immovable body with a
    /// box collider of the segment's size, which obstructs navigation.
    pub open spec fn placement_spec(self) -> Placement {
        Placement {
            kind: self.kind,
            position: self.position,
            quarter_turns: quarter_turns_of(self.kind),
            collider: collider_of(self.kind),
            is_static: true,
            nav_obstacle: true,
        }
    }

    /// Computes [`WallSegment::placement_spec`].
    pub fn placement(&self) -> (p: Placement)
        ensures
            p == self.placement_spec(),
    {
        let (quarter_turns, collider) = match self.kind {
            SegmentKind::Horizontal => (
                0u8,
                BoxSize { x: WALL_LENGTH, y: WALL_HEIGHT, z: WALL_THICKNESS },
            ),
            SegmentKind::Vertical => (
                1u8,
                BoxSize { x: WALL_LENGTH, y: WALL_HEIGHT, z: WALL_THICKNESS },
            ),
            SegmentKind::Post => (
                0u8,
                BoxSize { x: WALL_THICKNESS, y: WALL_HEIGHT, z: WALL_THICKNESS },
            ),
        };
        Placement {
            kind: self.kind,
            position: self.position,
            quarter_turns,
            collider,
            is_static: true,
            nav_obstacle: true,
        }
    }
}

/// Whether a horizontal wall stands at `(x, y)`.
pub fn horizontal_wall_at(graph: &MazeGraph, x: usize, y: usize) -> (r: bool)
    requires
        graph.wf(),
    ensures
        r == has_horizontal_wall(graph@, x as int, y as int),
{
    proof {
        graph.lemma_view_wf();
    }
    let w = graph.width();
    let h = graph.height();
    if x >= w || y > h {
        false
    } else if y == 0 || y == h {
        true
    } else {
        !graph.has_edge((x, y - 1), (x, y))
    }
}

/// Whether a vertical wall stands at `(x, y)`.
pub fn vertical_wall_at(graph: &MazeGraph, x: usize, y: usize) -> (r: bool)
    requires
        graph.wf(),
    ensures
        r == has_vertical_wall(graph@, x as int, y as int),
{
    proof {
        graph.lemma_view_wf();
    }
    let w = graph.width();
    let h = graph.height();
    if x > w || y >= h {
        false
    } else if x == 0 || x == w {
        true
    } else {
        !graph.has_edge((x - 1, y), (x, y))
    }
}

/// Number of wall segments that end on the corner `(x, y)`.
pub fn incident_wall_count(graph: &MazeGraph, x: usize, y: usize) -> (n: u8)
    requires
        graph.wf(),
    ensures
        n == incident_walls(graph@, x as int, y as int),
{
    let mut n: u8 = 0;
    if x > 0 && horizontal_wall_at(graph, x - 1, y) {
        n += 1;
    }
    if horizontal_wall_at(graph, x, y) {
        n += 1;
    }
    if y > 0 && vertical_wall_at(graph, x, y - 1) {
        n += 1;
    }
    if vertical_wall_at(graph, x, y) {
        n += 1;
    }
    n
}

/// Whether a post stands on the corner `(x, y)`.
pub fn post_at(graph: &MazeGraph, x: usize, y: usize) -> (r: bool)
    requires
        graph.wf(),
    ensures
        r == has_post(graph@, x as int, y as int),
{
    let w = graph.width();
    let h = graph.height();
    if x > w || y > h {
        false
    } else if x == 0 || x == w || y == 0 || y == h {
        true
    } else {
        incident_wall_count(graph, x, y) > 1
    }
}

/// Collects the segments of one maze as they are drawn.
pub struct WallSpawner {
    height: usize,
    width: usize,
    segments: Vec<WallSegment>,
}

impl WallSpawner {
    /// Both sides of the maze are positive and within [`MAX_SIDE`].
    pub open spec fn wf(self) -> bool {
        &&& 1 <= self.width() <= MAX_SIDE
        &&& 1 <= self.height() <= MAX_SIDE
    }

    /// Number of cells of the maze along the x axis.
    pub closed spec fn width(self) -> int {
        self.width as int
    }

    /// Number of cells of the maze along the y axis.
    pub closed spec fn height(self) -> int {
        self.height as int
    }

    /// The segments drawn so far, oldest first.
    pub closed spec fn drawn(self) -> Seq<WallSegment> {
        self.segments@
    }

    /// A spawner for a maze of `width` by `height` cells that has drawn
    /// nothing yet.
    pub fn new(height: usize, width: usize) -> (ms: WallSpawner)
        requires
            1 <= height <= MAX_SIDE,
            1 <= width <= MAX_SIDE,
        ensures
            ms.wf(),
            ms.width() == width,
            ms.height() == height,
            ms.drawn() == Seq::<WallSegment>::empty(),
    {
        WallSpawner { height, width, segments: Vec::new() }
    }

    /// Draws the post on the corner `(x, y)`.
    pub fn draw_post(&mut self, x: usize, y: usize)
        requires
            old(self).wf(),
            valid_anchor(old(self).width(), old(self).height(), SegmentKind::Post, x as int, y as int),
        ensures
            final(self).wf(),
            final(self).width() == old(self).width(),
            final(self).height() == old(self).height(),
            final(self).drawn() == old(self).drawn().push(
                segment_at(old(self).width(), old(self).height(), SegmentKind::Post, x as int, y as int),
            ),
    {
        let position = Point3 {
            x: line_center_of(self.width, x),
            y: WALL_HEIGHT,
            z: line_center_of(self.height, y),
        };
        self.segments.push(WallSegment { kind: SegmentKind::Post, x, y, position });
    }

    /// Draws the horizontal wall that runs from the corner `(x, y)` to the
    /// corner `(x + 1, y)`.
    pub fn draw_horizontal_wall(&mut self, x: usize, y: usize)
        requires
            old(self).wf(),
            valid_anchor(
                old(self).width(),
                old(self).height(),
                SegmentKind::Horizontal,
                x as int,
                y as int,
            ),
        ensures
            final(self).wf(),
            final(self).width() == old(self).width(),
            final(self).height() == old(self).height(),
            final(self).drawn() == old(self).drawn().push(
                segment_at(
                    old(self).width(),
                    old(self).height(),
                    SegmentKind::Horizontal,
                    x as int,
                    y as int,
                ),
            ),
    {
        let position = Point3 {
            x: cell_center_of(self.width, x),
            y: WALL_HEIGHT,
            z: line_center_of(self.height, y),
        };
        self.segments.push(WallSegment { kind: SegmentKind::Horizontal, x, y, position });
    }

    /// Draws the vertical wall that runs from the corner `(x, y)` to the
    /// corner `(x, y + 1)`.
    pub fn draw_vertical_wall(&mut self, x: usize, y: usize)
        requires
            old(self).wf(),
            valid_anchor(
                old(self).width(),
                old(self).height(),
                SegmentKind::Vertical,
                x as int,
                y as int,
            ),
        ensures
            final(self).wf(),
            final(self).width() == old(self).width(),
            final(self).height() == old(self).height(),
            final(self).drawn() == old(self).drawn().push(
                segment_at(
                    old(self).width(),
                    old(self).height(),
                    SegmentKind::Vertical,
                    x as int,
                    y as int,
                ),
            ),
    {
        let position = Point3 {
            x: line_center_of(self.width, x),
            y: WALL_HEIGHT,
            z: cell_center_of(self.height, y),
        };
        self.segments.push(WallSegment { kind: SegmentKind::Vertical, x, y, position });
    }

    /// Hands out the segments drawn, oldest first.
    pub fn into_segments(self) -> (segments: Vec<WallSegment>)
        ensures
            segments@ == self.drawn(),
    {
        self.segments
    }
}

/// Compiles a maze graph into its geometry: every wall and post that
/// stands, each exactly once, corner by corner in row-major order.
pub fn spawn_walls(graph: &MazeGraph) -> (segments: Vec<WallSegment>)
    requires
        graph.wf(),
    ensures
        segments@ == layout(graph@),
        forall|s: WallSegment| segments@.contains(s) <==> stands(graph@, s),
        segments@.no_duplicates(),
{
    proof {
        graph.lemma_view_wf();
        lemma_layout_no_duplicates(graph@);
        assert forall|s: WallSegment| layout(graph@).contains(s) <==> stands(graph@, s) by {
            lemma_layout_contains(graph@, s);
        }
    }
    let w = graph.width();
    let h = graph.height();
    let ghost v = graph@;
    let mut ms = WallSpawner::new(h, w);
    let mut y: usize = 0;
    while y <= h
        invariant
            graph.wf(),
            v == graph@,
            v.wf(),
            w == v.width,
            h == v.height,
            y <= h + 1,
            ms.wf(),
            ms.width() == w,
            ms.height() == h,
            ms.drawn() == rows_segments(v, y as nat),
        decreases h + 1 - y,
    {
        let mut x: usize = 0;
        while x <= w
            invariant
                graph.wf(),
                v == graph@,
                v.wf(),
                w == v.width,
                h == v.height,
                y <= h,
                x <= w + 1,
                ms.wf(),
                ms.width() == w,
                ms.height() == h,
                ms.drawn() == rows_segments(v, y as nat) + row_segments(v, y as int, x as nat),
            decreases w + 1 - x,
        {
            let ghost before = ms.drawn();
            if post_at(graph, x, y) {
                ms.draw_post(x, y);
            }
            if horizontal_wall_at(graph, x, y) {
                ms.draw_horizontal_wall(x, y);
            }
            if vertical_wall_at(graph, x, y) {
                ms.draw_vertical_wall(x, y);
            }
            proof {
                assert(ms.drawn() =~= before + corner_segments(v, x as int, y as int));
                assert(ms.drawn() =~= rows_segments(v, y as nat) + row_segments(
                    v,
                    y as int,
                    (x + 1) as nat,
                ));
            }
            x += 1;
        }
        y += 1;
    }
    ms.into_segments()
}

} // verus!
