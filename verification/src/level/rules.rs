//! Where the segments of a level stand, and in which order they are laid
//! out.

use vstd::prelude::*;
use crate::geometry::{
    cell_center, center_height, line_center, Point3, WALL_HEIGHT, WALL_LENGTH, WALL_THICKNESS,
};
use crate::graph::GraphView;
use crate::level::{BoxSize, SegmentKind, WallSegment};

verus! {

/// The box of a segment of `kind`, before it is rotated: walls are long
/// and thin, posts are square.
pub open spec fn collider_of(kind: SegmentKind) -> BoxSize {
    match kind {
        SegmentKind::Post => BoxSize { x: WALL_THICKNESS, y: WALL_HEIGHT, z: WALL_THICKNESS },
        _ => BoxSize { x: WALL_LENGTH, y: WALL_HEIGHT, z: WALL_THICKNESS },
    }
}

/// Rotation of a segment of `kind` about the vertical axis, in quarter
/// turns: vertical walls are turned by one, everything else by none.
pub open spec fn quarter_turns_of(kind: SegmentKind) -> u8 {
    match kind {
        SegmentKind::Vertical => 1u8,
        _ => 0u8,
    }
}

/// Whether `(x, y)` is an anchor at which a segment of `kind` can stand in a
/// maze of `width` by `height` cells.
pub open spec fn valid_anchor(width: int, height: int, kind: SegmentKind, x: int, y: int) -> bool {
    match kind {
        SegmentKind::Horizontal => 0 <= x < width && 0 <= y <= height,
        SegmentKind::Vertical => 0 <= x <= width && 0 <= y < height,
        SegmentKind::Post => 0 <= x <= width && 0 <= y <= height,
    }
}

/// World x of the centre of a segment of `kind` anchored at column `x`, in
/// half units.
pub open spec fn anchor_x(width: int, kind: SegmentKind, x: int) -> int {
    match kind {
        SegmentKind::Horizontal => cell_center(width, x),
        _ => line_center(width, x),
    }
}

/// World z of the centre of a segment of `kind` anchored at row `y`, in half
/// units.
pub open spec fn anchor_z(height: int, kind: SegmentKind, y: int) -> int {
    match kind {
        SegmentKind::Vertical => cell_center(height, y),
        _ => line_center(height, y),
    }
}

/// The segment of `kind` anchored at `(x, y)` in a maze of `width` by
/// `height` cells. Its position is a function of the anchor and the shared
/// dimensions alone.
pub open spec fn segment_at(
    width: int,
    height: int,
    kind: SegmentKind,
    x: int,
    y: int,
) -> WallSegment {
    WallSegment {
        kind,
        x: x as usize,
        y: y as usize,
        position: Point3 {
            x: anchor_x(width, kind, x) as i32,
            y: center_height() as i32,
            z: anchor_z(height, kind, y) as i32,
        },
    }
}

/// A horizontal wall stands at `(x, y)`: on the top and bottom of the maze
/// always, inside it where the cells above and below the line are not
/// joined by a passable edge.
pub open spec fn has_horizontal_wall(v: GraphView, x: int, y: int) -> bool {
    &&& valid_anchor(v.width, v.height, SegmentKind::Horizontal, x, y)
    &&& (y == 0 || y == v.height || !v.passable((x, y - 1), (x, y)))
}

/// A vertical wall stands at `(x, y)`: on the left and right of the maze
/// always, inside it where the cells left and right of the line are not
/// joined by a passable edge.
pub open spec fn has_vertical_wall(v: GraphView, x: int, y: int) -> bool {
    &&& valid_anchor(v.width, v.height, SegmentKind::Vertical, x, y)
    &&& (x == 0 || x == v.width || !v.passable((x - 1, y), (x, y)))
}

/// Number of wall segments that end on the corner `(x, y)`: the horizontal
/// walls left and right of it and the vertical walls above and below it.
pub open spec fn incident_walls(v: GraphView, x: int, y: int) -> int {
    (if has_horizontal_wall(v, x - 1, y) { 1int } else { 0 })
        + (if has_horizontal_wall(v, x, y) { 1int } else { 0 })
        + (if has_vertical_wall(v, x, y - 1) { 1int } else { 0 })
        + (if has_vertical_wall(v, x, y) { 1int } else { 0 })
}

/// Whether the corner `(x, y)` lies on the boundary of the maze.
pub open spec fn on_boundary(v: GraphView, x: int, y: int) -> bool {
    x == 0 || x == v.width || y == 0 || y == v.height
}

/// A post stands on the corner `(x, y)`: on the boundary always, inside the
/// maze where more than one wall ends on the corner.
pub open spec fn has_post(v: GraphView, x: int, y: int) -> bool {
    &&& valid_anchor(v.width, v.height, SegmentKind::Post, x, y)
    &&& (on_boundary(v, x, y) || incident_walls(v, x, y) > 1)
}

/// Whether a segment of `kind` stands at `(x, y)`.
pub open spec fn present(v: GraphView, kind: SegmentKind, x: int, y: int) -> bool {
    match kind {
        SegmentKind::Horizontal => has_horizontal_wall(v, x, y),
        SegmentKind::Vertical => has_vertical_wall(v, x, y),
        SegmentKind::Post => has_post(v, x, y),
    }
}

/// Whether `s` is the segment that stands on its own anchor in `v`.
pub open spec fn stands(v: GraphView, s: WallSegment) -> bool {
    &&& present(v, s.kind, s.x as int, s.y as int)
    &&& s == segment_at(v.width, v.height, s.kind, s.x as int, s.y as int)
}

/// `s` followed by the segment of `kind` at `(x, y)`, if one stands there.
pub open spec fn with_segment(
    s: Seq<WallSegment>,
    v: GraphView,
    kind: SegmentKind,
    x: int,
    y: int,
) -> Seq<WallSegment> {
    if present(v, kind, x, y) {
        s.push(segment_at(v.width, v.height, kind, x, y))
    } else {
        s
    }
}

/// The segments anchored at the corner `(x, y)`: its post, then the
/// horizontal wall that starts there, then the vertical wall that starts
/// there, each only if it stands.
pub open spec fn corner_segments(v: GraphView, x: int, y: int) -> Seq<WallSegment> {
    with_segment(
        with_segment(
            with_segment(Seq::empty(), v, SegmentKind::Post, x, y),
            v,
            SegmentKind::Horizontal,
            x,
            y,
        ),
        v,
        SegmentKind::Vertical,
        x,
        y,
    )
}

/// The segments anchored at the first `n` corners of row `y`, left to right.
pub open spec fn row_segments(v: GraphView, y: int, n: nat) -> Seq<WallSegment>
    decreases n,
{
    if n == 0 {
        Seq::empty()
    } else {
        row_segments(v, y, (n - 1) as nat) + corner_segments(v, n - 1, y)
    }
}

/// The segments anchored in the first `m` rows of corners, top to bottom.
pub open spec fn rows_segments(v: GraphView, m: nat) -> Seq<WallSegment>
    decreases m,
{
    if m == 0 {
        Seq::empty()
    } else {
        rows_segments(v, (m - 1) as nat) + row_segments(v, m - 1, (v.width + 1) as nat)
    }
}

/// The geometry of a maze: every segment that stands, corner by corner in
/// row-major order.
pub open spec fn layout(v: GraphView) -> Seq<WallSegment> {
    rows_segments(v, (v.height + 1) as nat)
}

/// Whether some entry of `segments` has this kind and this anchor.
pub open spec fn drawn_at(segments: Seq<WallSegment>, kind: SegmentKind, x: int, y: int) -> bool {
    exists|i: int|
        0 <= i < segments.len() && (#[trigger] segments[i]).kind == kind && segments[i].x == x
            && segments[i].y == y
}

/// Number of walls in `segments` that end on the corner `(x, y)`.
pub open spec fn drawn_incident_walls(segments: Seq<WallSegment>, x: int, y: int) -> int {
    (if drawn_at(segments, SegmentKind::Horizontal, x - 1, y) { 1int } else { 0 })
        + (if drawn_at(segments, SegmentKind::Horizontal, x, y) { 1int } else { 0 })
        + (if drawn_at(segments, SegmentKind::Vertical, x, y - 1) { 1int } else { 0 })
        + (if drawn_at(segments, SegmentKind::Vertical, x, y) { 1int } else { 0 })
}

/// Distance from the centre of a segment of `kind` to its faces along the
/// world x axis, in half units.
pub open spec fn reach_x(kind: SegmentKind) -> int {
    match kind {
        SegmentKind::Horizontal => WALL_LENGTH as int,
        _ => WALL_THICKNESS as int,
    }
}

/// Distance from the centre of a segment of `kind` to its faces along the
/// world z axis, in half units.
pub open spec fn reach_z(kind: SegmentKind) -> int {
    match kind {
        SegmentKind::Vertical => WALL_LENGTH as int,
        _ => WALL_THICKNESS as int,
    }
}

impl WallSegment {
    /// Smallest world x that the segment's box covers, in half units.
    pub open spec fn min_x(self) -> int {
        self.position.x - reach_x(self.kind)
    }

    /// Largest world x that the segment's box covers, in half units.
    pub open spec fn max_x(self) -> int {
        self.position.x + reach_x(self.kind)
    }

    /// Smallest world z that the segment's box covers, in half units.
    pub open spec fn min_z(self) -> int {
        self.position.z - reach_z(self.kind)
    }

    /// Largest world z that the segment's box covers, in half units.
    pub open spec fn max_z(self) -> int {
        self.position.z + reach_z(self.kind)
    }

    /// Whether the boxes of two segments share more than their faces.
    pub open spec fn overlaps(self, other: WallSegment) -> bool {
        &&& self.min_x() < other.max_x()
        &&& other.min_x() < self.max_x()
        &&& self.min_z() < other.max_z()
        &&& other.min_z() < self.max_z()
    }
}

} // verus!
