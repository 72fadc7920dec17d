//! What holds of the geometry of every maze: which segments it has, that
//! none is placed twice, that none overlaps another, that the perimeter is
//! closed and that the whole is centred on the origin.

use vstd::prelude::*;
use crate::geometry::{
    center_height, lemma_center_values, lemma_centers_within_extent, maze_extent, MAX_SIDE,
};
use crate::graph::GraphView;
use crate::level::rules::{
    anchor_x, anchor_z, collider_of, corner_segments, drawn_at, drawn_incident_walls,
    incident_walls, layout, on_boundary, present, quarter_turns_of, reach_x, reach_z,
    row_segments, rows_segments, segment_at, stands, valid_anchor, with_segment,
};
use crate::level::{SegmentKind, WallSegment};

verus! {

/// The fields of a segment that stands on a valid anchor: the casts in
/// [`segment_at`] lose nothing.
pub proof fn lemma_segment_at_fields(width: int, height: int, kind: SegmentKind, x: int, y: int)
    requires
        1 <= width <= MAX_SIDE,
        1 <= height <= MAX_SIDE,
        valid_anchor(width, height, kind, x, y),
    ensures
        segment_at(width, height, kind, x, y).kind == kind,
        segment_at(width, height, kind, x, y).x == x,
        segment_at(width, height, kind, x, y).y == y,
        segment_at(width, height, kind, x, y).position.x == anchor_x(width, kind, x),
        segment_at(width, height, kind, x, y).position.y == center_height(),
        segment_at(width, height, kind, x, y).position.z == anchor_z(height, kind, y),
{
    lemma_centers_within_extent(width, if x < width { x } else { width });
    lemma_centers_within_extent(height, if y < height { y } else { height });
}

proof fn lemma_corner_contains(v: GraphView, x: int, y: int, s: WallSegment)
    requires
        v.wf(),
        0 <= x <= v.width,
        0 <= y <= v.height,
    ensures
        corner_segments(v, x, y).contains(s) <==> s.x == x && s.y == y && stands(v, s),
{
    broadcast use {
        vstd::seq_lib::lemma_seq_contains_after_push,
        vstd::seq_lib::lemma_seq_empty_contains_nothing,
    };

    let s0 = Seq::<WallSegment>::empty();
    let s1 = with_segment(s0, v, SegmentKind::Post, x, y);
    let s2 = with_segment(s1, v, SegmentKind::Horizontal, x, y);
    let s3 = with_segment(s2, v, SegmentKind::Vertical, x, y);
    assert(s3 == corner_segments(v, x, y));
    if present(v, SegmentKind::Post, x, y) {
        lemma_segment_at_fields(v.width, v.height, SegmentKind::Post, x, y);
    }
    if present(v, SegmentKind::Horizontal, x, y) {
        lemma_segment_at_fields(v.width, v.height, SegmentKind::Horizontal, x, y);
    }
    if present(v, SegmentKind::Vertical, x, y) {
        lemma_segment_at_fields(v.width, v.height, SegmentKind::Vertical, x, y);
    }
}

proof fn lemma_row_contains(v: GraphView, y: int, n: nat, s: WallSegment)
    requires
        v.wf(),
        0 <= y <= v.height,
        n <= v.width + 1,
    ensures
        row_segments(v, y, n).contains(s) <==> s.x < n && s.y == y && stands(v, s),
    decreases n,
{
    broadcast use {
        vstd::seq_lib::lemma_seq_concat_contains_all_elements,
        vstd::seq_lib::lemma_seq_empty_contains_nothing,
    };

    if n > 0 {
        lemma_row_contains(v, y, (n - 1) as nat, s);
        lemma_corner_contains(v, n - 1, y, s);
    }
}

proof fn lemma_rows_contains(v: GraphView, m: nat, s: WallSegment)
    requires
        v.wf(),
        m <= v.height + 1,
    ensures
        rows_segments(v, m).contains(s) <==> s.y < m && stands(v, s),
    decreases m,
{
    broadcast use {
        vstd::seq_lib::lemma_seq_concat_contains_all_elements,
        vstd::seq_lib::lemma_seq_empty_contains_nothing,
    };

    if m > 0 {
        lemma_rows_contains(v, (m - 1) as nat, s);
        lemma_row_contains(v, m - 1, (v.width + 1) as nat, s);
    }
}

/// The geometry of a maze holds exactly the segments that stand: a segment
/// is part of it if and only if the rules place a segment of its kind on
/// its anchor, and its position is the one its anchor gives.
pub proof fn lemma_layout_contains(v: GraphView, s: WallSegment)
    requires
        v.wf(),
    ensures
        layout(v).contains(s) <==> stands(v, s),
{
    lemma_rows_contains(v, (v.height + 1) as nat, s);
}

proof fn lemma_corner_no_duplicates(v: GraphView, x: int, y: int)
    requires
        v.wf(),
        0 <= x <= v.width,
        0 <= y <= v.height,
    ensures
        corner_segments(v, x, y).no_duplicates(),
{
    let s0 = Seq::<WallSegment>::empty();
    let s1 = with_segment(s0, v, SegmentKind::Post, x, y);
    let s2 = with_segment(s1, v, SegmentKind::Horizontal, x, y);
    let s3 = with_segment(s2, v, SegmentKind::Vertical, x, y);
    assert(s3 == corner_segments(v, x, y));
    assert(forall|i: int| 0 <= i < s1.len() ==> s1[i].kind == SegmentKind::Post);
    assert(forall|i: int| 0 <= i < s2.len() ==> s2[i].kind != SegmentKind::Vertical);
}

proof fn lemma_row_no_duplicates(v: GraphView, y: int, n: nat)
    requires
        v.wf(),
        0 <= y <= v.height,
        n <= v.width + 1,
    ensures
        row_segments(v, y, n).no_duplicates(),
    decreases n,
{
    if n > 0 {
        let a = row_segments(v, y, (n - 1) as nat);
        let b = corner_segments(v, n - 1, y);
        lemma_row_no_duplicates(v, y, (n - 1) as nat);
        lemma_corner_no_duplicates(v, n - 1, y);
        assert forall|i: int, j: int| 0 <= i < a.len() && 0 <= j < b.len() implies a[i] != b[j] by {
            assert(a.contains(a[i]));
            assert(b.contains(b[j]));
            lemma_row_contains(v, y, (n - 1) as nat, a[i]);
            lemma_corner_contains(v, n - 1, y, b[j]);
        }
        vstd::seq_lib::lemma_no_dup_in_concat(a, b);
    }
}

proof fn lemma_rows_no_duplicates(v: GraphView, m: nat)
    requires
        v.wf(),
        m <= v.height + 1,
    ensures
        rows_segments(v, m).no_duplicates(),
    decreases m,
{
    if m > 0 {
        let a = rows_segments(v, (m - 1) as nat);
        let b = row_segments(v, m - 1, (v.width + 1) as nat);
        lemma_rows_no_duplicates(v, (m - 1) as nat);
        lemma_row_no_duplicates(v, m - 1, (v.width + 1) as nat);
        assert forall|i: int, j: int| 0 <= i < a.len() && 0 <= j < b.len() implies a[i] != b[j] by {
            assert(a.contains(a[i]));
            assert(b.contains(b[j]));
            lemma_rows_contains(v, (m - 1) as nat, a[i]);
            lemma_row_contains(v, m - 1, (v.width + 1) as nat, b[j]);
        }
        vstd::seq_lib::lemma_no_dup_in_concat(a, b);
    }
}

/// No segment is placed twice: two entries of the geometry never share
/// kind and anchor.
pub proof fn lemma_layout_no_duplicates(v: GraphView)
    requires
        v.wf(),
    ensures
        layout(v).no_duplicates(),
        forall|i: int, j: int|
            0 <= i < layout(v).len() && 0 <= j < layout(v).len() && i != j ==> !{
                &&& (#[trigger] layout(v)[i]).kind == (#[trigger] layout(v)[j]).kind
                &&& layout(v)[i].x == layout(v)[j].x
                &&& layout(v)[i].y == layout(v)[j].y
            },
{
    let l = layout(v);
    lemma_rows_no_duplicates(v, (v.height + 1) as nat);
    assert forall|i: int, j: int| 0 <= i < l.len() && 0 <= j < l.len() && i != j implies !{
        &&& (#[trigger] l[i]).kind == (#[trigger] l[j]).kind
        &&& l[i].x == l[j].x
        &&& l[i].y == l[j].y
    } by {
        assert(l.contains(l[i]));
        assert(l.contains(l[j]));
        lemma_layout_contains(v, l[i]);
        lemma_layout_contains(v, l[j]);
    }
}

/// A segment of a kind is part of the geometry at an anchor exactly when
/// the rules place one there; nothing is drawn off the grid.
pub proof fn lemma_drawn_iff_present(v: GraphView, kind: SegmentKind, x: int, y: int)
    requires
        v.wf(),
    ensures
        drawn_at(layout(v), kind, x, y) <==> present(v, kind, x, y),
{
    let l = layout(v);
    if present(v, kind, x, y) {
        let s = segment_at(v.width, v.height, kind, x, y);
        lemma_segment_at_fields(v.width, v.height, kind, x, y);
        lemma_layout_contains(v, s);
        let i = choose|i: int| 0 <= i < l.len() && l[i] == s;
        assert(l[i].kind == kind && l[i].x == x && l[i].y == y);
    }
    if drawn_at(l, kind, x, y) {
        let i = choose|i: int|
            0 <= i < l.len() && (#[trigger] l[i]).kind == kind && l[i].x == x && l[i].y == y;
        assert(l.contains(l[i]));
        lemma_layout_contains(v, l[i]);
    }
}

/// Walls follow the edges of the graph. On every grid line within the
/// maze, a wall is drawn if and only if the line lies on the perimeter or
/// the two cells it separates are not joined by a passable edge.
pub proof fn lemma_walls_follow_edges(v: GraphView, x: int, y: int)
    requires
        v.wf(),
    ensures
        0 <= x < v.width && 0 <= y <= v.height ==> (drawn_at(
            layout(v),
            SegmentKind::Horizontal,
            x,
            y,
        ) <==> y == 0 || y == v.height || !v.passable((x, y - 1), (x, y))),
        0 <= x <= v.width && 0 <= y < v.height ==> (drawn_at(
            layout(v),
            SegmentKind::Vertical,
            x,
            y,
        ) <==> x == 0 || x == v.width || !v.passable((x - 1, y), (x, y))),
{
    lemma_drawn_iff_present(v, SegmentKind::Horizontal, x, y);
    lemma_drawn_iff_present(v, SegmentKind::Vertical, x, y);
}

/// Posts mark the junctions. On a corner of the boundary a post is drawn
/// whatever the edges are. On a corner inside the maze a post is drawn if
/// and only if at least two of the walls drawn end on it; one wall that
/// ends there alone gets no post, and neither does an open corner.
pub proof fn lemma_posts_mark_junctions(v: GraphView, x: int, y: int)
    requires
        v.wf(),
        0 <= x <= v.width,
        0 <= y <= v.height,
    ensures
        drawn_incident_walls(layout(v), x, y) == incident_walls(v, x, y),
        on_boundary(v, x, y) ==> drawn_at(layout(v), SegmentKind::Post, x, y),
        !on_boundary(v, x, y) ==> (drawn_at(layout(v), SegmentKind::Post, x, y)
            <==> drawn_incident_walls(layout(v), x, y) >= 2),
        !on_boundary(v, x, y) && drawn_incident_walls(layout(v), x, y) == 1 ==> !drawn_at(
            layout(v),
            SegmentKind::Post,
            x,
            y,
        ),
{
    lemma_drawn_iff_present(v, SegmentKind::Post, x, y);
    lemma_drawn_iff_present(v, SegmentKind::Horizontal, x - 1, y);
    lemma_drawn_iff_present(v, SegmentKind::Horizontal, x, y);
    lemma_drawn_iff_present(v, SegmentKind::Vertical, x, y - 1);
    lemma_drawn_iff_present(v, SegmentKind::Vertical, x, y);
}

/// The perimeter has no gap: every wall and every post of the four sides
/// of the maze is drawn, whatever the edges are.
pub proof fn lemma_perimeter_closed(v: GraphView)
    requires
        v.wf(),
    ensures
        forall|x: int|
            0 <= x < v.width ==> #[trigger] drawn_at(layout(v), SegmentKind::Horizontal, x, 0),
        forall|x: int|
            0 <= x < v.width ==> #[trigger] drawn_at(
                layout(v),
                SegmentKind::Horizontal,
                x,
                v.height,
            ),
        forall|y: int|
            0 <= y < v.height ==> #[trigger] drawn_at(layout(v), SegmentKind::Vertical, 0, y),
        forall|y: int|
            0 <= y < v.height ==> #[trigger] drawn_at(
                layout(v),
                SegmentKind::Vertical,
                v.width,
                y,
            ),
        forall|x: int, y: int|
            0 <= x <= v.width && 0 <= y <= v.height && on_boundary(v, x, y) ==> #[trigger] drawn_at(
                layout(v),
                SegmentKind::Post,
                x,
                y,
            ),
{
    assert forall|x: int| 0 <= x < v.width implies #[trigger] drawn_at(
        layout(v),
        SegmentKind::Horizontal,
        x,
        0,
    ) by {
        lemma_drawn_iff_present(v, SegmentKind::Horizontal, x, 0);
    }
    assert forall|x: int| 0 <= x < v.width implies #[trigger] drawn_at(
        layout(v),
        SegmentKind::Horizontal,
        x,
        v.height,
    ) by {
        lemma_drawn_iff_present(v, SegmentKind::Horizontal, x, v.height);
    }
    assert forall|y: int| 0 <= y < v.height implies #[trigger] drawn_at(
        layout(v),
        SegmentKind::Vertical,
        0,
        y,
    ) by {
        lemma_drawn_iff_present(v, SegmentKind::Vertical, 0, y);
    }
    assert forall|y: int| 0 <= y < v.height implies #[trigger] drawn_at(
        layout(v),
        SegmentKind::Vertical,
        v.width,
        y,
    ) by {
        lemma_drawn_iff_present(v, SegmentKind::Vertical, v.width, y);
    }
    assert forall|x: int, y: int|
        0 <= x <= v.width && 0 <= y <= v.height && on_boundary(v, x, y) implies #[trigger] drawn_at(
        layout(v),
        SegmentKind::Post,
        x,
        y,
    ) by {
        lemma_drawn_iff_present(v, SegmentKind::Post, x, y);
    }
}

/// The box that a segment covers in the world is its collider, turned as
/// its placement says: a quarter turn swaps the collider's x and z sizes.
pub proof fn lemma_reach_matches_collider(kind: SegmentKind)
    ensures
        quarter_turns_of(kind) == 0 ==> reach_x(kind) == collider_of(kind).x && reach_z(kind)
            == collider_of(kind).z,
        quarter_turns_of(kind) == 1 ==> reach_x(kind) == collider_of(kind).z && reach_z(kind)
            == collider_of(kind).x,
        quarter_turns_of(kind) == 0 || quarter_turns_of(kind) == 1,
{
}

/// Walls and posts leave no gap between them: a wall begins at the face of
/// the post on the corner where it starts and ends at the face of the post
/// on the corner where it ends, and it is as thick as the posts are.
pub proof fn lemma_walls_abut_posts(width: int, height: int, x: int, y: int)
    requires
        1 <= width <= MAX_SIDE,
        1 <= height <= MAX_SIDE,
        0 <= x <= width,
        0 <= y <= height,
    ensures
        x < width ==> {
            let wall = segment_at(width, height, SegmentKind::Horizontal, x, y);
            let from = segment_at(width, height, SegmentKind::Post, x, y);
            let to = segment_at(width, height, SegmentKind::Post, x + 1, y);
            &&& wall.min_x() == from.max_x()
            &&& wall.max_x() == to.min_x()
            &&& wall.min_z() == from.min_z()
            &&& wall.max_z() == from.max_z()
        },
        y < height ==> {
            let wall = segment_at(width, height, SegmentKind::Vertical, x, y);
            let from = segment_at(width, height, SegmentKind::Post, x, y);
            let to = segment_at(width, height, SegmentKind::Post, x, y + 1);
            &&& wall.min_z() == from.max_z()
            &&& wall.max_z() == to.min_z()
            &&& wall.min_x() == from.min_x()
            &&& wall.max_x() == from.max_x()
        },
{
    lemma_segment_at_fields(width, height, SegmentKind::Post, x, y);
    lemma_center_values(width, x);
    lemma_center_values(height, y);
    if x < width {
        lemma_segment_at_fields(width, height, SegmentKind::Horizontal, x, y);
        lemma_segment_at_fields(width, height, SegmentKind::Post, x + 1, y);
        lemma_center_values(width, x + 1);
    }
    if y < height {
        lemma_segment_at_fields(width, height, SegmentKind::Vertical, x, y);
        lemma_segment_at_fields(width, height, SegmentKind::Post, x, y + 1);
        lemma_center_values(height, y + 1);
    }
}

/// No two segments of the geometry overlap: the boxes of two entries meet
/// at most in a face.
pub proof fn lemma_no_overlap(v: GraphView, i: int, j: int)
    requires
        v.wf(),
        0 <= i < layout(v).len(),
        0 <= j < layout(v).len(),
        i != j,
    ensures
        !layout(v)[i].overlaps(layout(v)[j]),
{
    let l = layout(v);
    let a = l[i];
    let b = l[j];
    lemma_layout_no_duplicates(v);
    assert(l.contains(a));
    assert(l.contains(b));
    lemma_layout_contains(v, a);
    lemma_layout_contains(v, b);
    lemma_segment_at_fields(v.width, v.height, a.kind, a.x as int, a.y as int);
    lemma_segment_at_fields(v.width, v.height, b.kind, b.x as int, b.y as int);
    lemma_center_values(v.width, a.x as int);
    lemma_center_values(v.width, b.x as int);
    lemma_center_values(v.height, a.y as int);
    lemma_center_values(v.height, b.y as int);
}

/// The geometry is centred on the origin of the horizontal plane. Every
/// segment lies within the maze's extent on either side of the origin, and
/// the posts on two opposite corners of the maze reach that extent, so the
/// bounding box of the geometry is the same on both sides of each axis.
pub proof fn lemma_geometry_centered(v: GraphView)
    requires
        v.wf(),
    ensures
        forall|i: int|
            0 <= i < layout(v).len() ==> {
                &&& -maze_extent(v.width) <= (#[trigger] layout(v)[i]).min_x()
                &&& layout(v)[i].max_x() <= maze_extent(v.width)
                &&& -maze_extent(v.height) <= layout(v)[i].min_z()
                &&& layout(v)[i].max_z() <= maze_extent(v.height)
            },
        exists|i: int|
            0 <= i < layout(v).len() && (#[trigger] layout(v)[i]).min_x() == -maze_extent(v.width)
                && layout(v)[i].min_z() == -maze_extent(v.height),
        exists|i: int|
            0 <= i < layout(v).len() && (#[trigger] layout(v)[i]).max_x() == maze_extent(v.width)
                && layout(v)[i].max_z() == maze_extent(v.height),
{
    let l = layout(v);
    assert forall|i: int| 0 <= i < l.len() implies {
        &&& -maze_extent(v.width) <= (#[trigger] l[i]).min_x()
        &&& l[i].max_x() <= maze_extent(v.width)
        &&& -maze_extent(v.height) <= l[i].min_z()
        &&& l[i].max_z() <= maze_extent(v.height)
    } by {
        let s = l[i];
        assert(l.contains(s));
        lemma_layout_contains(v, s);
        lemma_segment_at_fields(v.width, v.height, s.kind, s.x as int, s.y as int);
        lemma_centers_within_extent(v.width, if s.x < v.width { s.x as int } else { v.width });
        lemma_centers_within_extent(v.height, if s.y < v.height { s.y as int } else { v.height });
    }
    let first = segment_at(v.width, v.height, SegmentKind::Post, 0, 0);
    lemma_segment_at_fields(v.width, v.height, SegmentKind::Post, 0, 0);
    lemma_layout_contains(v, first);
    let i0 = choose|i: int| 0 <= i < l.len() && l[i] == first;
    lemma_center_values(v.width, 0);
    lemma_center_values(v.height, 0);
    assert(l[i0].min_x() == -maze_extent(v.width) && l[i0].min_z() == -maze_extent(v.height));
    let last = segment_at(v.width, v.height, SegmentKind::Post, v.width, v.height);
    lemma_segment_at_fields(v.width, v.height, SegmentKind::Post, v.width, v.height);
    lemma_layout_contains(v, last);
    let i1 = choose|i: int| 0 <= i < l.len() && l[i] == last;
    lemma_center_values(v.width, v.width);
    lemma_center_values(v.height, v.height);
    assert(l[i1].max_x() == maze_extent(v.width) && l[i1].max_z() == maze_extent(v.height));
}

/// The geometry is a function of the maze's size and of its set of
/// passable edges, and of nothing else: two graphs that agree on these
/// compile to the same segments in the same order.
pub proof fn lemma_layout_deterministic(v1: GraphView, v2: GraphView)
    requires
        v1.width == v2.width,
        v1.height == v2.height,
        forall|a: (int, int), b: (int, int)| v1.passable(a, b) == v2.passable(a, b),
    ensures
        layout(v1) == layout(v2),
{
    assert forall|p: ((int, int), (int, int))| v1.edges.contains(p) == v2.edges.contains(p) by {
        assert(v1.passable(p.0, p.1) == v2.passable(p.0, p.1));
    }
    assert(v1.edges =~= v2.edges);
}

} // verus!
