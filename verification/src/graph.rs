//! The maze as a graph: a grid of cells and the passable edges between
//! neighbouring cells.

use vstd::prelude::*;
use crate::geometry::MAX_SIDE;

verus! {

/// What a maze graph is, mathematically: its size and its set of passable
/// edges. An edge between two cells is held in both directions.
pub struct GraphView {
    pub width: int,
    pub height: int,
    pub edges: Set<((int, int), (int, int))>,
}

/// Whether two cells are neighbours on the grid: one step apart along one axis.
pub open spec fn adjacent(a: (int, int), b: (int, int)) -> bool {
    ||| a.1 == b.1 && (a.0 + 1 == b.0 || b.0 + 1 == a.0)
    ||| a.0 == b.0 && (a.1 + 1 == b.1 || b.1 + 1 == a.1)
}

impl GraphView {
    /// Whether `c` is a cell of the grid.
    pub open spec fn has_cell(self, c: (int, int)) -> bool {
        0 <= c.0 < self.width && 0 <= c.1 < self.height
    }

    /// Whether `a` and `b` are joined by a passable edge.
    pub open spec fn passable(self, a: (int, int), b: (int, int)) -> bool {
        self.edges.contains((a, b))
    }

    /// The graph is well formed: both sides are positive and within
    /// [`MAX_SIDE`], every edge joins two neighbouring cells of the grid, and
    /// the edge relation is symmetric.
    pub open spec fn wf(self) -> bool {
        &&& 1 <= self.width <= MAX_SIDE
        &&& 1 <= self.height <= MAX_SIDE
        &&& forall|a: (int, int), b: (int, int)| #[trigger]
            self.edges.contains((a, b)) ==> {
                &&& self.has_cell(a)
                &&& self.has_cell(b)
                &&& adjacent(a, b)
                &&& self.edges.contains((b, a))
            }
    }
}

/// A maze graph over `width` by `height` cells. Cell `(x, y)` has
/// `0 <= x < width` and `0 <= y < height`.
pub struct MazeGraph {
    width: usize,
    height: usize,
    /// `east[y * width + x]`: the edge between `(x, y)` and `(x + 1, y)`.
    east: Vec<bool>,
    /// `south[y * width + x]`: the edge between `(x, y)` and `(x, y + 1)`.
    south: Vec<bool>,
}

/// Position of cell `(x, y)` in a row-major table of rows `width` long.
spec fn slot(width: int, c: (int, int)) -> int {
    c.1 * width + c.0
}

proof fn lemma_slot_bound(width: int, height: int, c: (int, int))
    requires
        0 <= c.0 < width,
        0 <= c.1 < height,
    ensures
        0 <= slot(width, c) < width * height,
{
    assert(c.1 * width + width <= height * width) by (nonlinear_arith)
        requires
            0 <= c.1 < height,
            0 < width,
    ;
    assert(0 <= c.1 * width) by (nonlinear_arith)
        requires
            0 <= c.1,
            0 < width,
    ;
    assert(height * width == width * height) by (nonlinear_arith);
}

proof fn lemma_slot_injective(width: int, c: (int, int), d: (int, int))
    requires
        0 <= c.0 < width,
        0 <= d.0 < width,
    ensures
        slot(width, c) == slot(width, d) ==> c == d,
{
    if c.1 < d.1 {
        assert(c.1 * width + width <= d.1 * width) by (nonlinear_arith)
            requires
                c.1 < d.1,
                0 < width,
        ;
    } else if d.1 < c.1 {
        assert(d.1 * width + width <= c.1 * width) by (nonlinear_arith)
            requires
                d.1 < c.1,
                0 < width,
        ;
    }
}

/// Computes [`slot`] for a cell of a `width` by `height` grid.
fn slot_of(width: usize, height: usize, x: usize, y: usize) -> (i: usize)
    requires
        x < width <= MAX_SIDE,
        y < height <= MAX_SIDE,
    ensures
        i == slot(width as int, (x as int, y as int)),
        i < width * height,
{
    proof {
        lemma_slot_bound(width as int, height as int, (x as int, y as int));
        assert(width * height <= MAX_SIDE * MAX_SIDE) by (nonlinear_arith)
            requires
                width <= MAX_SIDE,
                height <= MAX_SIDE,
        ;
    }
    y * width + x
}

impl MazeGraph {
    /// The representation is sound: both sides are positive and within
    /// [`MAX_SIDE`], and each table holds one entry for every cell. Every
    /// graph that `new` returns is well formed, and every method keeps it so.
    pub closed spec fn wf(self) -> bool {
        &&& 1 <= self.width <= MAX_SIDE
        &&& 1 <= self.height <= MAX_SIDE
        &&& self.east@.len() == self.width * self.height
        &&& self.south@.len() == self.width * self.height
    }

    /// Whether the tables record an edge between `a` and `b`, taken as
    /// neighbouring cells of the grid.
    spec fn recorded(self, a: (int, int), b: (int, int)) -> bool {
        let w = self.width as int;
        if a.1 == b.1 && a.0 + 1 == b.0 {
            self.east@[slot(w, a)]
        } else if a.1 == b.1 && b.0 + 1 == a.0 {
            self.east@[slot(w, b)]
        } else if a.0 == b.0 && a.1 + 1 == b.1 {
            self.south@[slot(w, a)]
        } else if a.0 == b.0 && b.1 + 1 == a.1 {
            self.south@[slot(w, b)]
        } else {
            false
        }
    }

    spec fn in_grid(self, c: (int, int)) -> bool {
        0 <= c.0 < self.width && 0 <= c.1 < self.height
    }
}

impl View for MazeGraph {
    type V = GraphView;

    closed spec fn view(&self) -> GraphView {
        GraphView {
            width: self.width as int,
            height: self.height as int,
            edges: Set::new(
                |p: ((int, int), (int, int))|
                    self.in_grid(p.0) && self.in_grid(p.1) && self.recorded(p.0, p.1),
            ),
        }
    }
}

impl MazeGraph {
    /// A graph of `width` by `height` cells with no passable edge. `None`
    /// when a side is zero or longer than [`MAX_SIDE`].
    pub fn new(width: usize, height: usize) -> (g: Option<MazeGraph>)
        ensures
            g.is_some() <==> 1 <= width <= MAX_SIDE && 1 <= height <= MAX_SIDE,
            g matches Some(g) ==> {
                &&& g@.width == width
                &&& g@.height == height
                &&& g@.edges == Set::<((int, int), (int, int))>::empty()
                &&& g.wf()
            },
    {
        if width == 0 || width > MAX_SIDE || height == 0 || height > MAX_SIDE {
            return None;
        }
        assert(width * height <= MAX_SIDE * MAX_SIDE) by (nonlinear_arith)
            requires
                width <= MAX_SIDE,
                height <= MAX_SIDE,
        ;
        let cells: usize = width * height;
        let mut east: Vec<bool> = Vec::new();
        let mut south: Vec<bool> = Vec::new();
        let mut i: usize = 0;
        while i < cells
            invariant
                i <= cells,
                east@.len() == i,
                south@.len() == i,
                forall|k: int| 0 <= k < i ==> !east@[k] && !south@[k],
            decreases cells - i,
        {
            east.push(false);
            south.push(false);
            i += 1;
        }
        let g = MazeGraph { width, height, east, south };
        proof {
            assert forall|p: ((int, int), (int, int))| !g@.edges.contains(p) by {
                if g.in_grid(p.0) && g.in_grid(p.1) {
                    lemma_slot_bound(width as int, height as int, p.0);
                    lemma_slot_bound(width as int, height as int, p.1);
                }
            }
            assert(g@.edges =~= Set::<((int, int), (int, int))>::empty());
        }
        Some(g)
    }

    /// Number of cells along the x axis.
    pub fn width(&self) -> (w: usize)
        ensures
            w == self@.width,
    {
        self.width
    }

    /// Number of cells along the y axis.
    pub fn height(&self) -> (h: usize)
        ensures
            h == self@.height,
    {
        self.height
    }

    /// Whether cells `a` and `b` are joined by a passable edge. Cells outside
    /// the grid, and cells that are not neighbours, are joined by none.
    pub fn has_edge(&self, a: (usize, usize), b: (usize, usize)) -> (r: bool)
        requires
            self.wf(),
        ensures
            r == self@.passable((a.0 as int, a.1 as int), (b.0 as int, b.1 as int)),
    {
        let w = self.width;
        let h = self.height;
        if a.0 >= w || a.1 >= h || b.0 >= w || b.1 >= h {
            return false;
        }
        let ia = slot_of(w, h, a.0, a.1);
        let ib = slot_of(w, h, b.0, b.1);
        if a.1 == b.1 && a.0 + 1 == b.0 {
            self.east[ia]
        } else if a.1 == b.1 && b.0 + 1 == a.0 {
            self.east[ib]
        } else if a.0 == b.0 && a.1 + 1 == b.1 {
            self.south[ia]
        } else if a.0 == b.0 && b.1 + 1 == a.1 {
            self.south[ib]
        } else {
            false
        }
    }

    /// Makes the edge between `a` and `b` passable, in both directions.
    /// Returns whether `a` and `b` are neighbouring cells of the grid; when
    /// they are not, the graph is left as it was.
    pub fn add_edge(&mut self, a: (usize, usize), b: (usize, usize)) -> (added: bool)
        requires
            old(self).wf(),
        ensures
            final(self).wf(),
            added == {
                &&& old(self)@.has_cell((a.0 as int, a.1 as int))
                &&& old(self)@.has_cell((b.0 as int, b.1 as int))
                &&& adjacent((a.0 as int, a.1 as int), (b.0 as int, b.1 as int))
            },
            final(self)@.width == old(self)@.width,
            final(self)@.height == old(self)@.height,
            added ==> final(self)@.edges == old(self)@.edges.insert(
                ((a.0 as int, a.1 as int), (b.0 as int, b.1 as int)),
            ).insert(((b.0 as int, b.1 as int), (a.0 as int, a.1 as int))),
            !added ==> final(self)@.edges == old(self)@.edges,
    {
        let w = self.width;
        let h = self.height;
        if a.0 >= w || a.1 >= h || b.0 >= w || b.1 >= h {
            return false;
        }
        let ghost ga = (a.0 as int, a.1 as int);
        let ghost gb = (b.0 as int, b.1 as int);
        let ia = slot_of(w, h, a.0, a.1);
        let ib = slot_of(w, h, b.0, b.1);
        let ghost before = *self;
        let added = if a.1 == b.1 && a.0 + 1 == b.0 {
            self.east.set(ia, true);
            true
        } else if a.1 == b.1 && b.0 + 1 == a.0 {
            self.east.set(ib, true);
            true
        } else if a.0 == b.0 && a.1 + 1 == b.1 {
            self.south.set(ia, true);
            true
        } else if a.0 == b.0 && b.1 + 1 == a.1 {
            self.south.set(ib, true);
            true
        } else {
            false
        };
        proof {
            if added {
                let wanted = before@.edges.insert((ga, gb)).insert((gb, ga));
                assert forall|p: ((int, int), (int, int))|
                    self@.edges.contains(p) == wanted.contains(p) by {
                    if self.in_grid(p.0) && self.in_grid(p.1) {
                        lemma_slot_bound(w as int, h as int, p.0);
                        lemma_slot_bound(w as int, h as int, p.1);
                        lemma_slot_injective(w as int, p.0, ga);
                        lemma_slot_injective(w as int, p.0, gb);
                        lemma_slot_injective(w as int, p.1, ga);
                        lemma_slot_injective(w as int, p.1, gb);
                    }
                }
                assert(self@.edges =~= wanted);
            }
        }
        added
    }

    /// The view of a well-formed graph is a well-formed graph: its edges
    /// join neighbouring cells of the grid, in both directions.
    pub proof fn lemma_view_wf(self)
        requires
            self.wf(),
        ensures
            self@.wf(),
    {
    }
}

} // verus!
