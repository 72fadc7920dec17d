use maze_pursuit::geometry::MAX_SIDE;
use maze_pursuit::graph::MazeGraph;

#[test]
fn new_graph_has_its_size_and_no_edge() {
    let g = MazeGraph::new(4, 3).unwrap();
    assert_eq!(g.width(), 4);
    assert_eq!(g.height(), 3);
    for y in 0..3 {
        for x in 0..4 {
            assert!(!g.has_edge((x, y), (x + 1, y)));
            assert!(!g.has_edge((x, y), (x, y + 1)));
        }
    }
}

#[test]
fn new_graph_rejects_empty_and_oversized_sides() {
    assert!(MazeGraph::new(0, 3).is_none());
    assert!(MazeGraph::new(3, 0).is_none());
    assert!(MazeGraph::new(MAX_SIDE + 1, 1).is_none());
    assert!(MazeGraph::new(1, MAX_SIDE + 1).is_none());
    assert!(MazeGraph::new(1, 1).is_some());
    assert!(MazeGraph::new(MAX_SIDE, 1).is_some());
}

#[test]
fn edges_are_symmetric() {
    let mut g = MazeGraph::new(4, 3).unwrap();
    assert!(g.add_edge((1, 1), (2, 1)));
    assert!(g.has_edge((1, 1), (2, 1)));
    assert!(g.has_edge((2, 1), (1, 1)));
    assert!(g.add_edge((3, 2), (3, 1)));
    assert!(g.has_edge((3, 1), (3, 2)));
    assert!(g.has_edge((3, 2), (3, 1)));
}

#[test]
fn add_edge_touches_no_other_edge() {
    let mut g = MazeGraph::new(4, 3).unwrap();
    assert!(g.add_edge((1, 1), (2, 1)));
    let mut count = 0;
    for y in 0..3 {
        for x in 0..4 {
            if g.has_edge((x, y), (x + 1, y)) {
                count += 1;
            }
            if g.has_edge((x, y), (x, y + 1)) {
                count += 1;
            }
        }
    }
    assert_eq!(count, 1);
    assert!(!g.has_edge((1, 1), (1, 2)));
    assert!(!g.has_edge((0, 1), (1, 1)));
    assert!(!g.has_edge((1, 0), (2, 0)));
}

#[test]
fn add_edge_refuses_cells_that_are_not_neighbours() {
    let mut g = MazeGraph::new(4, 3).unwrap();
    assert!(!g.add_edge((0, 0), (1, 1)));
    assert!(!g.add_edge((0, 0), (2, 0)));
    assert!(!g.add_edge((0, 0), (0, 0)));
    assert!(!g.has_edge((0, 0), (1, 1)));
    assert!(!g.has_edge((0, 0), (2, 0)));
    assert!(!g.has_edge((0, 0), (0, 0)));
}

#[test]
fn add_edge_refuses_cells_outside_the_grid() {
    let mut g = MazeGraph::new(4, 3).unwrap();
    assert!(!g.add_edge((3, 0), (4, 0)));
    assert!(!g.add_edge((0, 2), (0, 3)));
    assert!(!g.add_edge((4, 0), (3, 0)));
    assert!(!g.has_edge((3, 0), (4, 0)));
    assert!(!g.has_edge((0, 2), (0, 3)));
}

#[test]
fn add_edge_twice_changes_nothing_more() {
    let mut g = MazeGraph::new(2, 2).unwrap();
    assert!(g.add_edge((0, 0), (0, 1)));
    assert!(g.add_edge((0, 1), (0, 0)));
    assert!(g.has_edge((0, 0), (0, 1)));
    assert!(!g.has_edge((0, 0), (1, 0)));
    assert!(!g.has_edge((1, 0), (1, 1)));
    assert!(!g.has_edge((0, 1), (1, 1)));
}

#[test]
fn last_row_and_column_hold_their_edges() {
    let mut g = MazeGraph::new(3, 2).unwrap();
    assert!(g.add_edge((1, 1), (2, 1)));
    assert!(g.add_edge((2, 0), (2, 1)));
    assert!(g.has_edge((2, 1), (1, 1)));
    assert!(g.has_edge((2, 1), (2, 0)));
    assert!(!g.has_edge((0, 1), (1, 1)));
    assert!(!g.has_edge((1, 0), (1, 1)));
}
