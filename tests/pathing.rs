use ninja_clown_bot::map::{Cell, CellKind, CellPos, GridMap, InteractionKind};
use ninja_clown_bot::path::PathGraph;

fn grid(width: usize, height: usize, rows: &[&str]) -> GridMap {
    let mut cells = Vec::new();
    for row in rows {
        for ch in row.chars() {
            let kind = match ch {
                '#' => CellKind::Wall,
                'O' => CellKind::Chasm,
                '.' => CellKind::Unknown,
                _ => CellKind::Ground,
            };
            let interaction = if ch == 'B' {
                InteractionKind::WalkOnGround
            } else {
                InteractionKind::NoInteraction
            };
            cells.push(Cell::new(kind, interaction));
        }
    }
    GridMap::new(width, height, cells)
}

fn pos(column: usize, line: usize) -> CellPos {
    CellPos::new(column, line)
}

fn step_cost(graph: &PathGraph, from: CellPos, to: CellPos) -> Option<u64> {
    graph.successors(&from).into_iter().find(|(p, _)| *p == to).map(|(_, c)| c)
}

fn route_cost(graph: &PathGraph, start: CellPos, route: &[CellPos]) -> u64 {
    let mut total = 0;
    let mut at = start;
    for next in route {
        total += step_cost(graph, at, *next).expect("route follows edges");
        at = *next;
    }
    total
}

#[test]
fn row_of_three_gives_two_steps_of_cost_twenty() {
    let map = grid(3, 1, &["   "]);
    let graph = PathGraph::build(&map);
    let route = graph.path_to(&pos(0, 0), &pos(2, 0)).expect("reachable");
    assert_eq!(route, vec![pos(1, 0), pos(2, 0)]);
    assert_eq!(route_cost(&graph, pos(0, 0), &route), 20);
}

#[test]
fn centre_wall_forbids_corner_cutting() {
    let map = grid(3, 3, &["   ", " # ", "   "]);
    let graph = PathGraph::build(&map);
    let route = graph.path_to(&pos(0, 0), &pos(2, 2)).expect("reachable around the wall");
    assert_eq!(route.len(), 4);
    assert_eq!(*route.last().unwrap(), pos(2, 2));
    let mut at = pos(0, 0);
    for next in &route {
        let manhattan = at.column.abs_diff(next.column) + at.line.abs_diff(next.line);
        assert_eq!(manhattan, 1, "only orthogonal steps around the wall");
        at = *next;
    }
    assert_eq!(route_cost(&graph, pos(0, 0), &route), 40);
    assert_eq!(step_cost(&graph, pos(1, 0), pos(2, 1)), None);
    assert_eq!(step_cost(&graph, pos(0, 1), pos(1, 2)), None);
}

#[test]
fn open_diagonal_costs_fifteen() {
    let map = grid(2, 2, &["  ", "  "]);
    let graph = PathGraph::build(&map);
    assert_eq!(step_cost(&graph, pos(0, 0), pos(1, 1)), Some(15));
    assert_eq!(step_cost(&graph, pos(0, 0), pos(1, 0)), Some(10));
    let route = graph.path_to(&pos(0, 0), &pos(1, 1)).unwrap();
    assert_eq!(route, vec![pos(1, 1)]);
}

#[test]
fn edges_never_touch_blocked_or_outside_cells() {
    let map = grid(3, 2, &[" #O", " . "]);
    let graph = PathGraph::build(&map);
    assert!(graph.successors(&pos(1, 0)).is_empty());
    assert!(graph.successors(&pos(7, 7)).is_empty());
    // (0,0): only (0,1) below; no self loop at the left edge.
    assert_eq!(graph.successors(&pos(0, 0)), vec![(pos(0, 1), 10)]);
    assert!(graph.successors(&pos(2, 1)).is_empty());
}

#[test]
fn start_equal_to_goal_yields_goal_alone() {
    let map = grid(2, 2, &["  ", "  "]);
    let graph = PathGraph::build(&map);
    assert_eq!(graph.path_to(&pos(1, 1), &pos(1, 1)), Some(vec![pos(1, 1)]));
}

#[test]
fn disconnected_goal_is_unreachable() {
    let map = grid(3, 1, &[" # "]);
    let graph = PathGraph::build(&map);
    assert_eq!(graph.path_to(&pos(0, 0), &pos(2, 0)), None);
    assert_eq!(graph.path_to(&pos(0, 0), &pos(1, 0)), None);
    assert_eq!(graph.path_to(&pos(0, 0), &pos(9, 0)), None);
}

#[test]
fn rebuilding_twice_gives_the_same_graph() {
    let map = grid(4, 3, &["  # ", " #  ", "    "]);
    let first = PathGraph::build(&map);
    let mut second = PathGraph::build(&grid(4, 3, &["####", "####", "####"]));
    second.rebuild(&map);
    second.rebuild(&map);
    for line in 0..3 {
        for column in 0..4 {
            let p = pos(column, line);
            assert_eq!(first.successors(&p), second.successors(&p));
        }
    }
}

#[test]
fn map_lookup_and_update() {
    let mut map = grid(2, 2, &[" #", "B "]);
    assert_eq!(map.width(), 2);
    assert_eq!(map.height(), 2);
    assert!(map.changed());
    assert_eq!(map.cell_at(1, 0).unwrap().kind(), CellKind::Wall);
    assert_eq!(map.cell_at_pos(&pos(0, 1)).unwrap().interaction(), InteractionKind::WalkOnGround);
    assert_eq!(map.cell_at(2, 0), None);
    assert_eq!(map.cell_at(0, 2), None);
    let same: Vec<Cell> = (0..4).map(|i| map.cell_at_index(i)).collect();
    assert_eq!(map.update(same.clone()), 0);
    assert!(!map.changed());
    let mut other = same;
    other[1] = Cell::new(CellKind::Ground, InteractionKind::NoInteraction);
    other[3] = Cell::new(CellKind::Chasm, InteractionKind::NoInteraction);
    assert_eq!(map.update(other), 2);
    assert!(map.changed());
    assert_eq!(map.cell_at(1, 1).unwrap().kind(), CellKind::Chasm);
}

#[test]
fn raw_values_decode_or_are_refused() {
    assert_eq!(CellKind::from_raw(2), Some(CellKind::Ground));
    assert_eq!(CellKind::from_raw(4), None);
    assert_eq!(InteractionKind::from_raw(5), Some(InteractionKind::WalkOnGround));
    assert_eq!(InteractionKind::from_raw(6), None);
}

#[test]
fn cell_centres_are_half_a_cell_in() {
    let p = pos(3, 0);
    assert_eq!(p.center_x(), 3_500_000);
    assert_eq!(p.center_y(), 500_000);
    assert_eq!(p.column(), 3);
    assert_eq!(p.line(), 0);
}
