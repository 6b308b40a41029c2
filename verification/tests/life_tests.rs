use life::engine::next_cell_state;
use life::grid::Life;

fn make(lines: &[&str]) -> Life {
    let owned: Vec<String> = lines.iter().map(|s| s.to_string()).collect();
    Life::new(&owned)
}

#[test]
fn round_trip_dash_x_dash() {
    let g = make(&["-X-", "-X-", "-X-"]);
    for i in 0..3 {
        assert!(!g.is_alive(0, i));
        assert!(g.is_alive(1, i));
        assert!(!g.is_alive(2, i));
    }
}

#[test]
fn any_character_but_dash_is_alive() {
    let g = make(&["aB3"]);
    assert!(g.is_alive(0, 0));
    assert!(g.is_alive(1, 0));
    assert!(g.is_alive(2, 0));
}

#[test]
fn neighbor_count_stays_in_range() {
    let g = make(&["XXX", "XXX", "XXX"]);
    for y in 0..3 {
        for x in 0..3 {
            let n = g.neighbor_count(x, y);
            assert!(0 <= n && n <= 8);
        }
    }
    assert_eq!(g.neighbor_count(1, 1), 8);
    assert_eq!(g.neighbor_count(1, 0), 5);
}

#[test]
fn interior_cell_with_dead_neighbors_counts_zero() {
    let g = make(&["---", "-X-", "---"]);
    assert_eq!(g.neighbor_count(1, 1), 0);
}

#[test]
fn corner_count_never_exceeds_three() {
    let g = make(&["XXX", "XXX", "XXX"]);
    assert_eq!(g.neighbor_count(0, 0), 3);
    assert_eq!(g.neighbor_count(2, 0), 3);
    assert_eq!(g.neighbor_count(0, 2), 3);
    assert_eq!(g.neighbor_count(2, 2), 3);
}

#[test]
fn block_is_a_still_life() {
    let g = make(&["----", "-XX-", "-XX-", "----"]);
    let once = g.step();
    assert_eq!(once.grid, g.grid);
    let twice = once.step();
    assert_eq!(twice.grid, g.grid);
}

#[test]
fn ring_of_eight_keeps_center_dead() {
    // a dead cell spawns on exactly three live neighbors, so eight keep it dead
    let g = make(&["XXX", "X-X", "XXX"]);
    let next = g.step();
    assert!(!next.is_alive(1, 1));
}

#[test]
fn blinker_oscillates_with_period_two() {
    let horizontal = make(&["-----", "-----", "-XXX-", "-----", "-----"]);
    let vertical = make(&["-----", "--X--", "--X--", "--X--", "-----"]);
    let once = horizontal.step();
    assert_eq!(once.grid, vertical.grid);
    let twice = once.step();
    assert_eq!(twice.grid, horizontal.grid);
}

#[test]
fn lone_origin_cell_dies() {
    let g = make(&["X--", "---", "---"]);
    let next = g.step();
    for y in 0..3 {
        for x in 0..3 {
            assert!(!next.is_alive(x, y));
        }
    }
}

#[test]
fn step_leaves_its_input_unchanged() {
    let g = make(&["-----", "-----", "-XXX-", "-----", "-----"]);
    let snapshot = g.grid.clone();
    let _next = g.step();
    assert_eq!(g.grid, snapshot);
}

#[test]
fn compute_next_replaces_the_grid_with_the_step_result() {
    let mut g = make(&["-----", "-----", "-XXX-", "-----", "-----"]);
    let expected = g.step();
    g.compute_next();
    assert_eq!(g.grid, expected.grid);
}

#[test]
fn width_and_height_of_ragged_rows() {
    let g = make(&["X", "XXX"]);
    assert_eq!(g.height(), 2);
    assert_eq!(g.width(), 3);
    assert!(g.in_bounds(0, 0));
    assert!(!g.in_bounds(1, 0));
    assert!(g.in_bounds(2, 1));
    assert!(!g.in_bounds(0, 2));
    assert!(!g.in_bounds(-1, 0));
    assert!(!g.in_bounds(0, -1));
}

#[test]
fn empty_lines_do_not_become_rows() {
    let g = make(&["X", "", "X", ""]);
    assert_eq!(g.height(), 2);
    assert_eq!(g.width(), 1);
    assert!(g.is_alive(0, 0));
    assert!(g.is_alive(0, 1));
    // with the blank lines gone, the two live cells are vertically adjacent
    assert_eq!(g.neighbor_count(0, 0), 1);
    assert_eq!(g.neighbor_count(0, 1), 1);
}

#[test]
fn count_reads_only_the_moore_neighborhood() {
    let near = make(&["XX-", "---", "---"]);
    let far = make(&["XX-", "---", "--X"]);
    // the grids differ only at (2,2), outside the neighborhood of (0,0)
    assert_eq!(near.neighbor_count(0, 0), 1);
    assert_eq!(far.neighbor_count(0, 0), 1);
}

#[test]
fn empty_pattern_degrades_to_empty_grid() {
    let g = make(&[]);
    assert_eq!(g.height(), 0);
    assert_eq!(g.width(), 0);
    assert!(!g.in_bounds(0, 0));
}

#[test]
fn neighbor_count_over_ragged_rows() {
    let g = make(&["XXX", "X"]);
    assert_eq!(g.neighbor_count(2, 1), 2);
    assert_eq!(g.neighbor_count(0, 0), 2);
    assert_eq!(g.neighbor_count(1, 1), 4);
}

#[test]
fn next_cell_state_follows_the_four_rules() {
    assert!(!next_cell_state(true, 0));
    assert!(!next_cell_state(true, 1));
    assert!(next_cell_state(true, 2));
    assert!(next_cell_state(true, 3));
    assert!(!next_cell_state(true, 4));
    assert!(!next_cell_state(true, 8));
    assert!(next_cell_state(false, 3));
    assert!(!next_cell_state(false, 0));
    assert!(!next_cell_state(false, 2));
    assert!(!next_cell_state(false, 4));
}
