use game_of_life::Universe;

/// Row-major index into the flat cell view.
fn at(cells: &[bool], width: u32, row: u32, col: u32) -> bool {
    cells[(row * width + col) as usize]
}

/// A universe of the given size with every cell dead.
fn dead_universe(width: u32, height: u32) -> Universe {
    let mut u = Universe::new(width, height);
    u.clear();
    u
}

#[test]
fn new_sets_dimensions_and_size() {
    let u = Universe::new(8, 4);
    assert_eq!(u.width(), 8);
    assert_eq!(u.height(), 4);
    assert_eq!(u.size(), 32);
    assert_eq!(u.cells().len(), 32);
}

#[test]
fn default_is_hundred_by_hundred() {
    let u = Universe::default();
    assert_eq!(u.width(), 100);
    assert_eq!(u.height(), 100);
    assert_eq!(u.size(), 10000);
}

#[test]
fn clear_kills_every_cell() {
    let mut u = Universe::new(10, 10);
    u.clear();
    assert!(u.cells().iter().all(|&alive| !alive));
}

#[test]
fn clear_then_reset_keeps_size() {
    let mut u = Universe::new(12, 7);
    u.clear();
    u.reset();
    assert_eq!(u.size(), 84);
    assert_eq!(u.cells().len(), 84);
}

#[test]
fn resize_recomputes_size() {
    let mut u = Universe::new(10, 10);
    u.set_width(25);
    assert_eq!(u.width(), 25);
    assert_eq!(u.height(), 10);
    assert_eq!(u.size(), 250);
    assert_eq!(u.cells().len(), 250);
    u.set_height(4);
    assert_eq!(u.width(), 25);
    assert_eq!(u.height(), 4);
    assert_eq!(u.size(), 100);
    assert_eq!(u.cells().len(), 100);
    u.set_width(10);
    u.set_height(10);
    assert_eq!(u.size(), 100);
    assert_eq!(u.cells().len(), 100);
}

#[test]
fn set_cells_turns_exactly_those_cells_alive() {
    let mut u = dead_universe(6, 5);
    u.set_cells(&vec![(0, 0), (2, 3), (4, 5)]);
    let cells = u.cells();
    let mut live: Vec<(u32, u32)> = Vec::new();
    for row in 0..5 {
        for col in 0..6 {
            if at(&cells, 6, row, col) {
                live.push((row, col));
            }
        }
    }
    assert_eq!(live, vec![(0, 0), (2, 3), (4, 5)]);
}

#[test]
fn get_cells_matches_flat_view() {
    let mut u = dead_universe(6, 5);
    u.set_cells(&vec![(1, 1), (3, 4)]);
    let flat = u.cells();
    let bits = u.get_cells();
    for i in 0..30 {
        assert_eq!(bits.contains(i), flat[i]);
    }
}

#[test]
fn toggle_cell_twice_restores_the_grid() {
    let mut u = Universe::new(9, 9);
    let before = u.cells();
    u.toggle_cell(4, 7);
    let mid = u.cells();
    assert_eq!(mid[(4 * 9 + 7) as usize], !before[(4 * 9 + 7) as usize]);
    for i in 0..before.len() {
        if i != 4 * 9 + 7 {
            assert_eq!(mid[i], before[i]);
        }
    }
    u.toggle_cell(4, 7);
    assert_eq!(u.cells(), before);
}

#[test]
fn tick_is_deterministic() {
    let pattern = vec![(1, 1), (1, 2), (2, 2), (3, 0), (4, 4)];
    let mut u1 = dead_universe(6, 6);
    let mut u2 = dead_universe(6, 6);
    u1.set_cells(&pattern);
    u2.set_cells(&pattern);
    u1.tick();
    u2.tick();
    assert_eq!(u1.cells(), u2.cells());
}

#[test]
fn lone_cell_dies_and_births_none() {
    let mut u = dead_universe(5, 5);
    u.set_cells(&vec![(0, 0)]);
    u.tick();
    assert!(u.cells().iter().all(|&alive| !alive));
}

#[test]
fn block_is_a_still_life() {
    let mut u = dead_universe(6, 6);
    u.set_cells(&vec![(2, 2), (2, 3), (3, 2), (3, 3)]);
    let before = u.cells();
    u.tick();
    assert_eq!(u.cells(), before);
}

#[test]
fn blinker_oscillates_with_period_two() {
    let mut u = dead_universe(5, 5);
    u.set_cells(&vec![(2, 1), (2, 2), (2, 3)]);
    let horizontal = u.cells();
    u.tick();
    let cells = u.cells();
    let mut live: Vec<(u32, u32)> = Vec::new();
    for row in 0..5 {
        for col in 0..5 {
            if at(&cells, 5, row, col) {
                live.push((row, col));
            }
        }
    }
    assert_eq!(live, vec![(1, 2), (2, 2), (3, 2)]);
    u.tick();
    assert_eq!(u.cells(), horizontal);
}

#[test]
fn blinker_across_the_edge_wraps() {
    // A horizontal blinker centered on column 0 of row 0: its arms sit on
    // column 4 (west, wrapped) and column 1; after one tick it is the
    // vertical line through (0, 0), with one arm on row 4 (north, wrapped).
    let mut u = dead_universe(5, 5);
    u.set_cells(&vec![(0, 4), (0, 0), (0, 1)]);
    u.tick();
    let cells = u.cells();
    let mut live: Vec<(u32, u32)> = Vec::new();
    for row in 0..5 {
        for col in 0..5 {
            if at(&cells, 5, row, col) {
                live.push((row, col));
            }
        }
    }
    assert_eq!(live, vec![(0, 0), (1, 0), (4, 0)]);
}

#[test]
fn update_equals_repeated_ticks() {
    let pattern = vec![(2, 0), (2, 1), (2, 2), (1, 2), (0, 1)];
    let mut batched = dead_universe(8, 8);
    let mut stepped = dead_universe(8, 8);
    batched.set_cells(&pattern);
    stepped.set_cells(&pattern);
    batched.set_ticks(3);
    batched.update();
    stepped.tick();
    stepped.tick();
    stepped.tick();
    assert_eq!(batched.cells(), stepped.cells());
}

#[test]
fn update_with_one_tick_is_tick() {
    let mut batched = dead_universe(6, 6);
    let mut stepped = dead_universe(6, 6);
    batched.set_cells(&vec![(1, 1), (2, 2), (3, 3)]);
    stepped.set_cells(&vec![(1, 1), (2, 2), (3, 3)]);
    batched.update();
    stepped.tick();
    assert_eq!(batched.cells(), stepped.cells());
}

#[test]
fn set_ticks_leaves_the_cells_alone() {
    let mut u = Universe::new(7, 7);
    let before = u.cells();
    u.set_ticks(5);
    assert_eq!(u.cells(), before);
}

#[test]
fn glider_stamps_exactly_five_cells() {
    let mut u = dead_universe(6, 6);
    u.create_glider(2, 2);
    let cells = u.cells();
    let mut live: Vec<(u32, u32)> = Vec::new();
    for row in 0..6 {
        for col in 0..6 {
            if at(&cells, 6, row, col) {
                live.push((row, col));
            }
        }
    }
    assert_eq!(live, vec![(0, 1), (1, 2), (2, 0), (2, 1), (2, 2)]);
}

#[test]
fn glider_at_the_corner_wraps() {
    let mut u = dead_universe(5, 5);
    u.create_glider(0, 0);
    let cells = u.cells();
    let mut live: Vec<(u32, u32)> = Vec::new();
    for row in 0..5 {
        for col in 0..5 {
            if at(&cells, 5, row, col) {
                live.push((row, col));
            }
        }
    }
    assert_eq!(live, vec![(0, 0), (0, 3), (0, 4), (3, 4), (4, 0)]);
}

#[test]
fn glider_overlays_without_killing() {
    let mut u = dead_universe(6, 6);
    u.set_cells(&vec![(5, 5)]);
    u.create_glider(2, 2);
    let cells = u.cells();
    assert!(at(&cells, 6, 5, 5));
    assert!(at(&cells, 6, 2, 0));
}

#[test]
fn pulsar_stamps_forty_eight_cells() {
    let mut u = dead_universe(17, 17);
    u.create_pulsar(8, 8);
    let cells = u.cells();
    assert_eq!(cells.iter().filter(|&&alive| alive).count(), 48);
    // A few representative cells, anchor-relative offsets applied to (8, 8).
    assert!(at(&cells, 17, 14, 4));
    assert!(at(&cells, 17, 2, 4));
    assert!(at(&cells, 17, 12, 2));
    assert!(!at(&cells, 17, 8, 8));
}

#[test]
fn pulsar_has_period_three() {
    let mut u = dead_universe(17, 17);
    u.create_pulsar(8, 8);
    let start = u.cells();
    u.tick();
    assert_ne!(u.cells(), start);
    u.tick();
    assert_ne!(u.cells(), start);
    u.tick();
    assert_eq!(u.cells(), start);
}
