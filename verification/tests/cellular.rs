use toroidal_life::cellular::{seeded_row, Grid, MAX_HISTORY};

/// Collects the coordinates of the live cells, as `(x, y)` pairs.
fn live_cells(cells: &Vec<Vec<bool>>) -> Vec<(usize, usize)> {
    let mut live: Vec<(usize, usize)> = Vec::new();
    for y in 0..cells.len() {
        for x in 0..cells[y].len() {
            if cells[y][x] {
                live.push((x, y));
            }
        }
    }
    live
}

#[test]
fn new_grid_is_all_dead() {
    let grid = Grid::new(4, 3);
    assert_eq!(grid.get_cells().len(), 3);
    assert_eq!(grid.get_prev_cells().len(), 3);
    for y in 0..3 {
        assert_eq!(grid.get_cells()[y].len(), 4);
        assert_eq!(grid.get_prev_cells()[y].len(), 4);
        for x in 0..4 {
            assert!(!grid.get_cells()[y][x]);
            assert!(!grid.get_prev_cells()[y][x]);
        }
    }
    assert_eq!(grid.get_age(), 0);
    assert_eq!(grid.get_max_cells(), 12);
    assert!(grid.get_history_data().is_empty());
}

#[test]
fn fresh_grid_has_zero_stats() {
    let grid = Grid::new(7, 5);
    let stats = grid.get_stats();
    assert_eq!(stats.get_births(), 0);
    assert_eq!(stats.get_survivors(), 0);
    assert_eq!(stats.get_deaths(), 0);
    assert_eq!(stats.get_population(), 0);
}

#[test]
fn toroidal_adjacency_wraps_both_edges() {
    // On a 3 by 3 grid the corner (0, 0) has the opposite corner (2, 2)
    // among its eight toroidal neighbours.
    let mut grid = Grid::new(3, 3);
    grid.set_cell(2, 2, true);
    assert_eq!(grid.get_neighbour_count(0, 0), 1);
    // ... and the far end of its own row and column as well.
    let mut grid = Grid::new(3, 3);
    grid.set_cell(2, 0, true);
    grid.set_cell(0, 2, true);
    assert_eq!(grid.get_neighbour_count(0, 0), 2);
}

#[test]
fn single_cell_in_tiny_grid_counts_itself_as_neighbours() {
    // On a 1 by 1 torus all eight neighbour positions wrap to the cell
    // itself.
    let mut grid = Grid::new(1, 1);
    grid.set_cell(0, 0, true);
    assert_eq!(grid.get_neighbour_count(0, 0), 8);
}

#[test]
fn isolated_cell_dies_after_one_step() {
    let mut grid = Grid::new(3, 3);
    grid.set_cell(1, 1, true);
    assert_eq!(grid.get_neighbour_count(1, 1), 0);
    grid.update_generation();
    for y in 0..3 {
        for x in 0..3 {
            assert!(!grid.get_cells()[y][x]);
        }
    }
}

#[test]
fn blinker_oscillates_with_period_two() {
    // A horizontal triple at rows/columns well inside a 5 by 5 grid.
    let mut grid = Grid::new(5, 5);
    grid.set_cell(1, 2, true);
    grid.set_cell(2, 2, true);
    grid.set_cell(3, 2, true);

    grid.update_generation();
    assert_eq!(live_cells(grid.get_cells()), vec![(2, 1), (2, 2), (2, 3)]);

    grid.update_generation();
    assert_eq!(live_cells(grid.get_cells()), vec![(1, 2), (2, 2), (3, 2)]);
}

#[test]
fn blinker_step_classifies_births_survivors_deaths() {
    let mut grid = Grid::new(5, 5);
    grid.set_cell(1, 2, true);
    grid.set_cell(2, 2, true);
    grid.set_cell(3, 2, true);
    grid.update_generation();
    // Current is the vertical triple, previous the horizontal one: the
    // centre survives, the two new ends are births, the two old ends died.
    let stats = grid.get_stats();
    assert_eq!(stats.get_births(), 2);
    assert_eq!(stats.get_survivors(), 1);
    assert_eq!(stats.get_deaths(), 2);
    assert_eq!(stats.get_population(), 3);
}

#[test]
fn dead_grid_step_reports_zero_stats_and_records_zero() {
    let mut grid = Grid::new(6, 4);
    grid.update_generation();
    let stats = grid.get_stats();
    assert_eq!(stats.get_births(), 0);
    assert_eq!(stats.get_survivors(), 0);
    assert_eq!(stats.get_deaths(), 0);
    assert_eq!(stats.get_population(), 0);
    // The history entry recorded by the step is the population before it.
    assert_eq!(grid.get_history_data().len(), 1);
    assert_eq!(grid.get_history_data()[0], 0);
    assert_eq!(grid.get_age(), 1);
}

#[test]
fn history_records_pre_step_population() {
    let mut grid = Grid::new(3, 3);
    grid.set_cell(1, 1, true);
    grid.update_generation();
    // Before the step the lone cell was alive: the sample says 1, even
    // though the cell is dead afterwards.
    assert_eq!(grid.get_history_data().len(), 1);
    assert_eq!(grid.get_history_data()[0], 1);
    grid.update_generation();
    assert_eq!(grid.get_history_data().len(), 2);
    assert_eq!(grid.get_history_data()[1], 0);
}

#[test]
fn history_stays_bounded_and_evicts_oldest() {
    let mut grid = Grid::new(1, 1);
    grid.set_cell(0, 0, true);
    for _ in 0..MAX_HISTORY {
        grid.update_generation();
    }
    // Exactly at capacity: the very first sample (population 1) is still
    // the oldest entry.
    assert_eq!(grid.get_history_data().len(), MAX_HISTORY);
    assert_eq!(*grid.get_history_data().front().unwrap(), 1);
    // One more step evicts exactly that oldest entry.
    grid.update_generation();
    assert_eq!(grid.get_history_data().len(), MAX_HISTORY);
    assert_eq!(*grid.get_history_data().front().unwrap(), 0);
    assert_eq!(*grid.get_history_data().back().unwrap(), 0);
}

#[test]
fn resize_shrink_keeps_top_left_of_both_generations() {
    let mut grid = Grid::new(10, 10);
    for i in 0..10 {
        grid.set_cell(i, i, true);
        grid.set_cell(9 - i, i, true);
    }
    grid.update_generation();
    let old_cells = grid.get_cells().clone();
    let old_prev = grid.get_prev_cells().clone();

    grid.resize_grid(5, 5);
    assert_eq!(grid.get_cells().len(), 5);
    assert_eq!(grid.get_prev_cells().len(), 5);
    for y in 0..5 {
        assert_eq!(grid.get_cells()[y].len(), 5);
        assert_eq!(grid.get_prev_cells()[y].len(), 5);
        for x in 0..5 {
            assert_eq!(grid.get_cells()[y][x], old_cells[y][x]);
            assert_eq!(grid.get_prev_cells()[y][x], old_prev[y][x]);
        }
    }
}

#[test]
fn resize_grow_keeps_values_and_pads_dead() {
    let mut grid = Grid::new(5, 5);
    grid.set_cell(0, 0, true);
    grid.set_cell(4, 4, true);
    grid.set_cell(2, 3, true);
    grid.update_generation();
    let old_cells = grid.get_cells().clone();
    let old_prev = grid.get_prev_cells().clone();

    grid.resize_grid(10, 10);
    assert_eq!(grid.get_cells().len(), 10);
    for y in 0..10 {
        assert_eq!(grid.get_cells()[y].len(), 10);
        for x in 0..10 {
            if x < 5 && y < 5 {
                assert_eq!(grid.get_cells()[y][x], old_cells[y][x]);
                assert_eq!(grid.get_prev_cells()[y][x], old_prev[y][x]);
            } else {
                assert!(!grid.get_cells()[y][x]);
                assert!(!grid.get_prev_cells()[y][x]);
            }
        }
    }
    assert_eq!(grid.get_max_cells(), 100);
}

#[test]
fn resize_leaves_age_and_history_alone() {
    let mut grid = Grid::new(4, 4);
    grid.update_generation();
    grid.update_generation();
    grid.resize_grid(8, 3);
    assert_eq!(grid.get_age(), 2);
    assert_eq!(grid.get_history_data().len(), 2);
}

#[test]
fn seeding_rule_lights_exactly_the_draws_of_one() {
    let draws = vec![1, 2, 3, 4, 1, 4];
    let row = seeded_row(&draws);
    assert_eq!(row, vec![true, false, false, false, true, false]);
}

#[test]
fn randomise_reports_every_live_cell_as_birth() {
    let mut grid = Grid::new(100, 100);
    grid.update_generation();
    grid.randomise_grid();
    // The previous generation is reset to all dead, so before any further
    // step every live cell counts as a birth.
    for y in 0..100 {
        for x in 0..100 {
            assert!(!grid.get_prev_cells()[y][x]);
        }
    }
    let stats = grid.get_stats();
    assert_eq!(stats.get_deaths(), 0);
    assert_eq!(stats.get_survivors(), 0);
    assert_eq!(stats.get_births(), stats.get_population());
    // A uniform draw in 1..=4 per cell leaves some cells dead; a seeding
    // that lit all 10000 cells would mean the draw ignores its range.
    assert!(stats.get_population() < grid.get_max_cells());
    assert_eq!(grid.get_age(), 0);
    assert!(grid.get_history_data().is_empty());
}

#[test]
fn age_counts_steps_since_last_randomise() {
    let mut grid = Grid::new(3, 3);
    grid.update_generation();
    grid.update_generation();
    grid.update_generation();
    assert_eq!(grid.get_age(), 3);
    grid.randomise_grid();
    assert_eq!(grid.get_age(), 0);
    grid.update_generation();
    assert_eq!(grid.get_age(), 1);
}

#[test]
fn stats_default_is_zeroed() {
    let stats = toroidal_life::cellular::GridStats::default();
    assert_eq!(stats.get_births(), 0);
    assert_eq!(stats.get_survivors(), 0);
    assert_eq!(stats.get_deaths(), 0);
    assert_eq!(stats.get_population(), 0);
}

#[test]
fn get_stats_leaves_grid_unchanged() {
    let mut grid = Grid::new(5, 5);
    grid.set_cell(1, 2, true);
    grid.set_cell(2, 2, true);
    grid.set_cell(3, 2, true);
    let before = grid.get_cells().clone();
    let _ = grid.get_stats();
    let _ = grid.get_stats();
    assert_eq!(grid.get_cells(), &before);
    assert_eq!(grid.get_age(), 0);
    assert!(grid.get_history_data().is_empty());
}
