use convay::game::{CellColor, GameOfLife, GridMode, Input, START_SIZE};

const GLIDER: [(usize, usize); 5] = [(0, 1), (1, 2), (2, 0), (2, 1), (2, 2)];

fn idle() -> Input {
    Input::default()
}

/// The live cells of the board, column first, in row-major order.
fn live_cells(game: &GameOfLife) -> Vec<(usize, usize)> {
    let mut live = Vec::new();
    for row in 0..game.rows() {
        for col in 0..game.cols() {
            if game.cell(row, col) {
                live.push((col, row));
            }
        }
    }
    live
}

fn sorted(mut cells: Vec<(usize, usize)>) -> Vec<(usize, usize)> {
    cells.sort_by_key(|&(x, y)| (y, x));
    cells
}

/// An automaton with a dead board of the given extents, not in drawing mode.
fn blank(rows: usize, cols: usize) -> GameOfLife {
    let mut game = GameOfLife::new();
    game.resize(rows, cols);
    game.toggle_drawing_mode();
    game.toggle_drawing_mode();
    game
}

/// An automaton of the given extents whose board and snapshot hold exactly `cells`.
fn with_cells(rows: usize, cols: usize, cells: &[(usize, usize)]) -> GameOfLife {
    let mut game = GameOfLife::new();
    game.resize(rows, cols);
    game.toggle_drawing_mode();
    for &(x, y) in cells {
        game.paint_cell(x, y);
    }
    game.toggle_drawing_mode();
    game
}

#[test]
fn new_game_holds_a_glider() {
    let game = GameOfLife::new();
    assert_eq!(game.rows(), START_SIZE);
    assert_eq!(game.cols(), START_SIZE);
    assert_eq!(START_SIZE, 40);
    assert_eq!(live_cells(&game), sorted(GLIDER.to_vec()));
    assert!(!game.is_drawing());
    assert!(!game.is_paused());
    assert_eq!(game.grid_mode(), GridMode::Lines);
    assert_eq!(game.step_tenths(), 5);
    assert_eq!(game.last_step_micros(), 500_000);
    assert_eq!(game.elapsed_micros(), 0);
    for &(x, y) in GLIDER.iter() {
        assert!(game.snapshot_cell(y, x));
    }
}

#[test]
fn dead_board_stays_dead() {
    let mut game = blank(7, 9);
    assert!(live_cells(&game).is_empty());
    for _ in 0..5 {
        game.update_cells();
        assert!(live_cells(&game).is_empty());
    }
    assert_eq!(game.rows(), 7);
    assert_eq!(game.cols(), 9);
}

#[test]
fn glider_moves_one_cell_diagonally_in_four_steps() {
    let mut game = GameOfLife::new();
    for _ in 0..4 {
        game.update_cells();
    }
    let moved: Vec<(usize, usize)> = GLIDER.iter().map(|&(x, y)| (x + 1, y + 1)).collect();
    assert_eq!(live_cells(&game), sorted(moved));
}

#[test]
fn glider_moves_on_a_five_by_five_board() {
    let mut game = with_cells(5, 5, &GLIDER);
    for _ in 0..4 {
        game.update_cells();
    }
    assert_eq!(live_cells(&game), vec![(3, 1), (1, 2), (3, 2), (2, 3), (3, 3)]);
}

#[test]
fn glider_after_one_step() {
    let mut game = GameOfLife::new();
    game.update_cells();
    assert_eq!(live_cells(&game), vec![(1, 0), (2, 1), (3, 1), (1, 2), (2, 2)]);
}

#[test]
fn two_neighbours_keep_and_three_give_life() {
    // A row of three: the ends have one neighbour, the middle has two, and
    // the cells above and below the middle have three.
    let mut game = with_cells(5, 5, &[(1, 2), (2, 2), (3, 2)]);
    game.update_cells();
    assert_eq!(live_cells(&game), vec![(2, 1), (2, 2), (2, 3)]);
    game.update_cells();
    assert_eq!(live_cells(&game), vec![(1, 2), (2, 2), (3, 2)]);
}

#[test]
fn a_block_is_stable() {
    let block = [(1, 1), (2, 1), (1, 2), (2, 2)];
    let mut game = with_cells(4, 4, &block);
    game.update_cells();
    assert_eq!(live_cells(&game), block.to_vec());
}

#[test]
fn neighbours_are_not_counted_across_edges() {
    let mut all = Vec::new();
    for y in 0..3 {
        for x in 0..3 {
            all.push((x, y));
        }
    }
    let mut game = with_cells(3, 3, &all);
    game.update_cells();
    // corners have three neighbours, edges five, the centre eight
    assert_eq!(live_cells(&game), vec![(0, 0), (2, 0), (0, 2), (2, 2)]);
    // a cell at the right edge does not see the left edge of the next row
    let mut game = with_cells(3, 4, &[(3, 0), (0, 1), (0, 2)]);
    game.update_cells();
    assert!(live_cells(&game).is_empty());
}

#[test]
fn a_single_cell_board_works() {
    let mut game = with_cells(1, 1, &[(0, 0)]);
    assert_eq!(live_cells(&game), vec![(0, 0)]);
    game.update_cells();
    assert!(live_cells(&game).is_empty());
}

#[test]
fn resize_keeps_cells_at_their_positions() {
    let mut game = GameOfLife::new();
    game.resize(2, 2);
    assert_eq!(game.rows(), 2);
    assert_eq!(game.cols(), 2);
    assert_eq!(live_cells(&game), vec![(0, 1)]);
    game.resize(40, 40);
    assert_eq!(game.rows(), 40);
    assert_eq!(game.cols(), 40);
    assert_eq!(live_cells(&game), vec![(0, 1)]);
}

#[test]
fn resize_to_other_extents_and_back() {
    let cells = [(0, 0), (4, 0), (2, 1), (0, 3), (4, 3)];
    let mut game = with_cells(4, 5, &cells);
    game.resize(2, 7);
    assert_eq!(live_cells(&game), vec![(0, 0), (4, 0), (2, 1)]);
    game.resize(4, 5);
    assert_eq!(live_cells(&game), vec![(0, 0), (4, 0), (2, 1)]);
    game.resize(6, 3);
    assert_eq!(live_cells(&game), vec![(0, 0), (2, 1)]);
    game.resize(4, 5);
    assert_eq!(live_cells(&game), vec![(0, 0), (2, 1)]);
}

#[test]
fn resize_remaps_the_snapshot_too() {
    let mut game = GameOfLife::new();
    game.update_cells();
    game.resize(3, 2);
    game.reset();
    assert_eq!(live_cells(&game), vec![(0, 1), (1, 2)]);
    game.resize(5, 5);
    game.update_cells();
    game.reset();
    assert_eq!(live_cells(&game), vec![(0, 1), (1, 2)]);
}

#[test]
fn resize_below_one_is_refused() {
    let mut game = GameOfLife::new();
    game.resize(0, 5);
    assert_eq!(game.rows(), 40);
    assert_eq!(game.cols(), 40);
    assert_eq!(live_cells(&game), sorted(GLIDER.to_vec()));
    game.resize(5, 0);
    assert_eq!(game.rows(), 40);
    assert_eq!(game.cols(), 40);
    assert_eq!(live_cells(&game), sorted(GLIDER.to_vec()));
    game.resize(0, 0);
    assert_eq!(game.rows(), 40);
    assert_eq!(game.cols(), 40);
    game.reset();
    assert_eq!(live_cells(&game), sorted(GLIDER.to_vec()));
}

#[test]
fn a_step_works_after_a_resize() {
    let mut game = GameOfLife::new();
    game.resize(6, 8);
    for _ in 0..4 {
        game.update_cells();
    }
    let moved: Vec<(usize, usize)> = GLIDER.iter().map(|&(x, y)| (x + 1, y + 1)).collect();
    assert_eq!(live_cells(&game), sorted(moved));
    assert_eq!(game.rows(), 6);
    assert_eq!(game.cols(), 8);
}

#[test]
fn drawing_mode_clears_and_commits() {
    let mut game = GameOfLife::new();
    game.toggle_drawing_mode();
    assert!(game.is_drawing());
    assert!(live_cells(&game).is_empty());
    game.paint_cell(0, 0);
    assert_eq!(live_cells(&game), vec![(0, 0)]);
    game.toggle_drawing_mode();
    assert!(!game.is_drawing());
    assert_eq!(live_cells(&game), vec![(0, 0)]);
    game.update_cells();
    assert!(live_cells(&game).is_empty());
    game.reset();
    assert_eq!(live_cells(&game), vec![(0, 0)]);
}

#[test]
fn reset_without_drawing_restores_the_glider() {
    let mut game = GameOfLife::new();
    for _ in 0..7 {
        game.update_cells();
    }
    game.reset();
    assert_eq!(live_cells(&game), sorted(GLIDER.to_vec()));
    assert_eq!(game.elapsed_micros(), 0);
}

#[test]
fn entering_drawing_mode_keeps_the_snapshot() {
    let mut game = GameOfLife::new();
    game.toggle_drawing_mode();
    game.reset();
    assert_eq!(live_cells(&game), sorted(GLIDER.to_vec()));
    assert!(game.is_drawing());
}

#[test]
fn painting_toggles_a_cell() {
    let mut game = GameOfLife::new();
    game.toggle_drawing_mode();
    game.paint_cell(3, 7);
    assert!(game.cell(7, 3));
    assert!(!game.cell(3, 7));
    game.paint_cell(3, 7);
    assert!(!game.cell(7, 3));
}

#[test]
fn painting_off_the_board_is_ignored() {
    let mut game = GameOfLife::new();
    game.resize(3, 4);
    game.toggle_drawing_mode();
    game.paint_cell(4, 0);
    game.paint_cell(0, 3);
    game.paint_cell(4, 3);
    game.paint_cell(usize::MAX, usize::MAX);
    game.paint_cell(usize::MAX, 0);
    assert!(live_cells(&game).is_empty());
    game.paint_cell(3, 2);
    assert_eq!(live_cells(&game), vec![(3, 2)]);
}

#[test]
fn painting_outside_drawing_mode_is_ignored() {
    let mut game = GameOfLife::new();
    game.paint_cell(5, 5);
    game.paint_cell(0, 1);
    assert_eq!(live_cells(&game), sorted(GLIDER.to_vec()));
}

#[test]
fn cells_off_the_board_are_dead() {
    let game = GameOfLife::new();
    assert!(!game.cell(40, 0));
    assert!(!game.cell(0, 40));
    assert!(!game.cell(usize::MAX, usize::MAX));
    assert!(!game.snapshot_cell(40, 1));
}

#[test]
fn index_is_row_major() {
    let mut game = GameOfLife::new();
    assert_eq!(game.get_index(0, 0), 0);
    assert_eq!(game.get_index(3, 2), 83);
    assert_eq!(game.get_index(39, 39), 1599);
    game.resize(3, 7);
    assert_eq!(game.get_index(3, 2), 17);
}

#[test]
fn spawn_glider_leaves_out_what_does_not_fit() {
    let mut game = blank(2, 3);
    game.spawn_glider();
    assert_eq!(live_cells(&game), vec![(2, 0), (0, 1), (2, 1)]);
    let mut game = blank(1, 1);
    game.spawn_glider();
    assert!(live_cells(&game).is_empty());
}

#[test]
fn step_time_moves_by_a_tenth_within_its_limits() {
    let mut game = GameOfLife::new();
    game.increase_step_time();
    assert_eq!(game.step_tenths(), 6);
    for _ in 0..30 {
        game.increase_step_time();
    }
    assert_eq!(game.step_tenths(), 20);
    game.decrease_step_time();
    assert_eq!(game.step_tenths(), 19);
    for _ in 0..30 {
        game.decrease_step_time();
    }
    assert_eq!(game.step_tenths(), 0);
    game.increase_step_time();
    assert_eq!(game.step_tenths(), 1);
}

#[test]
fn grid_mode_cycles() {
    let mut game = GameOfLife::new();
    game.cycle_grid_mode();
    assert_eq!(game.grid_mode(), GridMode::Shaded);
    game.cycle_grid_mode();
    assert_eq!(game.grid_mode(), GridMode::Off);
    game.cycle_grid_mode();
    assert_eq!(game.grid_mode(), GridMode::Lines);
}

#[test]
fn cell_colors() {
    let mut game = GameOfLife::new();
    assert_eq!(game.cell_color(0, 2), CellColor::Green);
    assert_eq!(game.cell_color(0, 0), CellColor::White);
    game.cycle_grid_mode();
    assert_eq!(game.cell_color(0, 2), CellColor::Green);
    assert_eq!(game.cell_color(0, 0), CellColor::Gray);
    assert_eq!(game.cell_color(0, 1), CellColor::DarkGray);
    assert_eq!(game.cell_color(1, 1), CellColor::Gray);
    assert_eq!(game.cell_color(3, 0), CellColor::DarkGray);
    game.cycle_grid_mode();
    assert_eq!(game.cell_color(0, 0), CellColor::White);
    assert_eq!(game.cell_color(0, 2), CellColor::Green);
}

#[test]
fn pause_is_suspended_while_drawing() {
    let mut game = GameOfLife::new();
    game.toggle_pause();
    assert!(game.is_paused());
    game.toggle_pause();
    assert!(!game.is_paused());
    game.toggle_drawing_mode();
    game.toggle_pause();
    assert!(!game.is_paused());
}

#[test]
fn a_generation_is_due_when_the_target_time_is_reached() {
    let mut game = GameOfLife::new();
    game.update(&idle(), 200_000);
    assert_eq!(game.elapsed_micros(), 200_000);
    assert_eq!(live_cells(&game), sorted(GLIDER.to_vec()));
    game.update(&idle(), 299_999);
    assert_eq!(game.elapsed_micros(), 499_999);
    assert_eq!(live_cells(&game), sorted(GLIDER.to_vec()));
    game.update(&idle(), 1);
    assert_eq!(game.elapsed_micros(), 0);
    assert_eq!(game.last_step_micros(), 500_000);
    assert_eq!(live_cells(&game), vec![(1, 0), (2, 1), (3, 1), (1, 2), (2, 2)]);
    game.update(&idle(), 730_000);
    assert_eq!(game.elapsed_micros(), 0);
    assert_eq!(game.last_step_micros(), 730_000);
}

#[test]
fn a_target_time_of_zero_steps_every_frame() {
    let mut game = GameOfLife::new();
    for _ in 0..5 {
        game.decrease_step_time();
    }
    for _ in 0..4 {
        game.update(&idle(), 0);
    }
    let moved: Vec<(usize, usize)> = GLIDER.iter().map(|&(x, y)| (x + 1, y + 1)).collect();
    assert_eq!(live_cells(&game), sorted(moved));
    assert_eq!(game.last_step_micros(), 0);
}

#[test]
fn elapsed_time_stops_at_what_the_counter_holds() {
    let mut game = GameOfLife::new();
    game.toggle_pause();
    game.update(&idle(), u64::MAX - 3);
    game.update(&idle(), 10);
    assert_eq!(game.elapsed_micros(), u64::MAX);
    assert_eq!(live_cells(&game), sorted(GLIDER.to_vec()));
}

#[test]
fn no_generation_while_paused_or_drawing() {
    let mut game = GameOfLife::new();
    game.toggle_pause();
    game.update(&idle(), 5_000_000);
    assert_eq!(live_cells(&game), sorted(GLIDER.to_vec()));
    assert_eq!(game.elapsed_micros(), 5_000_000);
    game.toggle_pause();
    game.toggle_drawing_mode();
    game.paint_cell(1, 1);
    game.update(&idle(), 5_000_000);
    assert_eq!(live_cells(&game), vec![(1, 1)]);
}

#[test]
fn single_step_while_paused() {
    let mut game = GameOfLife::new();
    let step = Input { single_step: true, ..idle() };
    game.handle_input(&step);
    assert_eq!(live_cells(&game), sorted(GLIDER.to_vec()));
    game.handle_input(&Input { toggle_pause: true, ..idle() });
    assert!(game.is_paused());
    game.update(&idle(), 123);
    game.handle_input(&step);
    assert_eq!(live_cells(&game), vec![(1, 0), (2, 1), (3, 1), (1, 2), (2, 2)]);
    assert_eq!(game.elapsed_micros(), 123);
    assert_eq!(game.last_step_micros(), 500_000);
}

#[test]
fn pause_and_single_step_in_one_frame() {
    let mut game = GameOfLife::new();
    game.handle_input(&Input { toggle_pause: true, single_step: true, ..idle() });
    assert!(game.is_paused());
    assert_eq!(live_cells(&game), vec![(1, 0), (2, 1), (3, 1), (1, 2), (2, 2)]);
}

#[test]
fn no_single_step_while_drawing() {
    let mut game = GameOfLife::new();
    game.toggle_pause();
    game.toggle_drawing_mode();
    assert!(game.is_paused());
    for &(x, y) in GLIDER.iter() {
        game.paint_cell(x, y);
    }
    let requests = game.handle_input(&Input { single_step: true, save_file: true, ..idle() });
    assert_eq!(live_cells(&game), sorted(GLIDER.to_vec()));
    assert_eq!(requests.save_text, Some("2 0\n0 1\n2 1\n1 2\n2 2\n".to_string()));
}

#[test]
fn input_toggles_drawing_and_paints() {
    let mut game = GameOfLife::new();
    let requests = game.handle_input(&Input { toggle_draw: true, pointer: Some((4, 2)), ..idle() });
    assert!(game.is_drawing());
    assert_eq!(live_cells(&game), vec![(4, 2)]);
    assert!(!requests.open_file);
    assert_eq!(requests.save_text, None);
    game.handle_input(&Input { pointer: Some((4, 2)), ..idle() });
    assert!(live_cells(&game).is_empty());
    game.handle_input(&Input { pointer: Some((1, 0)), ..idle() });
    // leaving drawing mode commits first; the pointer is ignored afterwards
    game.handle_input(&Input { toggle_draw: true, pointer: Some((5, 5)), ..idle() });
    assert!(!game.is_drawing());
    assert_eq!(live_cells(&game), vec![(1, 0)]);
    game.update_cells();
    game.handle_input(&Input { reset: true, ..idle() });
    assert_eq!(live_cells(&game), vec![(1, 0)]);
}

#[test]
fn pointer_is_ignored_outside_drawing_mode() {
    let mut game = GameOfLife::new();
    game.handle_input(&Input { pointer: Some((9, 9)), ..idle() });
    assert_eq!(live_cells(&game), sorted(GLIDER.to_vec()));
}

#[test]
fn files_are_asked_for_in_drawing_mode_only() {
    let mut game = GameOfLife::new();
    let both = Input { open_file: true, save_file: true, ..idle() };
    let requests = game.handle_input(&both);
    assert!(!requests.open_file);
    assert_eq!(requests.save_text, None);
    game.toggle_drawing_mode();
    game.paint_cell(3, 1);
    let requests = game.handle_input(&both);
    assert!(requests.open_file);
    assert_eq!(requests.save_text, Some("3 1\n".to_string()));
    let requests = game.handle_input(&Input { save_file: true, pointer: Some((0, 0)), ..idle() });
    // the text is that of the board before the pointer is applied
    assert_eq!(requests.save_text, Some("3 1\n".to_string()));
    assert_eq!(live_cells(&game), vec![(0, 0), (3, 1)]);
    let requests = game.handle_input(&Input { toggle_draw: true, save_file: true, ..idle() });
    assert_eq!(requests.save_text, None);
}

#[test]
fn input_changes_the_extents() {
    let mut game = GameOfLife::new();
    game.handle_input(&Input { shrink: true, ..idle() });
    assert_eq!((game.rows(), game.cols()), (39, 39));
    game.handle_input(&Input { grow: true, ..idle() });
    game.handle_input(&Input { grow: true, ..idle() });
    assert_eq!((game.rows(), game.cols()), (41, 41));
    game.handle_input(&Input { shrink: true, grow: true, ..idle() });
    assert_eq!((game.rows(), game.cols()), (41, 41));
    assert_eq!(live_cells(&game), sorted(GLIDER.to_vec()));
}

#[test]
fn shrink_stops_at_one_row_or_column() {
    let mut game = GameOfLife::new();
    game.resize(1, 3);
    game.shrink();
    assert_eq!((game.rows(), game.cols()), (1, 3));
    game.resize(2, 1);
    game.shrink();
    assert_eq!((game.rows(), game.cols()), (2, 1));
    game.resize(2, 2);
    game.shrink();
    assert_eq!((game.rows(), game.cols()), (1, 1));
    game.shrink();
    assert_eq!((game.rows(), game.cols()), (1, 1));
    game.grow();
    assert_eq!((game.rows(), game.cols()), (2, 2));
}

#[test]
fn input_changes_clock_and_grid_mode() {
    let mut game = GameOfLife::new();
    game.handle_input(&Input { increase_step_time: true, cycle_grid_mode: true, ..idle() });
    assert_eq!(game.step_tenths(), 6);
    assert_eq!(game.grid_mode(), GridMode::Shaded);
    game.handle_input(&Input { decrease_step_time: true, ..idle() });
    game.handle_input(&Input { decrease_step_time: true, ..idle() });
    assert_eq!(game.step_tenths(), 4);
    game.handle_input(&Input { increase_step_time: true, decrease_step_time: true, ..idle() });
    assert_eq!(game.step_tenths(), 4);
    for _ in 0..25 {
        game.handle_input(&Input { increase_step_time: true, ..idle() });
    }
    // at the upper limit the longer time is applied first, then the shorter
    game.handle_input(&Input { increase_step_time: true, decrease_step_time: true, ..idle() });
    assert_eq!(game.step_tenths(), 19);
}

#[test]
fn reset_in_the_frame_that_enters_drawing_mode() {
    let mut game = GameOfLife::new();
    game.handle_input(&Input { toggle_draw: true, reset: true, ..idle() });
    assert!(game.is_drawing());
    assert_eq!(live_cells(&game), sorted(GLIDER.to_vec()));
}

#[test]
fn update_applies_input_before_time() {
    let mut game = GameOfLife::new();
    let requests = game.update(&Input { toggle_pause: true, ..idle() }, 900_000);
    assert!(!requests.open_file);
    assert_eq!(live_cells(&game), sorted(GLIDER.to_vec()));
    assert_eq!(game.elapsed_micros(), 900_000);
    game.update(&Input { toggle_pause: true, ..idle() }, 0);
    assert_eq!(game.elapsed_micros(), 0);
    assert_eq!(game.last_step_micros(), 900_000);
    assert_eq!(live_cells(&game), vec![(1, 0), (2, 1), (3, 1), (1, 2), (2, 2)]);
}

#[test]
fn status_text_tells_the_mode() {
    let keys = "Space: draw, R: reset,  Up/Down: delay, Left/Right: size, G: grid mode";
    let mut game = GameOfLife::new();
    assert_eq!(
        game.status_text(),
        format!("{keys}\nDelay Target: 0.5s, Delay: 0.50s press P to pause and step")
    );
    game.update(&idle(), 1_234_999);
    for _ in 0..7 {
        game.increase_step_time();
    }
    assert_eq!(
        game.status_text(),
        format!("{keys}\nDelay Target: 1.2s, Delay: 1.23s press P to pause and step")
    );
    game.update(&idle(), 1_295_000);
    assert_eq!(
        game.status_text(),
        format!("{keys}\nDelay Target: 1.2s, Delay: 1.30s press P to pause and step")
    );
    for _ in 0..20 {
        game.increase_step_time();
    }
    game.update(&idle(), 12_004_999);
    assert_eq!(
        game.status_text(),
        format!("{keys}\nDelay Target: 2.0s, Delay: 12.00s press P to pause and step")
    );
    for _ in 0..20 {
        game.decrease_step_time();
    }
    game.update(&idle(), 5_000);
    assert_eq!(
        game.status_text(),
        format!("{keys}\nDelay Target: 0.0s, Delay: 0.01s press P to pause and step")
    );
    game.toggle_pause();
    assert_eq!(game.status_text(), format!("{keys}\nPaused, P to continue, S to step"));
    game.toggle_drawing_mode();
    assert_eq!(
        game.status_text(),
        format!("{keys}\ndrawing mode. press Space to continue O: open file, S: save to file")
    );
}

#[test]
fn default_input_is_idle() {
    let input = Input::default();
    assert!(!input.toggle_draw && !input.reset && !input.increase_step_time);
    assert!(!input.decrease_step_time && !input.shrink && !input.grow);
    assert!(!input.cycle_grid_mode && !input.toggle_pause && !input.single_step);
    assert!(!input.open_file && !input.save_file);
    assert_eq!(input.pointer, None);
    let mut game = GameOfLife::new();
    let requests = game.handle_input(&input);
    assert!(!requests.open_file);
    assert_eq!(requests.save_text, None);
    assert_eq!(live_cells(&game), sorted(GLIDER.to_vec()));
}

#[test]
fn tick_lets_time_pass() {
    let mut game = GameOfLife::new();
    game.tick(499_999);
    assert_eq!(game.elapsed_micros(), 499_999);
    assert_eq!(live_cells(&game), sorted(GLIDER.to_vec()));
    game.tick(2);
    assert_eq!(game.elapsed_micros(), 0);
    assert_eq!(game.last_step_micros(), 500_001);
    assert_eq!(live_cells(&game), vec![(1, 0), (2, 1), (3, 1), (1, 2), (2, 2)]);
    game.toggle_drawing_mode();
    game.tick(3_000_000);
    assert_eq!(game.elapsed_micros(), 3_000_000);
    assert_eq!(game.last_step_micros(), 500_001);
    assert!(live_cells(&game).is_empty());
}

#[test]
fn default_game_is_a_new_game() {
    let game = GameOfLife::default();
    assert_eq!((game.rows(), game.cols()), (40, 40));
    assert_eq!(live_cells(&game), sorted(GLIDER.to_vec()));
    assert_eq!(game.step_tenths(), 5);
    assert_eq!(game.save_to_text(), GameOfLife::new().save_to_text());
}
