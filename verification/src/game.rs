//! The automaton: a board, the snapshot that a reset restores, a step clock,
//! and the editing state.

use crate::board::{
    advance, blank_cells, board_of, clear, copy_cells, flip_cell, lemma_cell_index, remap, set_cell,
    Board,
};
use crate::laws::lemma_dead_stays_dead;
use crate::snapshot::{load, malformed_lines, save};
use crate::text::{decimal, lines_of, push_decimal};
use vstd::prelude::*;
use vstd::string::StringExecFns;

verus! {

/// Rows and columns of the board that a new automaton starts with.
pub const START_SIZE: usize = 40;

/// The longest target time of a generation, in tenths of a second.
pub const MAX_STEP_TENTHS: u8 = 20;

/// The target time of a generation that a new automaton starts with, in
/// tenths of a second.
pub const START_STEP_TENTHS: u8 = 5;

/// Microseconds in a tenth of a second.
pub const MICROS_PER_TENTH: u64 = 100_000;

/// How the lines of the grid are shown. It has no part in the simulation.
#[derive(Clone, Copy, Debug, PartialEq, Eq, Structural)]
pub enum GridMode {
    /// Lines between the cells.
    Lines,
    /// No lines; dead cells in two alternating shades.
    Shaded,
    /// Neither lines nor shades.
    Off,
}

/// The mathematical state of an automaton.
pub struct GameState {
    /// The current generation.
    pub board: Board,
    /// The pattern that a reset restores.
    pub snapshot: Board,
    /// The target time of a generation, in tenths of a second.
    pub step_tenths: nat,
    /// The time that the last generation took, in microseconds.
    pub last_step_micros: nat,
    /// The time since the last generation, in microseconds.
    pub elapsed_micros: nat,
    /// Whether cells are edited by hand and the clock is suspended.
    pub drawing: bool,
    /// How the lines of the grid are shown.
    pub grid_mode: GridMode,
    /// Whether the clock is suspended and generations are advanced by hand.
    pub paused: bool,
}

impl GameState {
    /// The board and the snapshot are well formed and of one shape that a
    /// buffer can hold, and the clock is within its limits.
    pub open spec fn valid(self) -> bool {
        &&& self.board.wf()
        &&& self.snapshot.wf()
        &&& self.snapshot.rows == self.board.rows
        &&& self.snapshot.cols == self.board.cols
        &&& self.board.rows * self.board.cols <= usize::MAX
        &&& self.step_tenths <= MAX_STEP_TENTHS
        &&& self.last_step_micros <= u64::MAX
        &&& self.elapsed_micros <= u64::MAX
    }

    /// The state after one generation.
    pub open spec fn stepped(self) -> GameState {
        GameState { board: self.board.step(), ..self }
    }

    /// The state with new extents: the board and the snapshot are remapped in
    /// the same way.
    pub open spec fn resized(self, rows: nat, cols: nat) -> GameState {
        GameState {
            board: self.board.resized(rows, cols),
            snapshot: self.snapshot.resized(rows, cols),
            ..self
        }
    }

    /// The state after a reset: the board is the snapshot again and the clock
    /// starts anew.
    pub open spec fn restored(self) -> GameState {
        GameState { board: self.snapshot, elapsed_micros: 0, ..self }
    }

    /// The state after a text was loaded onto the board.
    pub open spec fn loaded(self, text: Seq<char>) -> GameState {
        GameState { board: self.board.loaded(text), ..self }
    }

    /// The state that a new automaton starts in: a glider on an otherwise
    /// dead board, the same pattern as the snapshot, and a running clock.
    pub open spec fn initial() -> GameState {
        let board = Board::blank(START_SIZE as nat, START_SIZE as nat).with_glider();
        GameState {
            board,
            snapshot: board,
            step_tenths: START_STEP_TENTHS as nat,
            last_step_micros: (START_STEP_TENTHS * MICROS_PER_TENTH) as nat,
            elapsed_micros: 0,
            drawing: false,
            grid_mode: GridMode::Lines,
            paused: false,
        }
    }

    /// The state after the drawing mode was toggled. Entering it clears the
    /// board; leaving it makes the board the snapshot.
    pub open spec fn draw_toggled(self) -> GameState {
        if self.drawing {
            GameState { snapshot: self.board, drawing: false, ..self }
        } else {
            GameState { board: self.board.cleared(), drawing: true, ..self }
        }
    }

    /// The state after the cell in column `x` of row `y` was painted: in
    /// drawing mode the cell is inverted, otherwise nothing changes.
    pub open spec fn painted(self, x: int, y: int) -> GameState {
        if self.drawing {
            GameState { board: self.board.toggled(x, y), ..self }
        } else {
            self
        }
    }

    /// The state with a target time that is a tenth of a second longer, up
    /// to the longest.
    pub open spec fn slowed(self) -> GameState {
        GameState {
            step_tenths: if self.step_tenths < MAX_STEP_TENTHS {
                self.step_tenths + 1
            } else {
                MAX_STEP_TENTHS as nat
            },
            ..self
        }
    }

    /// The state with a target time that is a tenth of a second shorter,
    /// down to zero.
    pub open spec fn hastened(self) -> GameState {
        GameState {
            step_tenths: if self.step_tenths > 0 {
                (self.step_tenths - 1) as nat
            } else {
                0
            },
            ..self
        }
    }

    /// The state with the next way of showing the grid.
    pub open spec fn grid_mode_cycled(self) -> GameState {
        GameState {
            grid_mode: match self.grid_mode {
                GridMode::Lines => GridMode::Shaded,
                GridMode::Shaded => GridMode::Off,
                GridMode::Off => GridMode::Lines,
            },
            ..self
        }
    }

    /// The state after the pause was toggled. In drawing mode the toggle is
    /// suspended.
    pub open spec fn pause_toggled(self) -> GameState {
        if self.drawing {
            self
        } else {
            GameState { paused: !self.paused, ..self }
        }
    }

    /// The state after a single step was asked for: one generation while
    /// paused and not drawing, otherwise nothing.
    pub open spec fn single_stepped(self) -> GameState {
        if self.paused && !self.drawing {
            self.stepped()
        } else {
            self
        }
    }

    /// The state with one row and one column less.
    pub open spec fn shrunk(self) -> GameState {
        self.resized((self.board.rows - 1) as nat, (self.board.cols - 1) as nat)
    }

    /// The state with one row and one column more, unless a buffer cannot
    /// hold that many cells.
    pub open spec fn grown(self) -> GameState {
        if (self.board.rows + 1) * (self.board.cols + 1) <= usize::MAX {
            self.resized(self.board.rows + 1, self.board.cols + 1)
        } else {
            self
        }
    }

    /// The state after the keys that change the mode: first the toggle of
    /// the drawing mode, then the reset.
    pub open spec fn after_mode_keys(self, input: Input) -> GameState {
        let s = if input.toggle_draw {
            self.draw_toggled()
        } else {
            self
        };
        if input.reset {
            s.restored()
        } else {
            s
        }
    }

    /// The state after the keys that change the target time: first the
    /// longer one, then the shorter one.
    pub open spec fn after_clock_keys(self, input: Input) -> GameState {
        let s = if input.increase_step_time {
            self.slowed()
        } else {
            self
        };
        if input.decrease_step_time {
            s.hastened()
        } else {
            s
        }
    }

    /// The state after the keys that change the extents: first the smaller
    /// board, then the larger one.
    pub open spec fn after_size_keys(self, input: Input) -> GameState {
        let s = if input.shrink {
            self.shrunk()
        } else {
            self
        };
        if input.grow {
            s.grown()
        } else {
            s
        }
    }

    /// The state after the remaining keys: the way of showing the grid, then
    /// the pause, then the single step.
    pub open spec fn after_run_keys(self, input: Input) -> GameState {
        let s = if input.cycle_grid_mode {
            self.grid_mode_cycled()
        } else {
            self
        };
        let s = if input.toggle_pause {
            s.pause_toggled()
        } else {
            s
        };
        if input.single_step {
            s.single_stepped()
        } else {
            s
        }
    }

    /// The state after the key inputs of one frame, which are applied in a
    /// fixed order, and before its pointer input.
    pub open spec fn after_keys(self, input: Input) -> GameState {
        self.after_mode_keys(input).after_clock_keys(input).after_size_keys(input).after_run_keys(
            input,
        )
    }

    /// The state after all inputs of one frame.
    pub open spec fn after_input(self, input: Input) -> GameState {
        let s = self.after_keys(input);
        match input.pointer {
            Some((x, y)) => s.painted(x as int, y as int),
            None => s,
        }
    }

    /// What the inputs of one frame ask of the host: to open a file, and the
    /// text to save. Both are asked for in drawing mode only, and the text is
    /// that of the board before the pointer input is applied.
    pub open spec fn requests(self, input: Input) -> (bool, Option<Seq<char>>) {
        let s = self.after_keys(input);
        (
            s.drawing && input.open_file,
            if s.drawing && input.save_file {
                Some(s.board.saved_text())
            } else {
                None
            },
        )
    }

    /// The state after `delta` microseconds have passed. The time is added
    /// to the time since the last generation, up to what the counter holds.
    /// Unless the automaton is drawing or paused, a generation is due once
    /// that time has reached the target time.
    pub open spec fn ticked(self, delta: nat) -> GameState {
        let elapsed = if self.elapsed_micros + delta <= u64::MAX {
            self.elapsed_micros + delta
        } else {
            u64::MAX as nat
        };
        if self.drawing || self.paused || elapsed < self.step_tenths * MICROS_PER_TENTH {
            GameState { elapsed_micros: elapsed, ..self }
        } else {
            GameState {
                board: self.board.step(),
                last_step_micros: elapsed,
                elapsed_micros: 0,
                ..self
            }
        }
    }

    /// The state after one frame: its inputs, then the passing of time.
    pub open spec fn updated(self, input: Input, delta: nat) -> GameState {
        self.after_input(input).ticked(delta)
    }

    /// The colour in which the cell at `(row, col)` is shown: green where it
    /// is live; otherwise, with shades, gray where row and column are both
    /// even or both odd and dark gray elsewhere; otherwise white.
    pub open spec fn cell_color(self, row: int, col: int) -> CellColor {
        if self.board.alive(row, col) {
            CellColor::Green
        } else if self.grid_mode == GridMode::Shaded {
            if row % 2 == col % 2 {
                CellColor::Gray
            } else {
                CellColor::DarkGray
            }
        } else {
            CellColor::White
        }
    }

    /// The second line of the status text, which tells the mode: drawing,
    /// else paused, else running with the target time to one decimal and the
    /// time of the last generation to two.
    pub open spec fn mode_text(self) -> Seq<char> {
        if self.drawing {
            "drawing mode. press Space to continue O: open file, S: save to file"@
        } else if self.paused {
            "Paused, P to continue, S to step"@
        } else {
            "Delay Target: "@ + tenths_text(self.step_tenths) + "s, Delay: "@ + hundredths_text(
                rounded_hundredths(self.last_step_micros),
            ) + "s press P to pause and step"@
        }
    }

    /// The status text: the keys, and below them the mode.
    pub open spec fn status_text(self) -> Seq<char> {
        "Space: draw, R: reset,  Up/Down: delay, Left/Right: size, G: grid mode"@ + seq!['\n']
            + self.mode_text()
    }
}

/// A time of `tenths` tenths of a second, written in seconds with one
/// decimal.
pub open spec fn tenths_text(tenths: nat) -> Seq<char> {
    decimal(tenths / 10) + seq!['.'] + decimal(tenths % 10)
}

/// A time of `hundredths` hundredths of a second, written in seconds with two
/// decimals.
pub open spec fn hundredths_text(hundredths: nat) -> Seq<char> {
    decimal(hundredths / 100) + seq!['.'] + decimal((hundredths % 100) / 10) + decimal(
        hundredths % 10,
    )
}

/// A time in microseconds as hundredths of a second, rounded to the nearest,
/// halves upwards.
pub open spec fn rounded_hundredths(micros: nat) -> nat {
    (micros + 5_000) / 10_000
}

/// The colour in which a cell is shown.
#[derive(Clone, Copy, Debug, PartialEq, Eq, Structural)]
pub enum CellColor {
    /// A live cell.
    Green,
    /// A dead cell on a shaded grid whose row and column are both even or
    /// both odd.
    Gray,
    /// Any other dead cell on a shaded grid.
    DarkGray,
    /// A dead cell on a grid without shades; the background shows.
    White,
}

/// The inputs of one frame. A key input is `true` in the frame in which the
/// key went down.
#[derive(Clone, Copy, Debug)]
pub struct Input {
    /// Enter or leave the drawing mode.
    pub toggle_draw: bool,
    /// Restore the snapshot.
    pub reset: bool,
    /// Make the target time of a generation longer.
    pub increase_step_time: bool,
    /// Make the target time of a generation shorter.
    pub decrease_step_time: bool,
    /// Take a row and a column from the board.
    pub shrink: bool,
    /// Add a row and a column to the board.
    pub grow: bool,
    /// Show the grid in the next way.
    pub cycle_grid_mode: bool,
    /// Pause or continue.
    pub toggle_pause: bool,
    /// Advance one generation by hand.
    pub single_step: bool,
    /// Load a file onto the board.
    pub open_file: bool,
    /// Save the board to a file.
    pub save_file: bool,
    /// The cell under the pointer, column first, in a frame in which its
    /// button went down.
    pub pointer: Option<(usize, usize)>,
}

impl Input {
    /// The input of a frame in which nothing happened.
    pub open spec fn idle() -> Input {
        Input {
            toggle_draw: false,
            reset: false,
            increase_step_time: false,
            decrease_step_time: false,
            shrink: false,
            grow: false,
            cycle_grid_mode: false,
            toggle_pause: false,
            single_step: false,
            open_file: false,
            save_file: false,
            pointer: None,
        }
    }
}

impl Default for Input {
    fn default() -> (input: Input)
        ensures
            input == Input::idle(),
    {
        Input {
            toggle_draw: false,
            reset: false,
            increase_step_time: false,
            decrease_step_time: false,
            shrink: false,
            grow: false,
            cycle_grid_mode: false,
            toggle_pause: false,
            single_step: false,
            open_file: false,
            save_file: false,
            pointer: None,
        }
    }
}

/// What a frame asks of the host.
#[derive(Debug)]
pub struct Requests {
    /// Pick a file and hand its text to `load_from_text`.
    pub open_file: bool,
    /// Write this text to a file.
    pub save_text: Option<String>,
}

impl View for Requests {
    type V = (bool, Option<Seq<char>>);

    open spec fn view(&self) -> (bool, Option<Seq<char>>) {
        (
            self.open_file,
            match self.save_text {
                Some(text) => Some(text@),
                None => None,
            },
        )
    }
}

/// An automaton with its buffers.
pub struct GameOfLife {
    rows: usize,
    cols: usize,
    cells: Vec<bool>,
    next_cells: Vec<bool>,
    reset_cells: Vec<bool>,
    step_tenths: u8,
    last_step_micros: u64,
    elapsed_micros: u64,
    drawing_mode: bool,
    grid_mode: GridMode,
    paused: bool,
}

impl View for GameOfLife {
    type V = GameState;

    closed spec fn view(&self) -> GameState {
        GameState {
            board: board_of(self.rows, self.cols, self.cells@),
            snapshot: board_of(self.rows, self.cols, self.reset_cells@),
            step_tenths: self.step_tenths as nat,
            last_step_micros: self.last_step_micros as nat,
            elapsed_micros: self.elapsed_micros as nat,
            drawing: self.drawing_mode,
            grid_mode: self.grid_mode,
            paused: self.paused,
        }
    }
}

impl Default for GameOfLife {
    fn default() -> (game: GameOfLife)
        ensures
            game.wf(),
            game@ == GameState::initial(),
    {
        GameOfLife::new()
    }
}

impl GameOfLife {
    /// The state is valid and the scratch buffer has the size of the board.
    pub closed spec fn wf(&self) -> bool {
        &&& self@.valid()
        &&& self.next_cells@.len() == self.cells@.len()
    }

    /// A well-formed automaton has a valid state.
    pub proof fn lemma_wf_valid(&self)
        requires
            self.wf(),
        ensures
            self@.valid(),
    {
    }

    /// A new automaton: a board of `START_SIZE` rows and columns with a
    /// glider in its top left corner.
    pub fn new() -> (game: GameOfLife)
        ensures
            game.wf(),
            game@ == GameState::initial(),
    {
        let mut game = GameOfLife {
            rows: START_SIZE,
            cols: START_SIZE,
            cells: blank_cells(START_SIZE, START_SIZE),
            next_cells: blank_cells(START_SIZE, START_SIZE),
            reset_cells: blank_cells(START_SIZE, START_SIZE),
            step_tenths: START_STEP_TENTHS,
            last_step_micros: 500_000,
            elapsed_micros: 0,
            drawing_mode: false,
            grid_mode: GridMode::Lines,
            paused: false,
        };
        game.spawn_glider();
        game.reset_cells = copy_cells(&game.cells);
        game
    }

    /// Sets a glider into the top left corner of the board.
    pub fn spawn_glider(&mut self)
        requires
            old(self).wf(),
        ensures
            final(self).wf(),
            final(self)@ == (GameState { board: old(self)@.board.with_glider(), ..old(self)@ }),
    {
        set_cell(&mut self.cells, self.rows, self.cols, 0, 1, true);
        set_cell(&mut self.cells, self.rows, self.cols, 1, 2, true);
        set_cell(&mut self.cells, self.rows, self.cols, 2, 0, true);
        set_cell(&mut self.cells, self.rows, self.cols, 2, 1, true);
        set_cell(&mut self.cells, self.rows, self.cols, 2, 2, true);
    }

    /// The linear index of the cell in column `x` of row `y`.
    pub fn get_index(&self, x: usize, y: usize) -> (index: usize)
        requires
            self.wf(),
            self@.board.contains(y as int, x as int),
        ensures
            index == y * self@.board.cols + x,
            index < self@.board.cells.len(),
    {
        proof {
            lemma_cell_index(self.rows as int, self.cols as int, y as int, x as int);
        }
        y * self.cols + x
    }

    /// Restores the snapshot and starts the clock anew.
    pub fn reset(&mut self)
        requires
            old(self).wf(),
        ensures
            final(self).wf(),
            final(self)@ == old(self)@.restored(),
    {
        self.cells = copy_cells(&self.reset_cells);
        self.elapsed_micros = 0;
    }

    /// Enters or leaves the drawing mode. Entering it clears the board;
    /// leaving it makes the board the snapshot that a reset restores.
    pub fn toggle_drawing_mode(&mut self)
        requires
            old(self).wf(),
        ensures
            final(self).wf(),
            final(self)@ == old(self)@.draw_toggled(),
            !old(self)@.drawing ==> final(self)@.board.all_dead(),
    {
        if self.drawing_mode {
            self.reset_cells = copy_cells(&self.cells);
        } else {
            clear(&mut self.cells);
        }
        self.drawing_mode = !self.drawing_mode;
    }

    /// Inverts the cell in column `x` of row `y` while in drawing mode. A
    /// position off the board is ignored, and so is any position outside
    /// drawing mode.
    pub fn paint_cell(&mut self, x: usize, y: usize)
        requires
            old(self).wf(),
        ensures
            final(self).wf(),
            final(self)@ == old(self)@.painted(x as int, y as int),
    {
        if self.drawing_mode {
            flip_cell(&mut self.cells, self.rows, self.cols, x, y);
        }
    }

    /// Makes the target time of a generation a tenth of a second longer, up
    /// to two seconds.
    pub fn increase_step_time(&mut self)
        requires
            old(self).wf(),
        ensures
            final(self).wf(),
            final(self)@ == old(self)@.slowed(),
    {
        if self.step_tenths < MAX_STEP_TENTHS {
            self.step_tenths = self.step_tenths + 1;
        } else {
            self.step_tenths = MAX_STEP_TENTHS;
        }
    }

    /// Makes the target time of a generation a tenth of a second shorter,
    /// down to zero, at which every frame is a generation.
    pub fn decrease_step_time(&mut self)
        requires
            old(self).wf(),
        ensures
            final(self).wf(),
            final(self)@ == old(self)@.hastened(),
    {
        if self.step_tenths > 0 {
            self.step_tenths = self.step_tenths - 1;
        }
    }

    /// Shows the grid in the next way: lines, shades, neither, lines again.
    pub fn cycle_grid_mode(&mut self)
        requires
            old(self).wf(),
        ensures
            final(self).wf(),
            final(self)@ == old(self)@.grid_mode_cycled(),
    {
        self.grid_mode = match self.grid_mode {
            GridMode::Lines => GridMode::Shaded,
            GridMode::Shaded => GridMode::Off,
            GridMode::Off => GridMode::Lines,
        };
    }

    /// Pauses or continues, unless the automaton is in drawing mode.
    pub fn toggle_pause(&mut self)
        requires
            old(self).wf(),
        ensures
            final(self).wf(),
            final(self)@ == old(self)@.pause_toggled(),
    {
        if !self.drawing_mode {
            self.paused = !self.paused;
        }
    }

    /// Advances the board by one generation.
    pub fn update_cells(&mut self)
        requires
            old(self).wf(),
        ensures
            final(self).wf(),
            final(self)@ == old(self)@.stepped(),
            old(self)@.board.all_dead() ==> final(self)@.board.all_dead(),
    {
        proof {
            if self@.board.all_dead() {
                lemma_dead_stays_dead(self@.board);
            }
        }
        advance(&self.cells, &mut self.next_cells, self.rows, self.cols);
        core::mem::swap(&mut self.cells, &mut self.next_cells);
    }

    /// Gives the board new extents. Cells keep their positions; extents
    /// below one are refused and change nothing.
    pub fn resize(&mut self, rows: usize, cols: usize)
        requires
            old(self).wf(),
            rows * cols <= usize::MAX,
        ensures
            final(self).wf(),
            final(self)@ == old(self)@.resized(rows as nat, cols as nat),
            rows < 1 || cols < 1 ==> final(self)@ == old(self)@,
    {
        if rows < 1 || cols < 1 {
            return ;
        }
        let cells: Vec<bool> = remap(&self.cells, self.rows, self.cols, rows, cols);
        let reset_cells: Vec<bool> = remap(&self.reset_cells, self.rows, self.cols, rows, cols);
        self.cells = cells;
        self.reset_cells = reset_cells;
        self.next_cells.resize(rows * cols, false);
        self.rows = rows;
        self.cols = cols;
    }

    /// Takes one row and one column from the board. A board with a single
    /// row or a single column stays as it is.
    pub fn shrink(&mut self)
        requires
            old(self).wf(),
        ensures
            final(self).wf(),
            final(self)@ == old(self)@.shrunk(),
    {
        proof {
            assert((self.rows - 1) * (self.cols - 1) <= self.rows * self.cols) by (nonlinear_arith)
                requires
                    self.rows >= 1,
                    self.cols >= 1,
            ;
        }
        self.resize(self.rows - 1, self.cols - 1);
    }

    /// Adds one row and one column to the board, unless a buffer cannot hold
    /// that many cells.
    pub fn grow(&mut self)
        requires
            old(self).wf(),
        ensures
            final(self).wf(),
            final(self)@ == old(self)@.grown(),
    {
        proof {
            assert((self.rows + 1) * (self.cols + 1) > self.rows && (self.rows + 1) * (self.cols
                + 1) > self.cols) by (nonlinear_arith)
                requires
                    self.rows >= 1,
                    self.cols >= 1,
            ;
        }
        let rows: usize = match self.rows.checked_add(1) {
            Some(rows) => rows,
            None => { return ; },
        };
        let cols: usize = match self.cols.checked_add(1) {
            Some(cols) => cols,
            None => { return ; },
        };
        if rows.checked_mul(cols).is_some() {
            self.resize(rows, cols);
        }
    }

    /// Applies the keys that change the mode.
    fn apply_mode_keys(&mut self, input: &Input)
        requires
            old(self).wf(),
        ensures
            final(self).wf(),
            final(self)@ == old(self)@.after_mode_keys(*input),
    {
        if input.toggle_draw {
            self.toggle_drawing_mode();
        }
        if input.reset {
            self.reset();
        }
    }

    /// Applies the keys that change the target time.
    fn apply_clock_keys(&mut self, input: &Input)
        requires
            old(self).wf(),
        ensures
            final(self).wf(),
            final(self)@ == old(self)@.after_clock_keys(*input),
    {
        if input.increase_step_time {
            self.increase_step_time();
        }
        if input.decrease_step_time {
            self.decrease_step_time();
        }
    }

    /// Applies the keys that change the extents.
    fn apply_size_keys(&mut self, input: &Input)
        requires
            old(self).wf(),
        ensures
            final(self).wf(),
            final(self)@ == old(self)@.after_size_keys(*input),
    {
        if input.shrink {
            self.shrink();
        }
        if input.grow {
            self.grow();
        }
    }

    /// Applies the keys for the way of showing the grid, the pause and the
    /// single step.
    fn apply_run_keys(&mut self, input: &Input)
        requires
            old(self).wf(),
        ensures
            final(self).wf(),
            final(self)@ == old(self)@.after_run_keys(*input),
    {
        if input.cycle_grid_mode {
            self.cycle_grid_mode();
        }
        if input.toggle_pause {
            self.toggle_pause();
        }
        if input.single_step && self.paused && !self.drawing_mode {
            self.update_cells();
        }
    }

    /// Applies the inputs of one frame, the key inputs in a fixed order and
    /// then the pointer input, and returns what they ask of the host.
    pub fn handle_input(&mut self, input: &Input) -> (requests: Requests)
        requires
            old(self).wf(),
        ensures
            final(self).wf(),
            final(self)@ == old(self)@.after_input(*input),
            requests@ == old(self)@.requests(*input),
    {
        self.apply_mode_keys(input);
        self.apply_clock_keys(input);
        self.apply_size_keys(input);
        self.apply_run_keys(input);
        let open_file: bool = self.drawing_mode && input.open_file;
        let save_text: Option<String> = if self.drawing_mode && input.save_file {
            Some(self.save_to_text())
        } else {
            None
        };
        match input.pointer {
            Some((x, y)) => {
                self.paint_cell(x, y);
            },
            None => {},
        }
        Requests { open_file, save_text }
    }

    /// Lets `delta_micros` microseconds pass, and advances the board by one
    /// generation where that is due.
    pub fn tick(&mut self, delta_micros: u64)
        requires
            old(self).wf(),
        ensures
            final(self).wf(),
            final(self)@ == old(self)@.ticked(delta_micros as nat),
    {
        self.elapsed_micros = self.elapsed_micros.saturating_add(delta_micros);
        let target: u64 = self.step_tenths as u64 * MICROS_PER_TENTH;
        if self.drawing_mode || self.elapsed_micros < target || self.paused {
            return ;
        }
        self.last_step_micros = self.elapsed_micros;
        self.elapsed_micros = 0;
        self.update_cells();
    }

    /// Runs one frame: applies its inputs, then lets `delta_micros`
    /// microseconds pass.
    pub fn update(&mut self, input: &Input, delta_micros: u64) -> (requests: Requests)
        requires
            old(self).wf(),
        ensures
            final(self).wf(),
            final(self)@ == old(self)@.updated(*input, delta_micros as nat),
            requests@ == old(self)@.requests(*input),
    {
        let requests: Requests = self.handle_input(input);
        self.tick(delta_micros);
        requests
    }

    /// Loads a text onto the board and returns its malformed lines. Cells can
    /// only become live by it.
    pub fn load_from_text(&mut self, text: &str) -> (malformed: Vec<String>)
        requires
            old(self).wf(),
        ensures
            final(self).wf(),
            final(self)@ == old(self)@.loaded(text@),
            malformed.deep_view() == malformed_lines(lines_of(text@)),
    {
        load(&mut self.cells, self.rows, self.cols, text)
    }

    /// The number of rows of the board.
    pub fn rows(&self) -> (rows: usize)
        requires
            self.wf(),
        ensures
            rows == self@.board.rows,
            rows >= 1,
    {
        self.rows
    }

    /// The number of columns of the board.
    pub fn cols(&self) -> (cols: usize)
        requires
            self.wf(),
        ensures
            cols == self@.board.cols,
            cols >= 1,
    {
        self.cols
    }

    /// Whether the cell at `(row, col)` is live. A position off the board is
    /// dead.
    pub fn cell(&self, row: usize, col: usize) -> (alive: bool)
        requires
            self.wf(),
        ensures
            alive == self@.board.alive(row as int, col as int),
    {
        if row < self.rows && col < self.cols {
            let index: usize = self.get_index(col, row);
            self.cells[index]
        } else {
            false
        }
    }

    /// Whether the cell at `(row, col)` of the snapshot is live.
    pub fn snapshot_cell(&self, row: usize, col: usize) -> (alive: bool)
        requires
            self.wf(),
        ensures
            alive == self@.snapshot.alive(row as int, col as int),
    {
        if row < self.rows && col < self.cols {
            let index: usize = self.get_index(col, row);
            self.reset_cells[index]
        } else {
            false
        }
    }

    /// How the lines of the grid are shown.
    pub fn grid_mode(&self) -> (mode: GridMode)
        ensures
            mode == self@.grid_mode,
    {
        self.grid_mode
    }

    /// Whether the automaton is in drawing mode.
    pub fn is_drawing(&self) -> (drawing: bool)
        ensures
            drawing == self@.drawing,
    {
        self.drawing_mode
    }

    /// Whether the automaton is paused.
    pub fn is_paused(&self) -> (paused: bool)
        ensures
            paused == self@.paused,
    {
        self.paused
    }

    /// The target time of a generation, in tenths of a second.
    pub fn step_tenths(&self) -> (tenths: u8)
        ensures
            tenths == self@.step_tenths,
    {
        self.step_tenths
    }

    /// The time that the last generation took, in microseconds.
    pub fn last_step_micros(&self) -> (micros: u64)
        ensures
            micros == self@.last_step_micros,
    {
        self.last_step_micros
    }

    /// The time since the last generation, in microseconds.
    pub fn elapsed_micros(&self) -> (micros: u64)
        ensures
            micros == self@.elapsed_micros,
    {
        self.elapsed_micros
    }

    /// The colour in which the cell at `(row, col)` is shown.
    pub fn cell_color(&self, row: usize, col: usize) -> (color: CellColor)
        requires
            self.wf(),
        ensures
            color == self@.cell_color(row as int, col as int),
    {
        if self.cell(row, col) {
            CellColor::Green
        } else if self.grid_mode == GridMode::Shaded {
            if row % 2 == col % 2 {
                CellColor::Gray
            } else {
                CellColor::DarkGray
            }
        } else {
            CellColor::White
        }
    }

    /// The status text: the keys, and below them the mode.
    pub fn status_text(&self) -> (text: String)
        ensures
            text@ == self@.status_text(),
    {
        let mut text: String =
            "Space: draw, R: reset,  Up/Down: delay, Left/Right: size, G: grid mode".to_owned();
        text.push('\n');
        if self.drawing_mode {
            text.append("drawing mode. press Space to continue O: open file, S: save to file");
        } else if self.paused {
            text.append("Paused, P to continue, S to step");
        } else {
            let tenths: u64 = self.step_tenths as u64;
            let hundredths: u64 = if self.last_step_micros % 10_000 >= 5_000 {
                self.last_step_micros / 10_000 + 1
            } else {
                self.last_step_micros / 10_000
            };
            text.append("Delay Target: ");
            push_decimal(&mut text, tenths / 10);
            text.push('.');
            push_decimal(&mut text, tenths % 10);
            text.append("s, Delay: ");
            push_decimal(&mut text, hundredths / 100);
            text.push('.');
            push_decimal(&mut text, (hundredths % 100) / 10);
            push_decimal(&mut text, hundredths % 10);
            text.append("s press P to pause and step");
        }
        text
    }

    /// The board as text.
    pub fn save_to_text(&self) -> (text: String)
        requires
            self.wf(),
        ensures
            text@ == self@.board.saved_text(),
    {
        save(&self.cells, self.rows, self.cols)
    }
}

} // verus!
