//! Laws of the automaton, proved over the model of the board and the state.

use crate::board::{lemma_cell_index, lemma_index_cell, Board};
use crate::game::{GameState, Input};
use crate::snapshot::{lemma_records_recorded, lemma_saved_lines};
use vstd::prelude::*;

verus! {

/// A generation keeps the shape of the board.
pub proof fn lemma_step_keeps_shape(b: Board)
    requires
        b.wf(),
    ensures
        b.step().wf(),
        b.step().rows == b.rows,
        b.step().cols == b.cols,
{
}

/// Each cell of the next generation follows from its own state and the number
/// of its live neighbours in the current generation.
pub proof fn lemma_step_cell(b: Board, row: int, col: int)
    requires
        b.wf(),
        b.contains(row, col),
    ensures
        b.step().alive(row, col) == crate::board::next_state(
            b.alive(row, col),
            b.live_neighbors(row, col),
        ),
{
    lemma_cell_index(b.rows as int, b.cols as int, row, col);
}

/// Nothing is born on a dead board: the generation after a board without a
/// live cell has no live cell.
pub proof fn lemma_dead_stays_dead(b: Board)
    requires
        b.wf(),
        b.all_dead(),
    ensures
        b.step().all_dead(),
{
    assert forall|i: int| 0 <= i < b.step().cells.len() implies !#[trigger] b.step().cells[i] by {
        lemma_index_cell(b.rows as int, b.cols as int, i);
        assert forall|r: int, c: int| !b.alive(r, c) by {
            if b.contains(r, c) {
                lemma_cell_index(b.rows as int, b.cols as int, r, c);
            }
        }
    }
}

/// After a resize a cell is live exactly where it was live before and its
/// position lies on the new board: cells keep their positions, what is new is
/// dead, and what no longer fits is gone.
pub proof fn lemma_resized_cell(b: Board, rows: nat, cols: nat, row: int, col: int)
    requires
        b.wf(),
        rows >= 1,
        cols >= 1,
    ensures
        b.resized(rows, cols).wf(),
        b.resized(rows, cols).rows == rows,
        b.resized(rows, cols).cols == cols,
        b.resized(rows, cols).alive(row, col) == (b.alive(row, col) && row < rows && col < cols),
{
    if 0 <= row < rows && 0 <= col < cols {
        lemma_cell_index(rows as int, cols as int, row, col);
    }
}

/// Resizing a board and then resizing it back restores every cell whose
/// position lies on both boards, and leaves every other cell dead.
pub proof fn lemma_resize_round_trip(b: Board, rows: nat, cols: nat, row: int, col: int)
    requires
        b.wf(),
        rows >= 1,
        cols >= 1,
    ensures
        b.resized(rows, cols).resized(b.rows, b.cols).wf(),
        b.resized(rows, cols).resized(b.rows, b.cols).rows == b.rows,
        b.resized(rows, cols).resized(b.rows, b.cols).cols == b.cols,
        b.resized(rows, cols).resized(b.rows, b.cols).alive(row, col) == (b.alive(row, col) && row
            < rows && col < cols),
{
    lemma_resized_cell(b, rows, cols, row, col);
    lemma_resized_cell(b.resized(rows, cols), b.rows, b.cols, row, col);
}

/// A resize to fewer than one row or fewer than one column changes nothing,
/// neither on the board nor in the snapshot.
pub proof fn lemma_resize_refused(s: GameState, rows: nat, cols: nat)
    requires
        rows < 1 || cols < 1,
    ensures
        s.resized(rows, cols) == s,
{
}

/// A resize remaps the board and the snapshot alike, so that a reset after it
/// restores the snapshot's pattern at the same positions.
pub proof fn lemma_resize_then_reset(s: GameState, rows: nat, cols: nat, row: int, col: int)
    requires
        s.valid(),
        rows >= 1,
        cols >= 1,
    ensures
        s.resized(rows, cols).restored().board.alive(row, col) == (s.snapshot.alive(row, col)
            && row < rows && col < cols),
{
    lemma_resized_cell(s.snapshot, rows, cols, row, col);
}

/// Entering the drawing mode clears the board and leaves the snapshot alone.
pub proof fn lemma_enter_drawing_clears(s: GameState)
    requires
        !s.drawing,
    ensures
        s.draw_toggled().drawing,
        s.draw_toggled().board.all_dead(),
        s.draw_toggled().snapshot == s.snapshot,
{
}

/// Leaving the drawing mode commits the drawing: a reset that follows brings
/// back the board as it was drawn, whatever the snapshot held before.
pub proof fn lemma_reset_restores_drawing(s: GameState)
    requires
        s.drawing,
    ensures
        !s.draw_toggled().drawing,
        s.draw_toggled().board == s.board,
        s.draw_toggled().restored().board == s.board,
{
}

/// Loading what was saved of a board onto another board of the same shape
/// makes live exactly the cells that were live on either.
pub proof fn lemma_load_saved(onto: Board, saved: Board)
    requires
        onto.wf(),
        saved.wf(),
        onto.rows == saved.rows,
        onto.cols == saved.cols,
        saved.rows * saved.cols <= usize::MAX,
    ensures
        onto.loaded(saved.saved_text()).rows == onto.rows,
        onto.loaded(saved.saved_text()).cols == onto.cols,
        onto.loaded(saved.saved_text()).cells == Seq::new(
            onto.cells.len(),
            |i: int| onto.cells[i] || saved.cells[i],
        ),
{
    let text = saved.saved_text();
    let len = saved.cells.len() as int;
    lemma_saved_lines(saved, len);
    assert forall|i: int| 0 <= i < len implies #[trigger] onto.loaded(text).cells[i] == (
    onto.cells[i] || saved.cells[i]) by {
        lemma_index_cell(saved.rows as int, saved.cols as int, i);
        lemma_records_recorded(saved, len, onto.col_at(i) as usize, onto.row_at(i) as usize);
    }
}

/// Saving a board and loading the text onto a dead board of the same shape
/// gives the board back.
pub proof fn lemma_load_restores(b: Board)
    requires
        b.wf(),
        b.rows * b.cols <= usize::MAX,
    ensures
        b.cleared().loaded(b.saved_text()) == b,
{
    lemma_load_saved(b.cleared(), b);
    assert(b.cleared().loaded(b.saved_text()).cells =~= b.cells);
}

/// Loading a board's own text onto it changes nothing, so saving, loading
/// and saving again gives the text of the first save.
pub proof fn lemma_save_load_save(b: Board)
    requires
        b.wf(),
        b.rows * b.cols <= usize::MAX,
    ensures
        b.loaded(b.saved_text()) == b,
        b.loaded(b.saved_text()).saved_text() == b.saved_text(),
        b.cleared().loaded(b.saved_text()).saved_text() == b.saved_text(),
{
    lemma_load_saved(b, b);
    assert(b.loaded(b.saved_text()).cells =~= b.cells);
    lemma_load_restores(b);
}

/// Loading never kills a cell and never changes the shape of the board.
pub proof fn lemma_load_merges(b: Board, text: Seq<char>, row: int, col: int)
    requires
        b.wf(),
        b.alive(row, col),
    ensures
        b.loaded(text).wf(),
        b.loaded(text).rows == b.rows,
        b.loaded(text).cols == b.cols,
        b.loaded(text).alive(row, col),
{
    lemma_cell_index(b.rows as int, b.cols as int, row, col);
}

/// Setting or inverting a cell keeps the shape of the board.
pub proof fn lemma_with_cell_keeps_shape(b: Board, x: int, y: int, state: bool)
    requires
        b.wf(),
    ensures
        b.with_cell(x, y, state).wf(),
        b.with_cell(x, y, state).rows == b.rows,
        b.with_cell(x, y, state).cols == b.cols,
        b.toggled(x, y).wf(),
        b.toggled(x, y).rows == b.rows,
        b.toggled(x, y).cols == b.cols,
{
    if b.contains(y, x) {
        lemma_cell_index(b.rows as int, b.cols as int, y, x);
    }
}

/// Setting a cell changes that cell and no other.
pub proof fn lemma_with_cell(b: Board, x: int, y: int, state: bool, row: int, col: int)
    requires
        b.wf(),
    ensures
        b.with_cell(x, y, state).alive(row, col) == if row == y && col == x {
            state && b.contains(y, x)
        } else {
            b.alive(row, col)
        },
{
    if b.contains(y, x) {
        lemma_cell_index(b.rows as int, b.cols as int, y, x);
    }
    if b.contains(row, col) {
        lemma_cell_index(b.rows as int, b.cols as int, row, col);
    }
}

/// A resize leads from a valid state to a valid state, where a buffer can
/// hold the new board.
pub proof fn lemma_resized_valid(s: GameState, rows: nat, cols: nat)
    requires
        s.valid(),
        rows * cols <= usize::MAX,
    ensures
        s.resized(rows, cols).valid(),
{
    if rows >= 1 && cols >= 1 {
        lemma_resized_cell(s.board, rows, cols, 0, 0);
        lemma_resized_cell(s.snapshot, rows, cols, 0, 0);
    }
}

/// Taking or adding a row and a column leads from a valid state to a valid
/// state.
pub proof fn lemma_shrunk_grown_valid(s: GameState)
    requires
        s.valid(),
    ensures
        s.shrunk().valid(),
        s.grown().valid(),
{
    let rows = s.board.rows;
    let cols = s.board.cols;
    assert((rows - 1) * (cols - 1) <= rows * cols) by (nonlinear_arith)
        requires
            rows >= 1,
            cols >= 1,
    ;
    lemma_resized_valid(s, (rows - 1) as nat, (cols - 1) as nat);
    if (rows + 1) * (cols + 1) <= usize::MAX {
        lemma_resized_valid(s, rows + 1, cols + 1);
    }
}

/// A generation, a reset, a toggle of the drawing mode and a painted cell
/// each lead from a valid state to a valid state.
pub proof fn lemma_board_changes_valid(s: GameState, x: int, y: int)
    requires
        s.valid(),
    ensures
        s.stepped().valid(),
        s.restored().valid(),
        s.draw_toggled().valid(),
        s.painted(x, y).valid(),
{
    lemma_with_cell_keeps_shape(s.board, x, y, true);
}

/// The key inputs of a frame lead from a valid state to a valid state.
pub proof fn lemma_after_keys_valid(s: GameState, input: Input)
    requires
        s.valid(),
    ensures
        s.after_keys(input).valid(),
{
    let before_resize = s.after_mode_keys(input).after_clock_keys(input);
    lemma_shrunk_grown_valid(before_resize);
    if input.shrink {
        lemma_shrunk_grown_valid(before_resize.shrunk());
    }
}

/// The inputs of a frame lead from a valid state to a valid state.
pub proof fn lemma_after_input_valid(s: GameState, input: Input)
    requires
        s.valid(),
    ensures
        s.after_input(input).valid(),
{
    lemma_after_keys_valid(s, input);
    match input.pointer {
        Some((x, y)) => {
            lemma_board_changes_valid(s.after_keys(input), x as int, y as int);
        },
        None => {},
    }
}

/// Loading a text leads from a valid state to a valid state.
pub proof fn lemma_loaded_valid(s: GameState, text: Seq<char>)
    requires
        s.valid(),
    ensures
        s.loaded(text).valid(),
{
}

/// The passing of time leads from a valid state to a valid state.
pub proof fn lemma_ticked_valid(s: GameState, delta: nat)
    requires
        s.valid(),
    ensures
        s.ticked(delta).valid(),
{
}

/// A frame leads from a valid state to a valid state.
pub proof fn lemma_updated_valid(s: GameState, input: Input, delta: nat)
    requires
        s.valid(),
    ensures
        s.updated(input, delta).valid(),
{
    lemma_after_input_valid(s, input);
    lemma_ticked_valid(s.after_input(input), delta);
}

/// A new automaton starts in a valid state.
pub proof fn lemma_initial_valid()
    ensures
        GameState::initial().valid(),
{
    let blank = Board::blank(crate::game::START_SIZE as nat, crate::game::START_SIZE as nat);
    lemma_with_cell_keeps_shape(blank, 0, 1, true);
    let b1 = blank.with_cell(0, 1, true);
    lemma_with_cell_keeps_shape(b1, 1, 2, true);
    let b2 = b1.with_cell(1, 2, true);
    lemma_with_cell_keeps_shape(b2, 2, 0, true);
    let b3 = b2.with_cell(2, 0, true);
    lemma_with_cell_keeps_shape(b3, 2, 1, true);
    let b4 = b3.with_cell(2, 1, true);
    lemma_with_cell_keeps_shape(b4, 2, 2, true);
}

/// A single step by hand and a pause leave the clock as it is.
pub proof fn lemma_single_step_keeps_clock(s: GameState)
    ensures
        s.single_stepped().elapsed_micros == s.elapsed_micros,
        s.single_stepped().last_step_micros == s.last_step_micros,
        s.single_stepped().step_tenths == s.step_tenths,
        s.pause_toggled().elapsed_micros == s.elapsed_micros,
        s.paused && !s.drawing ==> s.single_stepped().board == s.board.step(),
        !s.paused || s.drawing ==> s.single_stepped() == s,
{
}

/// While the automaton is drawing or paused, time passes without a
/// generation.
pub proof fn lemma_suspended_clock(s: GameState, delta: nat)
    requires
        s.drawing || s.paused,
    ensures
        s.ticked(delta).board == s.board,
        s.ticked(delta).snapshot == s.snapshot,
        s.ticked(delta).last_step_micros == s.last_step_micros,
{
}

/// The target time of a generation stays between zero and two seconds.
pub proof fn lemma_step_time_limits(s: GameState)
    requires
        s.step_tenths <= crate::game::MAX_STEP_TENTHS,
    ensures
        s.slowed().step_tenths <= crate::game::MAX_STEP_TENTHS,
        s.hastened().step_tenths <= crate::game::MAX_STEP_TENTHS,
        s.slowed().step_tenths == s.step_tenths + 1 || s.step_tenths == crate::game::MAX_STEP_TENTHS,
        s.hastened().step_tenths + 1 == s.step_tenths || s.step_tenths == 0,
{
}

} // verus!
