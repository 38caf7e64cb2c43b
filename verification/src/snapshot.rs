//! Writing a board as text and loading text onto a board.

use crate::board::{board_of, lemma_cell_index, lemma_index_cell, set_cell, Board};
use crate::text::{
    cell_line, chars_of, classify, lemma_classify_record, lemma_lines_of_push, lines_of, next_line,
    push_decimal, read_line, record, string_of, Line,
};
use vstd::prelude::*;

verus! {

/// Whether some line of `lines` records the cell in column `x` of row `y`.
pub open spec fn recorded(lines: Seq<Seq<char>>, x: usize, y: usize) -> bool {
    exists|i: int| 0 <= i < lines.len() && classify(#[trigger] lines[i]) == (Line::Cell { x, y })
}

/// Whether a line is neither empty, nor a comment, nor the record of a cell.
pub open spec fn is_malformed(line: Seq<char>) -> bool {
    classify(line) is Malformed
}

/// The malformed lines among `lines`, in their order.
pub open spec fn malformed_lines(lines: Seq<Seq<char>>) -> Seq<Seq<char>> {
    lines.filter(|line: Seq<char>| is_malformed(line))
}

impl Board {
    /// The board after a text was loaded onto it: a cell is live where it was
    /// live before or where a line of the text records it. Records of
    /// positions off the board change nothing, and no cell dies.
    pub open spec fn loaded(self, text: Seq<char>) -> Board {
        Board {
            rows: self.rows,
            cols: self.cols,
            cells: Seq::new(
                self.cells.len(),
                |i: int|
                    self.cells[i] || recorded(
                        lines_of(text),
                        self.col_at(i) as usize,
                        self.row_at(i) as usize,
                    ),
            ),
        }
    }

    /// The records of the live cells among the first `n` cells of the buffer,
    /// in the order of the buffer.
    pub open spec fn saved_upto(self, n: int) -> Seq<char>
        decreases n,
    {
        if n <= 0 {
            Seq::empty()
        } else if self.cells[n - 1] {
            self.saved_upto(n - 1) + cell_line(
                self.col_at(n - 1) as nat,
                self.row_at(n - 1) as nat,
            )
        } else {
            self.saved_upto(n - 1)
        }
    }

    /// The records of the live cells among the first `n` cells of the buffer,
    /// one by one, in the order of the buffer.
    pub open spec fn records_upto(self, n: int) -> Seq<Seq<char>>
        decreases n,
    {
        if n <= 0 {
            Seq::empty()
        } else if self.cells[n - 1] {
            self.records_upto(n - 1).push(
                record(self.col_at(n - 1) as nat, self.row_at(n - 1) as nat),
            )
        } else {
            self.records_upto(n - 1)
        }
    }

    /// The board as text: one line for each live cell, the column and then
    /// the row, in row-major order, and nothing else.
    pub open spec fn saved_text(self) -> Seq<char> {
        self.saved_upto(self.cells.len() as int)
    }
}

/// A further line adds the cell that it records, and no other.
pub proof fn lemma_recorded_push(lines: Seq<Seq<char>>, line: Seq<char>, x: usize, y: usize)
    ensures
        recorded(lines.push(line), x, y) <==> recorded(lines, x, y) || classify(line) == (Line::Cell {
            x,
            y,
        }),
{
    let more = lines.push(line);
    if recorded(lines, x, y) {
        let i = choose|i: int|
            0 <= i < lines.len() && classify(#[trigger] lines[i]) == (Line::Cell { x, y });
        assert(more[i] == lines[i]);
    }
    if classify(line) == (Line::Cell { x, y }) {
        assert(more[lines.len() as int] == line);
    }
    if recorded(more, x, y) {
        let i = choose|i: int|
            0 <= i < more.len() && classify(#[trigger] more[i]) == (Line::Cell { x, y });
        if i < lines.len() {
            assert(more[i] == lines[i]);
        }
    }
}

/// A further line joins the malformed lines if and only if it is malformed.
pub proof fn lemma_malformed_push(lines: Seq<Seq<char>>, line: Seq<char>)
    ensures
        malformed_lines(lines.push(line)) == if is_malformed(line) {
            malformed_lines(lines).push(line)
        } else {
            malformed_lines(lines)
        },
{
    reveal(Seq::filter);
    assert(lines.push(line).drop_last() =~= lines);
}

/// The lines of what is saved of the first `n` cells are the records of the
/// live cells among them, and what is saved ends in a line feed or is empty.
pub proof fn lemma_saved_lines(b: Board, n: int)
    requires
        b.wf(),
        b.rows * b.cols <= usize::MAX,
        0 <= n <= b.cells.len(),
    ensures
        lines_of(b.saved_upto(n)) == b.records_upto(n),
        b.saved_upto(n).len() == 0 || b.saved_upto(n).last() == '\n',
    decreases n,
{
    if n > 0 {
        lemma_saved_lines(b, n - 1);
        if b.cells[n - 1] {
            lemma_index_cell(b.rows as int, b.cols as int, n - 1);
            let x = b.col_at(n - 1) as usize;
            let y = b.row_at(n - 1) as usize;
            lemma_classify_record(x, y);
            lemma_lines_of_push(b.saved_upto(n - 1), record(x as nat, y as nat));
            assert(b.saved_upto(n) =~= b.saved_upto(n - 1) + record(x as nat, y as nat)
                + seq!['\n']);
        }
    }
}

/// Among the records of the first `n` cells, a cell of the board is recorded
/// if and only if it is one of them and live.
pub proof fn lemma_records_recorded(b: Board, n: int, x: usize, y: usize)
    requires
        b.wf(),
        b.rows * b.cols <= usize::MAX,
        0 <= n <= b.cells.len(),
        b.contains(y as int, x as int),
    ensures
        recorded(b.records_upto(n), x, y) <==> y * b.cols + x < n && b.cells[y * b.cols + x],
    decreases n,
{
    lemma_cell_index(b.rows as int, b.cols as int, y as int, x as int);
    if n > 0 {
        lemma_records_recorded(b, n - 1, x, y);
        if b.cells[n - 1] {
            lemma_index_cell(b.rows as int, b.cols as int, n - 1);
            let cx = b.col_at(n - 1) as usize;
            let cy = b.row_at(n - 1) as usize;
            lemma_classify_record(cx, cy);
            lemma_recorded_push(b.records_upto(n - 1), record(cx as nat, cy as nat), x, y);
        }
    }
}

/// Loads a text onto the buffer of a board and returns its malformed lines.
pub fn load(cells: &mut Vec<bool>, rows: usize, cols: usize, text: &str) -> (malformed: Vec<String>)
    requires
        board_of(rows, cols, old(cells)@).wf(),
    ensures
        board_of(rows, cols, final(cells)@) == board_of(rows, cols, old(cells)@).loaded(text@),
        malformed.deep_view() == malformed_lines(lines_of(text@)),
{
    let ghost before = board_of(rows, cols, old(cells)@);
    let chars: Vec<char> = chars_of(text);
    let mut malformed: Vec<String> = Vec::new();
    let ghost mut done: Seq<Seq<char>> = Seq::empty();
    let mut from: usize = 0;
    proof {
        reveal(Seq::filter);
        assert(chars@.skip(0) =~= chars@);
        assert(rows * cols == cells.len());
    }
    while from < chars.len()
        invariant
            before.wf(),
            before == board_of(rows, cols, old(cells)@),
            rows * cols <= usize::MAX,
            chars@ == text@,
            from <= chars@.len(),
            lines_of(text@) == done + lines_of(chars@.skip(from as int)),
            cells@.len() == before.cells.len(),
            forall|i: int|
                0 <= i < cells@.len() ==> #[trigger] cells@[i] == (before.cells[i] || recorded(
                    done,
                    before.col_at(i) as usize,
                    before.row_at(i) as usize,
                )),
            malformed.deep_view() == malformed_lines(done),
        decreases chars@.len() - from,
    {
        let (to, next) = next_line(&chars, from);
        let ghost line = chars@.subrange(from as int, to as int);
        let ghost seen = done;
        proof {
            done = seen.push(line);
            lemma_malformed_push(seen, line);
        }
        match read_line(&chars, from, to) {
            Line::Cell { x, y } => {
                set_cell(cells, rows, cols, x, y, true);
            },
            Line::Malformed => {
                let report: String = string_of(&chars, from, to);
                malformed.push(report);
            },
            Line::Skipped => {},
        }
        proof {
            assert forall|i: int| 0 <= i < cells@.len() implies #[trigger] cells@[i] == (
            before.cells[i] || recorded(done, before.col_at(i) as usize, before.row_at(i) as usize))
            by {
                lemma_index_cell(rows as int, cols as int, i);
                lemma_recorded_push(
                    seen,
                    line,
                    before.col_at(i) as usize,
                    before.row_at(i) as usize,
                );
                match classify(line) {
                    Line::Cell { x, y } => {
                        if x < cols && y < rows {
                            lemma_cell_index(rows as int, cols as int, y as int, x as int);
                        }
                    },
                    _ => {},
                }
            }
        }
        from = next;
    }
    proof {
        assert(cells@ =~= before.loaded(text@).cells);
    }
    malformed
}

/// Writes the buffer of a board as text.
pub fn save(cells: &Vec<bool>, rows: usize, cols: usize) -> (text: String)
    requires
        board_of(rows, cols, cells@).wf(),
    ensures
        text@ == board_of(rows, cols, cells@).saved_text(),
{
    let ghost b = board_of(rows, cols, cells@);
    let mut text: String = String::new();
    let mut index: usize = 0;
    while index < cells.len()
        invariant
            b == board_of(rows, cols, cells@),
            b.wf(),
            index <= cells@.len(),
            text@ == b.saved_upto(index as int),
        decreases cells@.len() - index,
    {
        if cells[index] {
            let x: usize = index % cols;
            let y: usize = index / cols;
            push_decimal(&mut text, x as u64);
            text.push(' ');
            push_decimal(&mut text, y as u64);
            text.push('\n');
        }
        index = index + 1;
    }
    text
}

} // verus!
