use vstd::arithmetic::div_mod::lemma_fundamental_div_mod_converse;
use vstd::arithmetic::mul::{
    lemma_mul_inequality, lemma_mul_is_commutative, lemma_mul_nonnegative,
};
use vstd::prelude::*;

use crate::app::NoteCalcApp;
use crate::content::{joined_lines, split_lines, EditorContent};
use crate::coords::{EditorY, Pos, Selection};
use crate::editor::{
    commands_view, Editor, EditorCommand, EditorCommandView, EditorInputEvent, InputModifiers,
};

verus! {

/// A matrix grows to this many rows and columns.
pub const MAX_MATRIX_SIZE: usize = 6;

/// What `char::is_ascii_whitespace` counts: space, tab, line feed, form feed
/// and carriage return.
pub open spec fn ascii_whitespace(ch: char) -> bool {
    ch == ' ' || ch == '\t' || ch == '\n' || ch == '\u{C}' || ch == '\r'
}

pub fn is_ascii_whitespace(ch: char) -> (r: bool)
    ensures
        r == ascii_whitespace(ch),
{
    ch == ' ' || ch == '\t' || ch == '\n' || ch == '\u{C}' || ch == '\r'
}

pub open spec fn strings_of(strings: Seq<String>) -> Seq<Seq<char>> {
    Seq::new(strings.len(), |i: int| strings[i]@)
}

/// Where the first closing bracket stands, from `from` on.
pub open spec fn closing_bracket(src: Seq<char>, from: int) -> int
    decreases src.len() - from,
{
    if from < 0 || from >= src.len() {
        src.len() as int
    } else if src[from] == ']' {
        from
    } else {
        closing_bracket(src, from + 1)
    }
}

/// A text without its opening brackets.
pub open spec fn without_opening(text: Seq<char>) -> Seq<char>
    decreases text.len(),
{
    if text.len() == 0 {
        Seq::empty()
    } else if text.last() == '[' {
        without_opening(text.drop_last())
    } else {
        without_opening(text.drop_last()).push(text.last())
    }
}

/// What stands between the brackets of a matrix.
pub open spec fn matrix_body(src: Seq<char>) -> Seq<char> {
    without_opening(src.take(closing_bracket(src, 0)))
}

pub open spec fn is_separator(ch: char) -> bool {
    ch == ',' || ch == ';'
}

/// The cells between the separators, each without the blanks before it.
pub open spec fn split_cells(body: Seq<char>) -> Seq<Seq<char>>
    decreases body.len(),
{
    if body.len() == 0 {
        seq![Seq::<char>::empty()]
    } else {
        let before = split_cells(body.drop_last());
        let ch = body.last();
        if is_separator(ch) {
            before.push(Seq::empty())
        } else if ascii_whitespace(ch) && before.last().len() == 0 {
            before
        } else {
            before.update(before.len() - 1, before.last().push(ch))
        }
    }
}

/// The cells of a matrix's text. An empty cell at the end counts for nothing.
pub open spec fn matrix_cells(src: Seq<char>) -> Seq<Seq<char>> {
    let cells = split_cells(matrix_body(src));
    if cells.last().len() == 0 {
        cells.drop_last()
    } else {
        cells
    }
}

/// What stands before the cell with this number in a matrix's text.
pub open spec fn separator_before(k: int, col_count: int) -> Seq<char> {
    if k == 0 {
        Seq::empty()
    } else if k % col_count == 0 {
        seq![';']
    } else {
        seq![',']
    }
}

/// The first `n` cells with their separators.
pub open spec fn joined_cells(cells: Seq<Seq<char>>, col_count: int, n: int) -> Seq<char>
    decreases n,
{
    if n <= 0 {
        Seq::empty()
    } else {
        joined_cells(cells, col_count, n - 1) + separator_before(n - 1, col_count) + cells[n - 1]
    }
}

/// The text of a matrix: its rows apart by semicolons, the cells of a row by commas.
pub open spec fn matrix_text(cells: Seq<Seq<char>>, row_count: int, col_count: int) -> Seq<char> {
    seq!['['] + joined_cells(cells, col_count, row_count * col_count) + seq![']']
}

/// `n` rows of cells, each with a cell that holds zero added at its end.
pub open spec fn rows_extended(cells: Seq<Seq<char>>, col_count: int, n: int) -> Seq<Seq<char>>
    decreases n,
{
    if n <= 0 {
        cells
    } else {
        cells.take(col_count).push(seq!['0']) + rows_extended(
            cells.skip(col_count),
            col_count,
            n - 1,
        )
    }
}

/// `n` rows of cells, each without its last cell.
pub open spec fn rows_shortened(cells: Seq<Seq<char>>, col_count: int, n: int) -> Seq<Seq<char>>
    decreases n,
{
    if n <= 0 {
        cells
    } else {
        cells.take(col_count - 1) + rows_shortened(cells.skip(col_count), col_count, n - 1)
    }
}

/// The cell in which the editing of a matrix starts, by where the cursor comes from.
pub open spec fn entry_cell(
    row_count: usize,
    col_count: usize,
    row_index: EditorY,
    start_text_index: usize,
    step_in_pos: Pos,
) -> Pos {
    if step_in_pos.row == row_index.0 {
        if step_in_pos.column > start_text_index {
            Pos { row: 0, column: (col_count - 1) as usize }
        } else {
            Pos { row: 0, column: 0 }
        }
    } else if step_in_pos.row < row_index.0 {
        Pos { row: 0, column: 0 }
    } else {
        Pos { row: (row_count - 1) as usize, column: 0 }
    }
}

/// A matrix that is being edited: its cells, and the editor of the current one.
pub struct MatrixEditing {
    pub editor_content: EditorContent<usize>,
    pub editor: Editor,
    pub row_count: usize,
    pub col_count: usize,
    pub current_cell: Pos,
    pub start_text_index: usize,
    pub end_text_index: usize,
    pub row_index: EditorY,
    pub cell_strings: Vec<String>,
}

/// The contents of a `MatrixEditing`.
#[verifier::ext_equal]
pub struct MatrixEditingView {
    pub lines: Seq<Seq<char>>,
    pub editor: Editor,
    pub row_count: int,
    pub col_count: int,
    pub current_cell: Pos,
    pub start_text_index: usize,
    pub end_text_index: usize,
    pub row_index: EditorY,
    pub cells: Seq<Seq<char>>,
}

impl View for MatrixEditing {
    type V = MatrixEditingView;

    open spec fn view(&self) -> MatrixEditingView {
        MatrixEditingView {
            lines: self.editor_content.text_lines(),
            editor: self.editor,
            row_count: self.row_count as int,
            col_count: self.col_count as int,
            current_cell: self.current_cell,
            start_text_index: self.start_text_index,
            end_text_index: self.end_text_index,
            row_index: self.row_index,
            cells: strings_of(self.cell_strings@),
        }
    }
}

/// The selection of a whole line of this length.
pub open spec fn whole_line(len: nat) -> Selection {
    Selection {
        start: Pos { row: 0, column: 0 },
        end: Some(Pos { row: 0, column: len as usize }),
    }
}

impl MatrixEditingView {
    pub open spec fn index_of(self, pos: Pos) -> int {
        pos.row * self.col_count + pos.column
    }

    /// Every cell is there, and the current one is among them.
    pub open spec fn wf(self) -> bool {
        &&& 1 <= self.row_count <= usize::MAX
        &&& 1 <= self.col_count <= usize::MAX
        &&& self.cells.len() >= self.row_count * self.col_count
        &&& self.current_cell.row < self.row_count
        &&& self.current_cell.column < self.col_count
        &&& self.lines.len() >= 1
    }

    /// With what the cell's editor holds stored in the cell.
    pub open spec fn saved(self) -> MatrixEditingView {
        MatrixEditingView {
            cells: self.cells.update(self.index_of(self.current_cell), joined_lines(self.lines)),
            ..self
        }
    }

    /// With another cell in the editor, all of it selected.
    pub open spec fn opened(self, pos: Pos) -> MatrixEditingView {
        let lines = split_lines(self.cells[self.index_of(pos)]);
        MatrixEditingView {
            current_cell: pos,
            lines,
            editor: Editor { selection: whole_line(lines[0].len()), ..self.editor },
            ..self
        }
    }

    pub open spec fn moved_to(self, pos: Pos) -> MatrixEditingView {
        self.saved().opened(pos)
    }

    pub open spec fn with_column_added(self) -> MatrixEditingView {
        if self.col_count == MAX_MATRIX_SIZE {
            self
        } else {
            MatrixEditingView {
                cells: rows_extended(self.cells, self.col_count, self.row_count),
                col_count: self.col_count + 1,
                ..self
            }
        }
    }

    pub open spec fn with_row_added(self) -> MatrixEditingView {
        if self.row_count == MAX_MATRIX_SIZE {
            self
        } else {
            MatrixEditingView {
                cells: self.cells + Seq::new(self.col_count as nat, |i: int| seq!['0']),
                row_count: self.row_count + 1,
                ..self
            }
        }
    }

    /// Without the last column. A current cell in that column is left for its
    /// neighbour: it is stored, and the neighbour opened, by the places that
    /// the cells have among rows that are already one cell shorter.
    pub open spec fn with_column_removed(self) -> MatrixEditingView {
        let narrow = MatrixEditingView { col_count: self.col_count - 1, ..self };
        let moved = if self.current_cell.column >= narrow.col_count {
            narrow.moved_to(
                Pos { row: self.current_cell.row, column: (narrow.col_count - 1) as usize },
            )
        } else {
            narrow
        };
        MatrixEditingView {
            cells: rows_shortened(moved.cells, self.col_count, self.row_count),
            ..moved
        }
    }

    pub open spec fn with_row_removed(self) -> MatrixEditingView {
        let low = MatrixEditingView { row_count: self.row_count - 1, ..self };
        let moved = if self.current_cell.row >= low.row_count {
            low.moved_to(
                Pos { row: (low.row_count - 1) as usize, column: self.current_cell.column },
            )
        } else {
            low
        };
        MatrixEditingView {
            cells: moved.cells.take(moved.cells.len() - self.col_count),
            ..moved
        }
    }

    /// The edited matrix as text.
    pub open spec fn text(self) -> Seq<char> {
        matrix_text(self.saved().cells, self.row_count, self.col_count)
    }

    /// What the text editor is asked to do when the editing ends: to put the
    /// new text in place of the old one, and the cursor where it is wanted.
    pub open spec fn ending(self, new_cursor_pos: Option<Pos>) -> Seq<EditorCommandView> {
        let row = self.row_index.0;
        let none = InputModifiers { shift: false, ctrl: false, alt: false };
        let replace = seq![
            EditorCommandView::Select(
                Selection {
                    start: Pos { row, column: self.start_text_index },
                    end: Some(Pos { row, column: self.end_text_index }),
                },
            ),
            EditorCommandView::Input(EditorInputEvent::Del, none),
            EditorCommandView::InsertText(self.text()),
        ];
        let cursor = match new_cursor_pos {
            Some(pos) => seq![EditorCommandView::Select(Selection { start: pos, end: None })],
            None => Seq::empty(),
        };
        replace + cursor + seq![EditorCommandView::BlinkCursor]
    }
}

/// The size is that of a matrix, and the cell to start in is among the cells of the text.
pub open spec fn matrix_can_be_opened(
    row_count: usize,
    col_count: usize,
    src: Seq<char>,
    row_index: EditorY,
    start_text_index: usize,
    step_in_pos: Pos,
) -> bool {
    let cell = entry_cell(row_count, col_count, row_index, start_text_index, step_in_pos);
    &&& row_count >= 1
    &&& col_count >= 1
    &&& cell.row * col_count + cell.column < matrix_cells(src).len()
}

/// The editing of a matrix as it starts: its cells read from its text, and the
/// cell in which the editing starts opened.
pub open spec fn opened_matrix(
    row_count: usize,
    col_count: usize,
    src: Seq<char>,
    row_index: EditorY,
    start_text_index: usize,
    end_text_index: usize,
    step_in_pos: Pos,
) -> MatrixEditingView {
    let closed = MatrixEditingView {
        lines: Seq::empty(),
        editor: Editor { selection: whole_line(0), cursor_shown: false },
        row_count: row_count as int,
        col_count: col_count as int,
        current_cell: Pos { row: 0, column: 0 },
        start_text_index,
        end_text_index,
        row_index,
        cells: matrix_cells(src),
    };
    closed.opened(entry_cell(row_count, col_count, row_index, start_text_index, step_in_pos))
}

pub proof fn lemma_rows_extended_len(cells: Seq<Seq<char>>, col_count: int, n: int)
    requires
        col_count >= 0,
        n >= 0,
        cells.len() >= n * col_count,
    ensures
        rows_extended(cells, col_count, n).len() == cells.len() + n,
    decreases n,
{
    if n > 0 {
        assert((n - 1) * col_count == n * col_count - col_count && (n - 1) * col_count >= 0)
            by (nonlinear_arith)
            requires
                n > 0,
                col_count >= 0,
        ;
        lemma_rows_extended_len(cells.skip(col_count), col_count, n - 1);
    }
}

pub proof fn lemma_cell_index_in_range(row: int, column: int, row_count: int, col_count: int)
    requires
        0 <= row < row_count,
        0 <= column < col_count,
    ensures
        0 <= row * col_count,
        0 <= row * col_count + column < row_count * col_count,
        row * col_count <= row * col_count + column,
{
    assert(0 <= row * col_count && row * col_count + col_count <= row_count * col_count)
        by (nonlinear_arith)
        requires
            0 <= row < row_count,
            0 < col_count,
    ;
}

impl MatrixEditing {
    pub fn new(
        row_count: usize,
        col_count: usize,
        src_canvas: &[char],
        row_index: EditorY,
        start_text_index: usize,
        end_text_index: usize,
        step_in_pos: Pos,
    ) -> (r: MatrixEditing)
        requires
            matrix_can_be_opened(
                row_count,
                col_count,
                src_canvas@,
                row_index,
                start_text_index,
                step_in_pos,
            ),
        ensures
            r@ == opened_matrix(
                row_count,
                col_count,
                src_canvas@,
                row_index,
                start_text_index,
                end_text_index,
                step_in_pos,
            ),
    {
        let current_cell = if step_in_pos.row == row_index.as_usize() {
            if step_in_pos.column > start_text_index {
                Pos::from_row_column(0, col_count - 1)
            } else {
                Pos::from_row_column(0, 0)
            }
        } else if step_in_pos.row < row_index.as_usize() {
            Pos::from_row_column(0, 0)
        } else {
            Pos::from_row_column(row_count - 1, 0)
        };
        let mut cell_strings: Vec<String> = Vec::new();
        let mut str = String::new();
        let mut can_ignore_ws = true;
        let mut i: usize = 0;
        let ghost src = src_canvas@;
        while i < src_canvas.len()
            invariant_except_break
                closing_bracket(src, 0) == closing_bracket(src, i as int),
            invariant
                i <= src.len(),
                src == src_canvas@,
                can_ignore_ws == (str@.len() == 0),
                split_cells(without_opening(src.take(i as int))) == strings_of(cell_strings@).push(
                    str@,
                ),
            ensures
                closing_bracket(src, 0) == i,
            decreases src.len() - i,
        {
            let ch = src_canvas[i];
            let ghost body = without_opening(src.take(i as int));
            let ghost before = strings_of(cell_strings@);
            let ghost last = str@;
            if ch == ']' {
                break;
            }
            proof {
                assert(src.take(i as int + 1).drop_last() =~= src.take(i as int));
            }
            let ghost next = without_opening(src.take(i as int + 1));
            if ch == '[' {
                // an opening bracket belongs to no cell
            } else if ch == ',' || ch == ';' {
                cell_strings.push(str);
                str = String::new();
                can_ignore_ws = true;
                assert(next.drop_last() =~= body);
            } else if is_ascii_whitespace(ch) && can_ignore_ws {
                // neither do the blanks before a cell
            } else {
                can_ignore_ws = false;
                str.push(ch);
                assert(next.drop_last() =~= body);
                assert(split_cells(next) =~= before.push(last.push(ch)));
            }
            i += 1;
        }
        if !can_ignore_ws {
            cell_strings.push(str);
        }
        proof {
            lemma_mul_nonnegative(current_cell.row as int, col_count as int);
            assert(cell_strings.len() == cell_strings@.len());
        }
        let cell_index: usize = current_cell.row * col_count + current_cell.column;
        let mut editor_content: EditorContent<usize> = EditorContent::new(0);
        let mut editor = Editor::new();
        editor_content.set_content(cell_strings[cell_index].as_str(), 0);
        editor.set_cursor_range(
            Pos::from_row_column(0, 0),
            Pos::from_row_column(0, editor_content.line_len(0)),
        );
        MatrixEditing {
            editor_content,
            editor,
            row_count,
            col_count,
            current_cell,
            start_text_index,
            end_text_index,
            row_index,
            cell_strings,
        }
    }

    pub fn save_editor_content(&mut self)
        requires
            old(self)@.index_of(old(self).current_cell) < old(self).cell_strings@.len(),
        ensures
            final(self)@ == old(self)@.saved(),
    {
        proof {
            lemma_mul_nonnegative(self.current_cell.row as int, self.col_count as int);
            assert(self.cell_strings.len() == self.cell_strings@.len());
        }
        let index: usize = self.current_cell.row * self.col_count + self.current_cell.column;
        let text = self.editor_content.get_content();
        self.cell_strings[index] = text;
    }

    pub fn change_cell(&mut self, new_pos: Pos)
        requires
            old(self)@.index_of(old(self).current_cell) < old(self).cell_strings@.len(),
            old(self)@.index_of(new_pos) < old(self).cell_strings@.len(),
        ensures
            final(self)@ == old(self)@.moved_to(new_pos),
    {
        let ghost before = *self;
        self.save_editor_content();
        let ghost saved = *self;
        proof {
            assert(saved@.cells.len() == before@.cells.len());
            assert(saved.cell_strings@.len() == saved@.cells.len());
            lemma_mul_nonnegative(new_pos.row as int, self.col_count as int);
            assert(self.cell_strings.len() == self.cell_strings@.len());
        }
        let index: usize = new_pos.row * self.col_count + new_pos.column;
        self.editor_content.set_content(self.cell_strings[index].as_str(), 0);
        self.current_cell = new_pos;
        let ghost lines = self.editor_content.text_lines();
        assert(lines[0] == self.editor_content.lines@[0]@);
        self.editor.set_cursor_range(
            Pos::from_row_column(0, 0),
            Pos::from_row_column(0, self.editor_content.line_len(0)),
        );
    }

    /// Adds a column of zeros, unless the matrix has grown to its limit.
    pub fn add_column(&mut self)
        requires
            old(self)@.wf(),
        ensures
            final(self)@ == old(self)@.with_column_added(),
    {
        if self.col_count == MAX_MATRIX_SIZE {
            return ;
        }
        let ghost before = *self;
        let ghost cols = self.col_count as int;
        let ghost rows = self.row_count as int;
        let ghost cells = before@.cells;
        let mut row_i: usize = self.row_count;
        proof {
            assert(self.cell_strings.len() == self.cell_strings@.len());
        }
        while row_i > 0
            invariant
                row_i <= rows,
                cols >= 1,
                rows == before.row_count,
                cols == before.col_count,
                cells == before@.cells,
                cells.len() >= rows * cols,
                rows * cols <= usize::MAX,
                *self == (MatrixEditing { cell_strings: self.cell_strings, ..before }),
                strings_of(self.cell_strings@) == cells.take(row_i * cols) + rows_extended(
                    cells.skip(row_i * cols),
                    cols,
                    rows - row_i,
                ),
            decreases row_i,
        {
            let ghost after = row_i as int;
            let ghost current = strings_of(self.cell_strings@);
            row_i -= 1;
            proof {
                assert(after * cols == row_i * cols + cols) by (nonlinear_arith)
                    requires
                        after == row_i + 1,
                ;
                lemma_mul_nonnegative(row_i as int, cols);
                lemma_mul_inequality(after, rows, cols);
            }
            let index: usize = row_i * self.col_count + self.col_count;
            let zero = "0".to_owned();
            proof {
                reveal_strlit("0");
                assert(zero@ =~= seq!['0']);
                assert(self.cell_strings@.len() == current.len());
            }
            self.cell_strings.insert(index, zero);
            proof {
                let from = row_i * cols;
                let rest = cells.skip(from);
                assert(rest.skip(cols) =~= cells.skip(after * cols));
                assert(current.insert(index as int, seq!['0']) =~= cells.take(from)
                    + rows_extended(rest, cols, rows - row_i));
            }
        }
        proof {
            assert(cells.skip(0) =~= cells);
            lemma_rows_extended_len(cells, cols, rows);
            lemma_mul_inequality(1, rows, cols);
            assert(self.cell_strings.len() == self.cell_strings@.len());
        }
        self.col_count += 1;
    }

    /// Adds a row of zeros, unless the matrix has grown to its limit.
    pub fn add_row(&mut self)
        requires
            old(self)@.wf(),
        ensures
            final(self)@ == old(self)@.with_row_added(),
    {
        if self.row_count == MAX_MATRIX_SIZE {
            return ;
        }
        let ghost before = *self;
        let ghost zeros = |n: int| Seq::new(n as nat, |i: int| seq!['0']);
        let mut i: usize = 0;
        while i < self.col_count
            invariant
                i <= self.col_count,
                zeros == (|n: int| Seq::new(n as nat, |i: int| seq!['0'])),
                *self == (MatrixEditing { cell_strings: self.cell_strings, ..before }),
                strings_of(self.cell_strings@) == before@.cells + zeros(i as int),
            decreases self.col_count - i,
        {
            let ghost current = strings_of(self.cell_strings@);
            let zero = "0".to_owned();
            proof {
                reveal_strlit("0");
                assert(zero@ =~= seq!['0']);
            }
            self.cell_strings.push(zero);
            assert(current.push(seq!['0']) =~= before@.cells + zeros(i + 1));
            i += 1;
        }
        proof {
            lemma_mul_inequality(1, before.col_count as int, before.row_count as int);
            lemma_mul_is_commutative(before.row_count as int, before.col_count as int);
            assert(self.cell_strings.len() == self.cell_strings@.len());
        }
        self.row_count += 1;
    }

    /// Removes the last column.
    pub fn remove_column(&mut self)
        requires
            old(self)@.wf(),
            old(self).col_count > 1,
        ensures
            final(self)@ == old(self)@.with_column_removed(),
    {
        let ghost cols = self.col_count as int;
        let ghost rows = self.row_count as int;
        self.col_count -= 1;
        if self.current_cell.column >= self.col_count {
            proof {
                let row = self.current_cell.row as int;
                lemma_cell_index_in_range(row, cols - 2, rows, cols);
                lemma_cell_index_in_range(row, cols - 1, rows, cols);
                assert(row * (cols - 1) <= row * cols) by (nonlinear_arith)
                    requires
                        row >= 0,
                ;
            }
            self.change_cell(self.current_cell.with_column(self.col_count - 1));
        }
        let ghost moved = *self;
        let ghost cells = moved@.cells;
        let mut row_i: usize = self.row_count;
        proof {
            assert(self.cell_strings.len() == self.cell_strings@.len());
        }
        while row_i > 0
            invariant
                row_i <= rows,
                cols >= 2,
                cols == moved.col_count + 1,
                cells == moved@.cells,
                cells.len() >= rows * cols,
                rows * cols <= usize::MAX,
                *self == (MatrixEditing { cell_strings: self.cell_strings, ..moved }),
                strings_of(self.cell_strings@) == cells.take(row_i * cols) + rows_shortened(
                    cells.skip(row_i * cols),
                    cols,
                    rows - row_i,
                ),
            decreases row_i,
        {
            let ghost after = row_i as int;
            let ghost current = strings_of(self.cell_strings@);
            row_i -= 1;
            proof {
                assert(after * cols == row_i * cols + cols) by (nonlinear_arith)
                    requires
                        after == row_i + 1,
                ;
                lemma_mul_nonnegative(row_i as int, cols);
                lemma_mul_inequality(after, rows, cols);
                assert(self.cell_strings@.len() == current.len());
            }
            let index: usize = row_i * (self.col_count + 1) + self.col_count;
            self.cell_strings.remove(index);
            proof {
                let from = row_i * cols;
                let rest = cells.skip(from);
                assert(rest.skip(cols) =~= cells.skip(after * cols));
                assert(current.remove(index as int) =~= cells.take(from) + rows_shortened(
                    rest,
                    cols,
                    rows - row_i,
                ));
            }
        }
        proof {
            assert(cells.skip(0) =~= cells);
        }
    }

    /// Removes the last row.
    pub fn remove_row(&mut self)
        requires
            old(self)@.wf(),
            old(self).row_count > 1,
        ensures
            final(self)@ == old(self)@.with_row_removed(),
    {
        let ghost cols = self.col_count as int;
        let ghost rows = self.row_count as int;
        self.row_count -= 1;
        if self.current_cell.row >= self.row_count {
            proof {
                let column = self.current_cell.column as int;
                lemma_cell_index_in_range(rows - 1, column, rows, cols);
                lemma_cell_index_in_range(rows - 2, column, rows, cols);
            }
            self.change_cell(self.current_cell.with_row(self.row_count - 1));
        }
        let ghost moved = *self;
        let ghost cells = moved@.cells;
        let ghost left = cells.len() - cols;
        proof {
            lemma_mul_inequality(1, rows, cols);
        }
        let mut i: usize = 0;
        while i < self.col_count
            invariant
                i <= self.col_count,
                cols == moved.col_count,
                cells.len() == left + cols,
                left >= 0,
                *self == (MatrixEditing { cell_strings: self.cell_strings, ..moved }),
                strings_of(self.cell_strings@) == cells.take(left + cols - i),
            decreases self.col_count - i,
        {
            let ghost current = strings_of(self.cell_strings@);
            assert(self.cell_strings@.len() == current.len());
            self.cell_strings.pop();
            i += 1;
        }
    }

    /// The text of the matrix.
    pub fn matrix_string(&self) -> (r: String)
        requires
            self.col_count >= 1,
            self.cell_strings@.len() >= self.row_count * self.col_count,
        ensures
            r@ == matrix_text(self@.cells, self.row_count as int, self.col_count as int),
    {
        let ghost cols = self.col_count as int;
        let ghost cells = self@.cells;
        let mut concat = String::new();
        concat.push('[');
        let mut row_i: usize = 0;
        proof {
            assert(concat@ =~= seq!['['] + joined_cells(cells, cols, 0));
            assert(self.cell_strings.len() == self.cell_strings@.len());
        }
        while row_i < self.row_count
            invariant
                row_i <= self.row_count,
                cols == self.col_count,
                cols >= 1,
                cells == self@.cells,
                self.row_count * cols <= self.cell_strings@.len() <= usize::MAX,
                concat@ == seq!['['] + joined_cells(cells, cols, row_i * cols),
            decreases self.row_count - row_i,
        {
            if row_i > 0 {
                concat.push(';');
            }
            proof {
                lemma_fundamental_div_mod_converse(row_i * cols, cols, row_i as int, 0);
                if row_i > 0 {
                    lemma_mul_inequality(1, row_i as int, cols);
                }
            }
            let mut col_i: usize = 0;
            while col_i < self.col_count
                invariant
                    row_i < self.row_count,
                    col_i <= self.col_count,
                    cols == self.col_count,
                    cols >= 1,
                    cells == self@.cells,
                    self.row_count * cols <= self.cell_strings@.len() <= usize::MAX,
                    col_i == 0 ==> concat@ == seq!['['] + joined_cells(cells, cols, row_i * cols)
                        + separator_before(row_i * cols, cols),
                    col_i > 0 ==> concat@ == seq!['['] + joined_cells(
                        cells,
                        cols,
                        row_i * cols + col_i,
                    ),
                decreases self.col_count - col_i,
            {
                let ghost k = row_i * cols + col_i;
                proof {
                    lemma_cell_index_in_range(
                        row_i as int,
                        col_i as int,
                        self.row_count as int,
                        cols,
                    );
                    lemma_fundamental_div_mod_converse(
                        k,
                        cols,
                        row_i as int,
                        col_i as int,
                    );
                }
                if col_i > 0 {
                    concat.push(',');
                }
                let cell_str = &self.cell_strings[row_i * self.col_count + col_i];
                concat.append(cell_str.as_str());
                col_i += 1;
            }
            proof {
                assert((row_i + 1) * cols == row_i * cols + cols) by (nonlinear_arith);
            }
            row_i += 1;
        }
        concat.push(']');
        concat
    }
}

impl NoteCalcApp {
    /// Ends the editing of a matrix. The answer says what the text editor has to
    /// do for the new text to stand in place of the old one.
    pub fn end_matrix_editing(
        matrix_editing: &mut Option<MatrixEditing>,
        new_cursor_pos: Option<Pos>,
    ) -> (r: Vec<EditorCommand>)
        requires
            old(matrix_editing).is_some(),
            old(matrix_editing).unwrap()@.wf(),
        ensures
            final(matrix_editing).is_none(),
            commands_view(r@) == old(matrix_editing).unwrap()@.ending(new_cursor_pos),
    {
        let mut commands: Vec<EditorCommand> = Vec::new();
        if let Some(mut mat_editor) = matrix_editing.take() {
            let ghost edited = mat_editor;
            proof {
                lemma_cell_index_in_range(
                    mat_editor.current_cell.row as int,
                    mat_editor.current_cell.column as int,
                    mat_editor.row_count as int,
                    mat_editor.col_count as int,
                );
                assert(mat_editor.cell_strings@.len() == mat_editor@.cells.len());
            }
            mat_editor.save_editor_content();
            proof {
                assert(mat_editor@.cells.len() == edited@.cells.len());
                assert(mat_editor.cell_strings@.len() == mat_editor@.cells.len());
            }
            let concat = mat_editor.matrix_string();
            let row = mat_editor.row_index.as_usize();
            let selection = Selection::range(
                Pos::from_row_column(row, mat_editor.start_text_index),
                Pos::from_row_column(row, mat_editor.end_text_index),
            );
            commands.push(EditorCommand::Select(selection));
            commands.push(EditorCommand::Input(EditorInputEvent::Del, InputModifiers::none()));
            commands.push(EditorCommand::InsertText(concat));
            if let Some(new_cursor_pos) = new_cursor_pos {
                commands.push(EditorCommand::Select(Selection::single(new_cursor_pos)));
            }
            commands.push(EditorCommand::BlinkCursor);
        }
        commands
    }
}

} // verus!
