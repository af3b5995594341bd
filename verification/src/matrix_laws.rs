use vstd::arithmetic::mul::{lemma_mul_inequality, lemma_mul_nonnegative};
use vstd::prelude::*;

use crate::content::{law_split_lines_join_again, lemma_split_lines_not_empty};
use crate::coords::Pos;
use crate::editor::{EditorInputEvent, InputModifiers};
use crate::matrix_editing::{
    ascii_whitespace, closing_bracket, is_separator, joined_cells, lemma_cell_index_in_range,
    lemma_rows_extended_len, matrix_cells, matrix_text, rows_extended, rows_shortened,
    separator_before, split_cells, without_opening, MatrixEditingView, MAX_MATRIX_SIZE,
};

verus! {

/// A text that can stand in a cell without being taken for a part of the matrix.
pub open spec fn plain_cell(cell: Seq<char>) -> bool {
    &&& forall|i: int|
        0 <= i < cell.len() ==> !is_separator(#[trigger] cell[i]) && cell[i] != '[' && cell[i]
            != ']'
    &&& cell.len() > 0 ==> !ascii_whitespace(cell[0])
}

proof fn lemma_split_cells_of_cell(body: Seq<char>, cell: Seq<char>)
    requires
        split_cells(body).len() >= 1,
        split_cells(body).last().len() == 0,
        plain_cell(cell),
    ensures
        split_cells(body + cell) == split_cells(body).update(split_cells(body).len() - 1, cell),
    decreases cell.len(),
{
    let before = split_cells(body);
    if cell.len() == 0 {
        assert(before.last() =~= cell);
    } else {
        let shorter = cell.drop_last();
        lemma_split_cells_of_cell(body, shorter);
        assert((body + cell).drop_last() =~= body + shorter);
        assert(shorter.push(cell.last()) =~= cell);
    }
}

proof fn lemma_split_joined_cells(cells: Seq<Seq<char>>, col_count: int, n: int)
    requires
        1 <= n <= cells.len(),
        forall|i: int| 0 <= i < cells.len() ==> plain_cell(#[trigger] cells[i]),
    ensures
        split_cells(joined_cells(cells, col_count, n)) == cells.take(n),
    decreases n,
{
    let before = joined_cells(cells, col_count, n - 1);
    let body = before + separator_before(n - 1, col_count);
    if n > 1 {
        lemma_split_joined_cells(cells, col_count, n - 1);
        assert(body.drop_last() =~= before);
    }
    lemma_split_cells_of_cell(body, cells[n - 1]);
}

proof fn lemma_joined_cells_hold_no_brackets(cells: Seq<Seq<char>>, col_count: int, n: int)
    requires
        0 <= n <= cells.len(),
        forall|i: int| 0 <= i < cells.len() ==> plain_cell(#[trigger] cells[i]),
    ensures
        forall|i: int|
            0 <= i < joined_cells(cells, col_count, n).len() ==> (#[trigger] joined_cells(
                cells,
                col_count,
                n,
            )[i]) != '[' && joined_cells(cells, col_count, n)[i] != ']',
    decreases n,
{
    if n > 0 {
        lemma_joined_cells_hold_no_brackets(cells, col_count, n - 1);
        let body = joined_cells(cells, col_count, n - 1) + separator_before(n - 1, col_count);
        assert(joined_cells(cells, col_count, n) == body + cells[n - 1]);
    }
}

proof fn lemma_closing_bracket_is_last(src: Seq<char>, from: int)
    requires
        0 <= from < src.len(),
        src.last() == ']',
        forall|i: int| 0 <= i < src.len() - 1 ==> (#[trigger] src[i]) != ']',
    ensures
        closing_bracket(src, from) == src.len() - 1,
    decreases src.len() - from,
{
    if from < src.len() - 1 {
        lemma_closing_bracket_is_last(src, from + 1);
    }
}

proof fn lemma_opening_is_left_out(text: Seq<char>)
    requires
        forall|i: int| 0 <= i < text.len() ==> (#[trigger] text[i]) != '[',
    ensures
        without_opening(seq!['['] + text) == text,
    decreases text.len(),
{
    let all = seq!['['] + text;
    if text.len() == 0 {
        assert(without_opening(all.drop_last()) =~= text);
    } else {
        let shorter = text.drop_last();
        lemma_opening_is_left_out(shorter);
        assert(all.drop_last() =~= seq!['['] + shorter);
    }
}

/// What is written for a matrix is read back: the cells of its text are the
/// cells it was written from. The last cell must not be empty, for an empty
/// cell at the end is not told from none.
pub proof fn law_matrix_text_is_read_back(cells: Seq<Seq<char>>, row_count: int, col_count: int)
    requires
        cells.len() == row_count * col_count,
        cells.len() >= 1,
        forall|i: int| 0 <= i < cells.len() ==> plain_cell(#[trigger] cells[i]),
        cells.last().len() > 0,
    ensures
        matrix_cells(matrix_text(cells, row_count, col_count)) == cells,
{
    let n = cells.len() as int;
    let joined = joined_cells(cells, col_count, n);
    let text = matrix_text(cells, row_count, col_count);
    lemma_joined_cells_hold_no_brackets(cells, col_count, n);
    lemma_closing_bracket_is_last(text, 0);
    assert(text.take(text.len() - 1) =~= seq!['['] + joined);
    lemma_opening_is_left_out(joined);
    lemma_split_joined_cells(cells, col_count, n);
}

/// Adding a column keeps every cell in its row and column, and fills the new
/// column with zeros.
pub proof fn law_added_column_keeps_the_cells(
    cells: Seq<Seq<char>>,
    row_count: int,
    col_count: int,
    row: int,
    column: int,
)
    requires
        0 <= row < row_count,
        0 <= column <= col_count,
        cells.len() >= row_count * col_count,
    ensures
        rows_extended(cells, col_count, row_count)[row * (col_count + 1) + column] == (if column
            < col_count {
            cells[row * col_count + column]
        } else {
            seq!['0']
        }),
    decreases row_count,
{
    assert(row_count * col_count == (row_count - 1) * col_count + col_count && (row_count - 1)
        * col_count >= 0) by (nonlinear_arith)
        requires
            row_count >= 1,
            col_count >= 0,
    ;
    let rest = cells.skip(col_count);
    if row > 0 {
        law_added_column_keeps_the_cells(rest, row_count - 1, col_count, row - 1, column);
        assert(row * (col_count + 1) == (row - 1) * (col_count + 1) + (col_count + 1))
            by (nonlinear_arith);
        assert(row * col_count == (row - 1) * col_count + col_count) by (nonlinear_arith);
        lemma_mul_nonnegative(row - 1, col_count);
        lemma_cell_index_in_range(row - 1, column, row_count - 1, col_count + 1);
        lemma_rows_extended_len(rest, col_count, row_count - 1);
        assert((row_count - 1) * (col_count + 1) == (row_count - 1) * col_count + (row_count - 1))
            by (nonlinear_arith);
        if column < col_count {
            lemma_cell_index_in_range(row - 1, column, row_count - 1, col_count);
        }
    }
}

/// Taking away the column that was added gives the cells back.
pub proof fn law_removed_column_undoes_added_column(
    cells: Seq<Seq<char>>,
    row_count: int,
    col_count: int,
)
    requires
        row_count >= 0,
        col_count >= 0,
        cells.len() >= row_count * col_count,
    ensures
        rows_shortened(
            rows_extended(cells, col_count, row_count),
            col_count + 1,
            row_count,
        ) == cells,
    decreases row_count,
{
    if row_count > 0 {
        assert(row_count * col_count == (row_count - 1) * col_count + col_count && (row_count - 1)
            * col_count >= 0) by (nonlinear_arith)
            requires
                row_count >= 1,
                col_count >= 0,
        ;
        let rest = cells.skip(col_count);
        let extended = rows_extended(cells, col_count, row_count);
        law_removed_column_undoes_added_column(rest, row_count - 1, col_count);
        assert(extended.skip(col_count + 1) =~= rows_extended(rest, col_count, row_count - 1));
    }
}

/// Adding a column and removing it again changes nothing, whatever cell is
/// being edited.
pub proof fn law_column_can_be_added_and_removed(edited: MatrixEditingView)
    requires
        edited.wf(),
        edited.col_count < MAX_MATRIX_SIZE,
    ensures
        edited.with_column_added().with_column_removed() == edited,
{
    law_removed_column_undoes_added_column(edited.cells, edited.row_count, edited.col_count);
}

/// Adding a row and removing it again changes nothing, whatever cell is being
/// edited.
pub proof fn law_row_can_be_added_and_removed(edited: MatrixEditingView)
    requires
        edited.wf(),
        edited.row_count < MAX_MATRIX_SIZE,
    ensures
        edited.with_row_added().with_row_removed() == edited,
{
}

/// A matrix never grows past its limit, and growing it keeps every cell in
/// reach of the editor.
pub proof fn law_growing_keeps_the_matrix_whole(edited: MatrixEditingView)
    requires
        edited.wf(),
        edited.row_count <= MAX_MATRIX_SIZE,
        edited.col_count <= MAX_MATRIX_SIZE,
    ensures
        edited.with_column_added().wf(),
        edited.with_row_added().wf(),
        edited.with_column_added().col_count <= MAX_MATRIX_SIZE,
        edited.with_row_added().row_count <= MAX_MATRIX_SIZE,
{
    let rows = edited.row_count;
    let cols = edited.col_count;
    lemma_rows_extended_len(edited.cells, cols, rows);
    assert(rows * (cols + 1) == rows * cols + rows) by (nonlinear_arith);
    assert((rows + 1) * cols == rows * cols + cols) by (nonlinear_arith);
}

/// Moving to a cell of the matrix keeps it whole.
pub proof fn law_moving_keeps_the_matrix_whole(edited: MatrixEditingView, pos: Pos)
    requires
        edited.wf(),
        pos.row < edited.row_count,
        pos.column < edited.col_count,
    ensures
        edited.moved_to(pos).wf(),
        edited.moved_to(pos).current_cell == pos,
{
    lemma_cell_index_in_range(
        edited.current_cell.row as int,
        edited.current_cell.column as int,
        edited.row_count,
        edited.col_count,
    );
    lemma_split_lines_not_empty(edited.saved().cells[edited.index_of(pos)]);
}

proof fn lemma_rows_shortened_len(cells: Seq<Seq<char>>, col_count: int, n: int)
    requires
        col_count >= 1,
        n >= 0,
        cells.len() >= n * col_count,
    ensures
        rows_shortened(cells, col_count, n).len() == cells.len() - n,
    decreases n,
{
    if n > 0 {
        assert(n * col_count == (n - 1) * col_count + col_count && (n - 1) * col_count >= 0)
            by (nonlinear_arith)
            requires
                n >= 1,
                col_count >= 0,
        ;
        lemma_rows_shortened_len(cells.skip(col_count), col_count, n - 1);
    }
}

/// Removing a row or a column keeps the matrix whole, and the cell that is
/// edited among those that are left.
pub proof fn law_shrinking_keeps_the_matrix_whole(edited: MatrixEditingView)
    requires
        edited.wf(),
    ensures
        edited.col_count > 1 ==> edited.with_column_removed().wf(),
        edited.row_count > 1 ==> edited.with_row_removed().wf(),
{
    lemma_cell_index_in_range(
        edited.current_cell.row as int,
        edited.current_cell.column as int,
        edited.row_count,
        edited.col_count,
    );
    let rows = edited.row_count;
    let cols = edited.col_count;
    let row = edited.current_cell.row as int;
    assert(0 <= row * (cols - 1) <= row * cols) by (nonlinear_arith)
        requires
            row >= 0,
            cols >= 1,
    ;
    assert(rows * (cols - 1) == rows * cols - rows) by (nonlinear_arith);
    assert((rows - 1) * cols == rows * cols - cols) by (nonlinear_arith);
    let narrow = MatrixEditingView { col_count: cols - 1, ..edited };
    let column_left = Pos { row: edited.current_cell.row, column: (cols - 2) as usize };
    let low = MatrixEditingView { row_count: rows - 1, ..edited };
    let row_left = Pos { row: (rows - 2) as usize, column: edited.current_cell.column };
    lemma_split_lines_not_empty(narrow.saved().cells[narrow.index_of(column_left)]);
    lemma_split_lines_not_empty(low.saved().cells[low.index_of(row_left)]);
    if cols > 1 {
        lemma_rows_shortened_len(edited.cells, cols, rows);
        lemma_rows_shortened_len(narrow.saved().cells, cols, rows);
    }
    lemma_mul_inequality(1, rows, cols);
}

/// Moving to another cell loses nothing: what was typed is stored, and the cell
/// that was opened is stored as it was.
pub proof fn law_moving_away_keeps_what_was_typed(edited: MatrixEditingView, pos: Pos)
    requires
        edited.wf(),
        pos.row < edited.row_count,
        pos.column < edited.col_count,
    ensures
        edited.moved_to(pos).saved().cells == edited.saved().cells,
        edited.moved_to(pos).text() == edited.text(),
{
    lemma_cell_index_in_range(
        edited.current_cell.row as int,
        edited.current_cell.column as int,
        edited.row_count,
        edited.col_count,
    );
    let opened = edited.saved().cells[edited.index_of(pos)];
    law_split_lines_join_again(opened);
    lemma_cell_index_in_range(
        pos.row as int,
        pos.column as int,
        edited.row_count,
        edited.col_count,
    );
    assert(edited.moved_to(pos).saved().cells =~= edited.saved().cells);
}

/// Whatever key is pressed, a matrix that is still edited after it is whole, and
/// within its limits.
pub proof fn law_keys_keep_the_matrix_whole(
    edited: MatrixEditingView,
    cursor: Pos,
    input: EditorInputEvent,
    modifiers: InputModifiers,
)
    requires
        edited.wf(),
        edited.row_count <= MAX_MATRIX_SIZE,
        edited.col_count <= MAX_MATRIX_SIZE,
    ensures
        edited.key_pressed(cursor, input, modifiers).0 matches Some(after) ==> {
            &&& after.wf()
            &&& after.row_count <= MAX_MATRIX_SIZE
            &&& after.col_count <= MAX_MATRIX_SIZE
        },
{
    law_growing_keeps_the_matrix_whole(edited);
    law_shrinking_keeps_the_matrix_whole(edited);
    assert forall|pos: Pos|
        pos.row < edited.row_count && pos.column < edited.col_count implies (
    #[trigger] edited.moved_to(pos)).wf() by {
        law_moving_keeps_the_matrix_whole(edited, pos);
    }
}

} // verus!
