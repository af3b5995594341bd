use vstd::prelude::*;

use crate::content::{joined_lines, law_split_lines_join_again};
use crate::content_laws::joined_by;
use crate::coords::{EditorY, Pos, Selection};
use crate::matrix_editing::{
    closing_bracket, entry_cell, joined_cells, lemma_cell_index_in_range, lemma_rows_extended_len, matrix_cells,
    matrix_text, opened_matrix, rows_shortened, separator_before, split_cells, without_opening,
    MatrixEditingView,
};
use crate::matrix_laws::law_added_column_keeps_the_cells;
use crate::update_step_laws::{all_blank, is_blank};

verus! {

/// The cells of the first `n` rows, each row as one text.
pub open spec fn row_texts(cells: Seq<Seq<char>>, col_count: int, n: int) -> Seq<Seq<char>> {
    Seq::new(
        n as nat,
        |row: int|
            joined_by(cells.subrange(row * col_count, row * col_count + col_count), ','),
    )
}

/// The first cells of a row, after whole rows.
proof fn lemma_joined_row(cells: Seq<Seq<char>>, col_count: int, row: int, n: int)
    requires
        col_count >= 1,
        row >= 0,
        1 <= n <= col_count,
        row * col_count + n <= cells.len(),
    ensures
        0 <= row * col_count,
        joined_cells(cells, col_count, row * col_count + n) == joined_cells(
            cells,
            col_count,
            row * col_count,
        ) + (if row == 0 {
            Seq::empty()
        } else {
            seq![';']
        }) + joined_by(cells.subrange(row * col_count, row * col_count + n), ','),
    decreases n,
{
    let first = row * col_count;
    assert(0 <= first) by (nonlinear_arith)
        requires
            row >= 0,
            col_count >= 1,
            first == row * col_count,
    ;
    let last = first + n - 1;
    let part = cells.subrange(first, first + n);
    if n == 1 {
        assert(part =~= seq![cells[first]]);
        assert(first % col_count == 0) by (nonlinear_arith)
            requires
                first == row * col_count,
                col_count >= 1,
        ;
        if row == 0 {
            assert(first == 0);
        } else {
            assert(first >= 1) by (nonlinear_arith)
                requires
                    first == row * col_count,
                    row >= 1,
                    col_count >= 1,
            ;
            assert(separator_before(first, col_count) =~= seq![';']);
        }
    } else {
        lemma_joined_row(cells, col_count, row, n - 1);
        assert(last % col_count == n - 1) by (nonlinear_arith)
            requires
                last == row * col_count + (n - 1),
                0 <= n - 1 < col_count,
        ;
        assert(separator_before(last, col_count) =~= seq![',']);
        assert(part.drop_last() =~= cells.subrange(first, last));
        let before = joined_cells(cells, col_count, first);
        let sep: Seq<char> = if row == 0 {
            Seq::empty()
        } else {
            seq![';']
        };
        let shorter = joined_by(cells.subrange(first, last), ',');
        assert(before + sep + shorter + seq![','] + cells[last] =~= before + sep + (shorter.push(
            ',',
        ) + cells[last]));
    }
}

proof fn lemma_joined_rows(cells: Seq<Seq<char>>, col_count: int, n: int)
    requires
        col_count >= 1,
        n >= 1,
        n * col_count <= cells.len(),
    ensures
        joined_cells(cells, col_count, n * col_count) == joined_by(
            row_texts(cells, col_count, n),
            ';',
        ),
    decreases n,
{
    let rows = row_texts(cells, col_count, n);
    assert(n * col_count == (n - 1) * col_count + col_count) by (nonlinear_arith);
    lemma_joined_row(cells, col_count, n - 1, col_count);
    if n == 1 {
        assert(joined_cells(cells, col_count, 0) =~= Seq::empty());
        assert(rows =~= seq![rows[0]]);
        assert(joined_cells(cells, col_count, col_count) =~= rows[0]);
    } else {
        lemma_joined_rows(cells, col_count, n - 1);
        assert(rows.drop_last() =~= row_texts(cells, col_count, n - 1));
    }
}

/// The text of a matrix stands in brackets: the rows from top to bottom with
/// semicolons between them, and the cells of each row from left to right with
/// commas between them.
pub proof fn law_matrix_is_written_row_by_row(
    cells: Seq<Seq<char>>,
    row_count: int,
    col_count: int,
)
    requires
        row_count >= 1,
        col_count >= 1,
        row_count * col_count <= cells.len(),
    ensures
        matrix_text(cells, row_count, col_count) == seq!['['] + joined_by(
            row_texts(cells, col_count, row_count),
            ';',
        ) + seq![']'],
{
    lemma_joined_rows(cells, col_count, row_count);
}

/// What an edited matrix is written as: its cells, the current one with what
/// was typed into it.
pub proof fn law_edited_matrix_is_written_with_what_was_typed(edited: MatrixEditingView)
    requires
        edited.wf(),
    ensures
        ({
            let number = edited.current_cell.row * edited.col_count + edited.current_cell.column;
            let cells = edited.cells.update(number, joined_lines(edited.lines));
            edited.text() == seq!['['] + joined_by(
                row_texts(cells, edited.col_count, edited.row_count),
                ';',
            ) + seq![']']
        }),
{
    lemma_cell_index_in_range(
        edited.current_cell.row as int,
        edited.current_cell.column as int,
        edited.row_count,
        edited.col_count,
    );
    law_matrix_is_written_row_by_row(
        edited.saved().cells,
        edited.row_count,
        edited.col_count,
    );
}

/// Going to another cell stores what was typed in the cell that is left, opens
/// the other one with all of its first line selected, and changes no other cell.
pub proof fn law_other_cell_is_opened(edited: MatrixEditingView, pos: Pos)
    requires
        edited.wf(),
        pos.row < edited.row_count,
        pos.column < edited.col_count,
        pos != edited.current_cell,
    ensures
        ({
            let after = edited.moved_to(pos);
            let left = edited.current_cell.row * edited.col_count + edited.current_cell.column;
            let opened = pos.row * edited.col_count + pos.column;
            &&& after.current_cell == pos
            &&& after.cells[left] == joined_lines(edited.lines)
            &&& joined_lines(after.lines) == edited.cells[opened]
            &&& forall|i: int|
                0 <= i < edited.cells.len() && i != left ==> (#[trigger] after.cells[i])
                    == edited.cells[i]
            &&& after.cells.len() == edited.cells.len()
            &&& after.editor.selection == (Selection {
                start: Pos { row: 0, column: 0 },
                end: Some(Pos { row: 0, column: after.lines[0].len() as usize }),
            })
            &&& after.row_count == edited.row_count
            &&& after.col_count == edited.col_count
            &&& after.start_text_index == edited.start_text_index
            &&& after.end_text_index == edited.end_text_index
            &&& after.row_index == edited.row_index
        }),
{
    let here = edited.current_cell;
    lemma_cell_index_in_range(
        here.row as int,
        here.column as int,
        edited.row_count,
        edited.col_count,
    );
    lemma_cell_index_in_range(
        pos.row as int,
        pos.column as int,
        edited.row_count,
        edited.col_count,
    );
    let cols = edited.col_count;
    if here.row < pos.row {
        assert(here.row * cols + cols <= pos.row * cols) by (nonlinear_arith)
            requires
                here.row + 1 <= pos.row,
                cols >= 1,
        ;
    } else if pos.row < here.row {
        assert(pos.row * cols + cols <= here.row * cols) by (nonlinear_arith)
            requires
                pos.row + 1 <= here.row,
                cols >= 1,
        ;
    }
    law_split_lines_join_again(edited.cells[pos.row * cols + pos.column]);
}

/// A matrix that grows keeps every cell in its row and column; the new cells
/// hold a zero.
pub proof fn law_grown_matrix_keeps_its_cells(edited: MatrixEditingView, row: int, column: int)
    requires
        edited.wf(),
        edited.cells.len() == edited.row_count * edited.col_count,
        0 <= row < edited.row_count,
        0 <= column < edited.col_count,
    ensures
        edited.col_count != 6 ==> {
            let wider = edited.with_column_added();
            &&& wider.cells[row * (edited.col_count + 1) + column] == edited.cells[row
                * edited.col_count + column]
            &&& wider.cells[row * (edited.col_count + 1) + edited.col_count] == seq!['0']
            &&& wider.cells.len() == edited.row_count * (edited.col_count + 1)
        },
        edited.row_count != 6 ==> {
            let taller = edited.with_row_added();
            &&& taller.cells[row * edited.col_count + column] == edited.cells[row
                * edited.col_count + column]
            &&& taller.cells[edited.row_count * edited.col_count + column] == seq!['0']
            &&& taller.cells.len() == (edited.row_count + 1) * edited.col_count
        },
{
    let rows = edited.row_count;
    let cols = edited.col_count;
    law_added_column_keeps_the_cells(edited.cells, rows, cols, row, column);
    law_added_column_keeps_the_cells(edited.cells, rows, cols, row, cols);
    lemma_rows_extended_len(edited.cells, cols, rows);
    lemma_cell_index_in_range(row, column, rows, cols);
    assert(rows * (cols + 1) == rows * cols + rows) by (nonlinear_arith);
    assert((rows + 1) * cols == rows * cols + cols) by (nonlinear_arith);
}

proof fn lemma_shortened_cell(
    cells: Seq<Seq<char>>,
    row_count: int,
    col_count: int,
    row: int,
    column: int,
)
    requires
        0 <= row < row_count,
        0 <= column < col_count - 1,
        cells.len() >= row_count * col_count,
    ensures
        0 <= row * (col_count - 1) + column < rows_shortened(cells, col_count, row_count).len(),
        rows_shortened(cells, col_count, row_count)[row * (col_count - 1) + column] == cells[row
            * col_count + column],
    decreases row_count,
{
    assert(row_count * col_count == (row_count - 1) * col_count + col_count && (row_count - 1)
        * col_count >= 0) by (nonlinear_arith)
        requires
            row_count >= 1,
            col_count >= 0,
    ;
    let rest = cells.skip(col_count);
    if row > 0 {
        lemma_shortened_cell(rest, row_count - 1, col_count, row - 1, column);
        assert(row * (col_count - 1) == (row - 1) * (col_count - 1) + (col_count - 1))
            by (nonlinear_arith);
        assert(row * col_count == (row - 1) * col_count + col_count) by (nonlinear_arith);
        assert((row - 1) * (col_count - 1) >= 0) by (nonlinear_arith)
            requires
                row >= 1,
                col_count >= 1,
        ;
        lemma_cell_index_in_range(row - 1, column, row_count - 1, col_count);
    }
}

/// A matrix that shrinks keeps every cell that is left in its row and column,
/// where the current cell is not among those that go.
pub proof fn law_shrunk_matrix_keeps_its_cells(edited: MatrixEditingView, row: int, column: int)
    requires
        edited.wf(),
        edited.cells.len() == edited.row_count * edited.col_count,
        0 <= row < edited.row_count,
        0 <= column < edited.col_count,
    ensures
        edited.current_cell.column + 1 < edited.col_count && column + 1 < edited.col_count ==> {
            let narrower = edited.with_column_removed();
            &&& narrower.cells[row * (edited.col_count - 1) + column] == edited.cells[row
                * edited.col_count + column]
            &&& narrower.lines == edited.lines
        },
        edited.current_cell.row + 1 < edited.row_count && row + 1 < edited.row_count ==> {
            let lower = edited.with_row_removed();
            &&& lower.cells[row * edited.col_count + column] == edited.cells[row
                * edited.col_count + column]
            &&& lower.lines == edited.lines
            &&& lower.cells.len() == (edited.row_count - 1) * edited.col_count
        },
{
    let rows = edited.row_count;
    let cols = edited.col_count;
    if column + 1 < cols {
        lemma_shortened_cell(edited.cells, rows, cols, row, column);
    }
    assert((rows - 1) * cols == rows * cols - cols) by (nonlinear_arith);
    if row + 1 < rows {
        lemma_cell_index_in_range(row, column, rows - 1, cols);
    }
}

/// The editing of a matrix starts in the cell that the cursor comes to first:
/// coming from the right in its line, in the last column; coming from a line
/// below, in the last row; else in the first cell.
pub proof fn law_matrix_is_entered_where_the_cursor_comes_from(
    row_count: usize,
    col_count: usize,
    src: Seq<char>,
    row_index: EditorY,
    start_text_index: usize,
    end_text_index: usize,
    from: Pos,
)
    requires
        row_count >= 1,
        col_count >= 1,
    ensures
        ({
            let opened = opened_matrix(
                row_count,
                col_count,
                src,
                row_index,
                start_text_index,
                end_text_index,
                from,
            );
            let cell = opened.current_cell;
            &&& from.row == row_index.0 && from.column > start_text_index ==> cell.row == 0
                && cell.column == col_count - 1
            &&& from.row == row_index.0 && from.column <= start_text_index ==> cell.row == 0
                && cell.column == 0
            &&& from.row < row_index.0 ==> cell.row == 0 && cell.column == 0
            &&& from.row > row_index.0 ==> cell.row == row_count - 1 && cell.column == 0
            &&& opened.cells == matrix_cells(src)
            &&& joined_lines(opened.lines) == matrix_cells(src)[cell.row * col_count + cell.column]
            &&& opened.editor.selection.start == Pos { row: 0, column: 0 }
            &&& opened.editor.selection.end == Some(
                Pos { row: 0, column: opened.lines[0].len() as usize },
            )
            &&& opened.row_count == row_count
            &&& opened.col_count == col_count
            &&& opened.row_index == row_index
            &&& opened.start_text_index == start_text_index
            &&& opened.end_text_index == end_text_index
        }),
{
    let cell = entry_cell(row_count, col_count, row_index, start_text_index, from);
    law_split_lines_join_again(matrix_cells(src)[cell.row * col_count + cell.column]);
}

proof fn lemma_blanks_are_skipped(body: Seq<char>, blanks: Seq<char>)
    requires
        split_cells(body).len() >= 1,
        split_cells(body).last().len() == 0,
        all_blank(blanks),
    ensures
        split_cells(body + blanks) == split_cells(body),
    decreases blanks.len(),
{
    let text = body + blanks;
    if blanks.len() > 0 {
        assert(text.drop_last() =~= body + blanks.drop_last());
        assert(is_blank(blanks[blanks.len() - 1]));
        lemma_blanks_are_skipped(body, blanks.drop_last());
    } else {
        assert(text =~= body);
    }
}

proof fn lemma_cell_is_read(body: Seq<char>, cell: Seq<char>)
    requires
        split_cells(body).len() >= 1,
        split_cells(body).last().len() == 0,
        cell.len() >= 1,
        !is_blank(cell[0]),
        forall|i: int| 0 <= i < cell.len() ==> (#[trigger] cell[i]) != ',' && cell[i] != ';',
    ensures
        split_cells(body + cell) == split_cells(body).drop_last().push(cell),
    decreases cell.len(),
{
    let text = body + cell;
    let shorter = cell.drop_last();
    assert(text.drop_last() =~= body + shorter);
    assert(text.last() == cell[cell.len() - 1]);
    let before = split_cells(body);
    if shorter.len() > 0 {
        lemma_cell_is_read(body, shorter);
        assert(shorter.push(cell.last()) =~= cell);
    } else {
        assert(body + shorter =~= body);
        assert(before.last() =~= Seq::empty());
        assert(before.last().push(cell.last()) =~= cell);
    }
}

proof fn lemma_split_cells_not_empty(body: Seq<char>)
    ensures
        split_cells(body).len() >= 1,
    decreases body.len(),
{
    if body.len() > 0 {
        lemma_split_cells_not_empty(body.drop_last());
    }
}

/// A comma or a semicolon starts a new cell; the blanks before its text do not
/// belong to it.
pub proof fn law_cell_is_read_without_the_blanks_before_it(
    body: Seq<char>,
    separator: char,
    blanks: Seq<char>,
    cell: Seq<char>,
)
    requires
        separator == ',' || separator == ';',
        all_blank(blanks),
        cell.len() >= 1,
        !is_blank(cell[0]),
        forall|i: int| 0 <= i < cell.len() ==> (#[trigger] cell[i]) != ',' && cell[i] != ';',
    ensures
        split_cells(body.push(separator) + blanks + cell) == split_cells(body).push(cell),
{
    let opened = body.push(separator);
    lemma_split_cells_not_empty(body);
    assert(opened.drop_last() =~= body);
    lemma_blanks_are_skipped(opened, blanks);
    lemma_cell_is_read(opened + blanks, cell);
    assert(split_cells(opened).drop_last() =~= split_cells(body));
}

/// The cells of a matrix's text are read from between its brackets.
pub proof fn law_cells_are_read_from_between_the_brackets(body: Seq<char>, behind: Seq<char>)
    requires
        body.len() >= 1,
        forall|i: int| 0 <= i < body.len() ==> (#[trigger] body[i]) != '[' && body[i] != ']',
        split_cells(body).last().len() > 0,
    ensures
        matrix_cells(seq!['['] + body + seq![']'] + behind) == split_cells(body),
{
    let src = seq!['['] + body + seq![']'] + behind;
    lemma_closing_is_found(src, 0, body.len() as int + 1);
    let inner = src.take(body.len() as int + 1);
    assert(inner =~= seq!['['] + body);
    lemma_only_opening_is_left_out(body);
}

proof fn lemma_closing_is_found(src: Seq<char>, from: int, at: int)
    requires
        0 <= from <= at < src.len(),
        src[at] == ']',
        forall|i: int| from <= i < at ==> (#[trigger] src[i]) != ']',
    ensures
        closing_bracket(src, from) == at,
    decreases at - from,
{
    if from < at {
        lemma_closing_is_found(src, from + 1, at);
    }
}

proof fn lemma_only_opening_is_left_out(text: Seq<char>)
    requires
        forall|i: int| 0 <= i < text.len() ==> (#[trigger] text[i]) != '[',
    ensures
        without_opening(seq!['['] + text) == text,
    decreases text.len(),
{
    let all = seq!['['] + text;
    if text.len() == 0 {
        assert(all.drop_last() =~= Seq::empty());
        assert(without_opening(all.drop_last()) =~= text);
    } else {
        let shorter = text.drop_last();
        lemma_only_opening_is_left_out(shorter);
        assert(all.drop_last() =~= seq!['['] + shorter);
        assert(all.last() == text[text.len() - 1]);
        assert(shorter.push(text.last()) =~= text);
    }
}

} // verus!
