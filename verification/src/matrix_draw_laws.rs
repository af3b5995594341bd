use vstd::prelude::*;

use crate::buckets::{Cmd, Frame, Layer, TextCmd};
use crate::canvas::{cmd_written, cmds_written, row_with};
use crate::matrix_editing::lemma_cell_index_in_range;
use crate::matrix_layout::{bracket, column_x};
use crate::matrix_result_render::{
    largest_lengths, lemma_largest_lengths_bound, result_cell_drawn, result_matrix, zeros, ResultMatrix,
};
use crate::results::{
    MatrixData, Precision, ResultFormat, ResultLengths, ResultText, ScalarResult,
};

verus! {

/// The canvas after the commands that a frame has in its text layer behind the
/// first `n` were written onto it.
pub open spec fn text_layer_written(
    canvas: Seq<Seq<char>>,
    frame: Frame,
    n: int,
) -> Seq<Seq<char>> {
    cmds_written(canvas, frame.text.skip(n))
}

pub(crate) proof fn lemma_one_more_command(
    canvas: Seq<Seq<char>>,
    frame: Frame,
    n: int,
    cmd: Cmd,
)
    requires
        0 <= n <= frame.text.len(),
    ensures
        text_layer_written(canvas, frame.on(Layer::Text, cmd), n) == cmd_written(
            text_layer_written(canvas, frame, n),
            cmd,
        ),
        frame.on(Layer::Text, cmd).text.len() == frame.text.len() + 1,
{
    let after = frame.on(Layer::Text, cmd);
    assert(after.text.skip(n) =~= frame.text.skip(n).push(cmd));
    assert(after.text.skip(n).drop_last() =~= frame.text.skip(n));
}

/// Characters that are drawn one by one stand next to each other.
pub(crate) proof fn lemma_chars_written(
    canvas: Seq<Seq<char>>,
    frame: Frame,
    n: int,
    x: int,
    y: int,
    line: Seq<char>,
)
    requires
        0 <= n <= frame.text.len(),
        ({
            let before = text_layer_written(canvas, frame, n);
            &&& 0 <= y < before.len()
            &&& 0 <= x
            &&& x + line.len() <= before[y].len()
        }),
    ensures
        ({
            let before = text_layer_written(canvas, frame, n);
            text_layer_written(canvas, frame.draw_chars(Layer::Text, x, y, line), n)
                == before.update(y, row_with(before[y], x, line))
        }),
        frame.draw_chars(Layer::Text, x, y, line).text.len() == frame.text.len() + line.len(),
    decreases line.len(),
{
    let before = text_layer_written(canvas, frame, n);
    if line.len() == 0 {
        assert(row_with(before[y], x, line) =~= before[y]);
        assert(before.update(y, before[y]) =~= before);
    } else {
        let shorter = line.drop_last();
        lemma_chars_written(canvas, frame, n, x, y, shorter);
        let drawn = frame.draw_chars(Layer::Text, x, y, shorter);
        let cmd = Cmd::Char { x: x + line.len() - 1, y, ch: line.last() };
        lemma_one_more_command(canvas, drawn, n, cmd);
        let so_far = before.update(y, row_with(before[y], x, shorter));
        assert(row_with(before[y], x, shorter).update(x + line.len() - 1, line.last())
            =~= row_with(before[y], x, line));
        assert(cmd_written(so_far, cmd) =~= before.update(y, row_with(before[y], x, line)));
    }
}

/// A row of the canvas with a cell written into it.
spec fn cell_row(row: Seq<char>, text: ResultText, longest: ResultLengths, x: int) -> Seq<char> {
    let chars = text.text@;
    let int_len = text.lengths.int_part_len as int;
    let frac_len = text.lengths.frac_part_len as int;
    let int_x = x + longest.int_part_len - int_len;
    let frac_x = int_x + int_len;
    let point = frac_len == 0 && longest.frac_part_len > 0;
    let with_int = row_with(row, int_x, chars.subrange(0, int_len));
    let with_frac = if frac_len > 0 {
        row_with(with_int, frac_x, chars.subrange(int_len, int_len + frac_len))
    } else if point {
        with_int.update(frac_x, '.')
    } else {
        with_int
    };
    let drawn = if point {
        1int
    } else {
        frac_len
    };
    let filled = row_with(with_frac, frac_x + drawn, zeros(longest.frac_part_len - drawn));
    if text.lengths.unit_part_len > 0 {
        row_with(
            filled,
            frac_x + longest.frac_part_len + 1,
            chars.subrange(int_len + frac_len + 1, chars.len() as int),
        )
    } else {
        filled
    }
}

/// The text of a cell stands in the row, in a column of the matrix that starts
/// at `x`: its digits before the decimal point end where those of the longest
/// cell end, the decimals follow, filled up with zeros, and then the unit.
pub open spec fn cell_shown(
    row: Seq<char>,
    text: ResultText,
    longest: ResultLengths,
    x: int,
) -> bool {
    let chars = text.text@;
    let int_len = text.lengths.int_part_len as int;
    let frac_len = text.lengths.frac_part_len as int;
    let point_x = x + longest.int_part_len;
    let unit_x = point_x + longest.frac_part_len + 1;
    let unit_at = int_len + frac_len + 1;
    &&& forall|k: int| 0 <= k < int_len ==> #[trigger] chars[k] == row[point_x - int_len + k]
    &&& forall|k: int|
        int_len <= k < int_len + frac_len ==> #[trigger] chars[k] == row[point_x + (k - int_len)]
    &&& forall|i: int|
        point_x + frac_len <= i < point_x + longest.frac_part_len ==> #[trigger] row[i] == (
        if i == point_x {
            '.'
        } else {
            '0'
        })
    &&& text.lengths.unit_part_len > 0 ==> forall|k: int|
        unit_at <= k < chars.len() ==> #[trigger] chars[k] == row[unit_x + (k - unit_at)]
}

/// The parts of the text are no longer than it tells, and those of the longest
/// are at least as long.
pub open spec fn fits_into(text: ResultText, longest: ResultLengths) -> bool {
    &&& text.wf()
    &&& text.lengths.int_part_len <= longest.int_part_len
    &&& text.lengths.frac_part_len <= longest.frac_part_len
    &&& text.lengths.unit_part_len <= longest.unit_part_len
    &&& text.lengths.unit_part_len > 0 ==> text.text@.len() <= text.lengths.int_part_len
        + text.lengths.frac_part_len + 1 + text.lengths.unit_part_len
}

spec fn width_of(longest: ResultLengths) -> int {
    longest.int_part_len + longest.frac_part_len + longest.unit_part_len
}

proof fn lemma_cell_row(row: Seq<char>, text: ResultText, longest: ResultLengths, x: int)
    requires
        fits_into(text, longest),
        0 <= x,
        x + width_of(longest) + 1 <= row.len(),
    ensures
        cell_row(row, text, longest, x).len() == row.len(),
        cell_shown(cell_row(row, text, longest, x), text, longest, x),
        forall|i: int|
            0 <= i < row.len() && (i < x || i > x + width_of(longest)) ==> #[trigger] cell_row(
                row,
                text,
                longest,
                x,
            )[i] == row[i],
{
    let chars = text.text@;
    let int_len = text.lengths.int_part_len as int;
    let frac_len = text.lengths.frac_part_len as int;
    let point_x = x + longest.int_part_len;
    let unit_x = point_x + longest.frac_part_len + 1;
    let unit_at = int_len + frac_len + 1;
    let after = cell_row(row, text, longest, x);
    let ints = chars.subrange(0, int_len);
    let fracs = chars.subrange(int_len, int_len + frac_len);
    assert forall|k: int| 0 <= k < int_len implies #[trigger] chars[k] == after[point_x - int_len
        + k] by {
        assert(ints[k] == chars[k]);
    }
    assert forall|k: int| int_len <= k < int_len + frac_len implies #[trigger] chars[k]
        == after[point_x + (k - int_len)] by {
        assert(fracs[k - int_len] == chars[k]);
    }
    if text.lengths.unit_part_len > 0 {
        let unit = chars.subrange(unit_at, chars.len() as int);
        assert forall|k: int| unit_at <= k < chars.len() implies #[trigger] chars[k]
            == after[unit_x + (k - unit_at)] by {
            assert(unit[k - unit_at] == chars[k]);
        }
    }
}

/// Drawing a cell writes it into its row, and nothing else.
proof fn lemma_cell_written(
    canvas: Seq<Seq<char>>,
    frame: Frame,
    n: int,
    text: ResultText,
    longest: ResultLengths,
    x: int,
    y: int,
)
    requires
        0 <= n <= frame.text.len(),
        fits_into(text, longest),
        0 <= x,
        ({
            let before = text_layer_written(canvas, frame, n);
            &&& 0 <= y < before.len()
            &&& x + width_of(longest) + 1 <= before[y].len()
        }),
    ensures
        ({
            let before = text_layer_written(canvas, frame, n);
            text_layer_written(canvas, result_cell_drawn(frame, text, longest, x, y), n)
                == before.update(y, cell_row(before[y], text, longest, x))
        }),
        result_cell_drawn(frame, text, longest, x, y).text.len() >= frame.text.len(),
{
    let before = text_layer_written(canvas, frame, n);
    let chars = text.text@;
    let int_len = text.lengths.int_part_len as int;
    let frac_len = text.lengths.frac_part_len as int;
    let int_x = x + longest.int_part_len - int_len;
    let frac_x = int_x + int_len;
    let point = frac_len == 0 && longest.frac_part_len > 0;
    let int_cmd = Cmd::Str(TextCmd { text: chars.subrange(0, int_len), row: y, column: int_x });
    let f1 = frame.on(Layer::Text, int_cmd);
    lemma_one_more_command(canvas, frame, n, int_cmd);
    let r1 = row_with(before[y], int_x, chars.subrange(0, int_len));
    assert(text_layer_written(canvas, f1, n) =~= before.update(y, r1));
    let frac_cmd = Cmd::Str(
        TextCmd { text: chars.subrange(int_len, int_len + frac_len), row: y, column: frac_x },
    );
    let point_cmd = Cmd::Char { x: frac_x, y, ch: '.' };
    let f2 = if frac_len > 0 {
        f1.on(Layer::Text, frac_cmd)
    } else if point {
        f1.on(Layer::Text, point_cmd)
    } else {
        f1
    };
    let r2 = if frac_len > 0 {
        row_with(r1, frac_x, chars.subrange(int_len, int_len + frac_len))
    } else if point {
        r1.update(frac_x, '.')
    } else {
        r1
    };
    lemma_one_more_command(canvas, f1, n, frac_cmd);
    lemma_one_more_command(canvas, f1, n, point_cmd);
    assert(text_layer_written(canvas, f2, n) =~= before.update(y, r2));
    let drawn = if point {
        1int
    } else {
        frac_len
    };
    let fill = zeros(longest.frac_part_len - drawn);
    lemma_chars_written(canvas, f2, n, frac_x + drawn, y, fill);
    let f3 = f2.draw_chars(Layer::Text, frac_x + drawn, y, fill);
    let r3 = row_with(r2, frac_x + drawn, fill);
    assert(text_layer_written(canvas, f3, n) =~= before.update(y, r3));
    if text.lengths.unit_part_len > 0 {
        let unit = chars.subrange(int_len + frac_len + 1, chars.len() as int);
        let unit_cmd = Cmd::Str(
            TextCmd { text: unit, row: y, column: frac_x + longest.frac_part_len + 1 },
        );
        lemma_one_more_command(canvas, f3, n, unit_cmd);
        let r4 = row_with(r3, frac_x + longest.frac_part_len + 1, unit);
        assert(text_layer_written(canvas, f3.on(Layer::Text, unit_cmd), n) =~= before.update(
            y,
            r4,
        ));
    }
}

/// The canvas has room for the matrix.
spec fn has_room(canvas: Seq<Seq<char>>, top: int, rows: int, end: int) -> bool {
    &&& 0 <= top
    &&& top + rows <= canvas.len()
    &&& forall|y: int| top <= y < top + rows ==> (#[trigger] canvas[y]).len() >= end
}

spec fn text_of_cell(matrix: ResultMatrix, row: int, col: int) -> ResultText {
    matrix.cells[row * matrix.col_count + col].text_of(ResultFormat::Dec, matrix.precision)
}

spec fn cells_fit(matrix: ResultMatrix) -> bool {
    forall|row: int, col: int|
        0 <= row < matrix.row_count && 0 <= col < matrix.col_count ==> fits_into(
            #[trigger] text_of_cell(matrix, row, col),
            matrix.longest,
        )
}

proof fn lemma_column_written(
    canvas: Seq<Seq<char>>,
    frame: Frame,
    n: int,
    matrix: ResultMatrix,
    x: int,
    top: int,
    col: int,
    rows: int,
)
    requires
        0 <= n <= frame.text.len(),
        cells_fit(matrix),
        0 <= rows <= matrix.row_count,
        0 <= col < matrix.col_count,
        0 <= x,
        has_room(
            text_layer_written(canvas, frame, n),
            top,
            matrix.row_count,
            x + width_of(matrix.longest) + 1,
        ),
    ensures
        ({
            let before = text_layer_written(canvas, frame, n);
            let drawn = matrix.draw_column(frame, x, top, col, rows);
            let after = text_layer_written(canvas, drawn, n);
            &&& drawn.text.len() >= frame.text.len()
            &&& after.len() == before.len()
            &&& forall|r: int|
                0 <= r < rows ==> (#[trigger] after[top + r]) == cell_row(
                    before[top + r],
                    text_of_cell(matrix, r, col),
                    matrix.longest,
                    x,
                )
            &&& forall|y: int|
                0 <= y < before.len() && !(top <= y < top + rows) ==> (#[trigger] after[y])
                    == before[y]
        }),
    decreases rows,
{
    if rows > 0 {
        let r = rows - 1;
        lemma_column_written(canvas, frame, n, matrix, x, top, col, r);
        let shorter = matrix.draw_column(frame, x, top, col, r);
        let so_far = text_layer_written(canvas, shorter, n);
        let text = text_of_cell(matrix, r, col);
        assert(fits_into(text, matrix.longest));
        assert(so_far[top + r] == text_layer_written(canvas, frame, n)[top + r]);
        lemma_cell_written(canvas, shorter, n, text, matrix.longest, x, top + r);
        let before = text_layer_written(canvas, frame, n);
        let drawn = matrix.draw_column(frame, x, top, col, rows);
        let after = text_layer_written(canvas, drawn, n);
        assert(after =~= so_far.update(
            top + r,
            cell_row(so_far[top + r], text, matrix.longest, x),
        ));
        assert forall|i: int| 0 <= i < rows implies (#[trigger] after[top + i]) == cell_row(
            before[top + i],
            text_of_cell(matrix, i, col),
            matrix.longest,
            x,
        ) by {
            if i < r {
                assert(so_far[top + i] == cell_row(
                    before[top + i],
                    text_of_cell(matrix, i, col),
                    matrix.longest,
                    x,
                ));
            }
        }
    }
}

proof fn lemma_column_starts(matrix: ResultMatrix, start: int, col: int)
    requires
        0 <= col < matrix.col_count,
    ensures
        column_x(start, matrix.widths(), col) == start + col * (width_of(matrix.longest) + 2),
    decreases col,
{
    let w = width_of(matrix.longest);
    if col > 0 {
        lemma_column_starts(matrix, start, col - 1);
        assert(col * (w + 2) == (col - 1) * (w + 2) + (w + 2)) by (nonlinear_arith);
        assert(matrix.widths()[col - 1] == w);
    } else {
        assert(col * (w + 2) == 0) by (nonlinear_arith)
            requires
                col == 0,
        ;
    }
}

proof fn lemma_columns_written(
    canvas: Seq<Seq<char>>,
    frame: Frame,
    n: int,
    matrix: ResultMatrix,
    start: int,
    top: int,
    cols: int,
)
    requires
        0 <= n <= frame.text.len(),
        cells_fit(matrix),
        0 <= matrix.row_count,
        0 <= cols <= matrix.col_count,
        0 <= start,
        has_room(
            text_layer_written(canvas, frame, n),
            top,
            matrix.row_count,
            start + matrix.col_count * (width_of(matrix.longest) + 2),
        ),
    ensures
        ({
            let w = width_of(matrix.longest) + 2;
            let before = text_layer_written(canvas, frame, n);
            let drawn = matrix.draw_columns(frame, start, top, cols);
            let after = text_layer_written(canvas, drawn, n);
            &&& drawn.text.len() >= frame.text.len()
            &&& after.len() == before.len()
            &&& forall|y: int| 0 <= y < before.len() ==> (#[trigger] after[y]).len()
                == before[y].len()
            &&& forall|r: int, c: int|
                0 <= r < matrix.row_count && 0 <= c < cols ==> cell_shown(
                    after[top + r],
                    #[trigger] text_of_cell(matrix, r, c),
                    matrix.longest,
                    start + c * w,
                )
        }),
    decreases cols,
{
    let w = width_of(matrix.longest) + 2;
    if cols > 0 {
        let col = cols - 1;
        lemma_columns_written(canvas, frame, n, matrix, start, top, col);
        lemma_column_starts(matrix, start, col);
        let shorter = matrix.draw_columns(frame, start, top, col);
        let so_far = text_layer_written(canvas, shorter, n);
        let x = start + col * w;
        assert(0 <= col * w && col * w + w <= matrix.col_count * w) by (nonlinear_arith)
            requires
                0 <= col,
                col + 1 <= matrix.col_count,
                w >= 2,
        ;
        lemma_column_written(canvas, shorter, n, matrix, x, top, col, matrix.row_count);
        let drawn = matrix.draw_columns(frame, start, top, cols);
        let after = text_layer_written(canvas, drawn, n);
        assert forall|r: int, c: int|
            0 <= r < matrix.row_count && 0 <= c < cols implies cell_shown(
            after[top + r],
            #[trigger] text_of_cell(matrix, r, c),
            matrix.longest,
            start + c * w,
        ) by {
            let written = text_of_cell(matrix, r, col);
            assert(fits_into(written, matrix.longest));
            lemma_cell_row(so_far[top + r], written, matrix.longest, x);
            assert(after[top + r] == cell_row(so_far[top + r], written, matrix.longest, x));
            if c < col {
                let text = text_of_cell(matrix, r, c);
                assert(fits_into(text, matrix.longest));
                assert(cell_shown(so_far[top + r], text, matrix.longest, start + c * w));
                assert(0 <= c * w && c * w + w <= col * w) by (nonlinear_arith)
                    requires
                        0 <= c,
                        c + 1 <= col,
                        w >= 2,
                ;
                let row = so_far[top + r];
                assert forall|i: int| start + c * w <= i < x implies #[trigger] after[top + r][i]
                    == row[i] by {}
                lemma_shown_stays(row, after[top + r], text, matrix.longest, start + c * w);
            }
        }
        assert forall|y: int| 0 <= y < so_far.len() implies (#[trigger] after[y]).len()
            == so_far[y].len() by {
            if top <= y < top + matrix.row_count {
                let r = y - top;
                let written = text_of_cell(matrix, r, col);
                assert(fits_into(written, matrix.longest));
                lemma_cell_row(so_far[top + r], written, matrix.longest, x);
                assert(after[top + r] == cell_row(so_far[top + r], written, matrix.longest, x));
            }
        }
    }
}

/// A cell that is shown stays, where nothing of it is written over.
proof fn lemma_shown_stays(
    before: Seq<char>,
    after: Seq<char>,
    text: ResultText,
    longest: ResultLengths,
    x: int,
)
    requires
        fits_into(text, longest),
        cell_shown(before, text, longest, x),
        0 <= x,
        x + width_of(longest) + 1 <= before.len(),
        before.len() == after.len(),
        forall|i: int|
            x <= i <= x + width_of(longest) + 1 && i < before.len() ==> #[trigger] after[i]
                == before[i],
    ensures
        cell_shown(after, text, longest, x),
{
    let chars = text.text@;
    let int_len = text.lengths.int_part_len as int;
    let frac_len = text.lengths.frac_part_len as int;
    let point_x = x + longest.int_part_len;
    let unit_x = point_x + longest.frac_part_len + 1;
    let unit_at = int_len + frac_len + 1;
    assert forall|k: int| 0 <= k < int_len implies #[trigger] chars[k] == after[point_x - int_len
        + k] by {
        assert(chars[k] == before[point_x - int_len + k]);
    }
    assert forall|k: int| int_len <= k < int_len + frac_len implies #[trigger] chars[k]
        == after[point_x + (k - int_len)] by {
        assert(chars[k] == before[point_x + (k - int_len)]);
    }
    if text.lengths.unit_part_len > 0 {
        assert forall|k: int| unit_at <= k < chars.len() implies #[trigger] chars[k]
            == after[unit_x + (k - unit_at)] by {
            assert(chars[k] == before[unit_x + (k - unit_at)]);
        }
    }
}

/// A matrix that is the value of a line is drawn as it is written, row below row
/// and column next to column: on the screen, the element of row `r` and column
/// `c`, which is the element number `r` times the number of columns, plus `c`,
/// stands `r` rows below the first one, in the middle of the line, and as many
/// columns right of the bracket as `c` columns of equal width with two blanks
/// behind each take.
pub proof fn law_result_matrix_is_drawn_row_by_row(
    mat: MatrixData,
    precision: Precision,
    aligned_with: Option<ResultLengths>,
    frame: Frame,
    canvas: Seq<Seq<char>>,
    x: int,
    y: int,
    line_height: int,
    r: int,
    c: int,
)
    requires
        mat.wf(),
        0 <= r < mat.row_count,
        0 <= c < mat.col_count,
        0 <= x,
        0 <= y,
        mat.row_count <= line_height,
        y + line_height <= canvas.len(),
        ({
            let longest = result_matrix(mat, precision, aligned_with).longest;
            let width = longest.int_part_len + longest.frac_part_len + longest.unit_part_len;
            forall|i: int|
                0 <= i < canvas.len() ==> (#[trigger] canvas[i]).len() >= x + 1 + mat.col_count * (
                width + 2)
        }),
        forall|i: int|
            0 <= i < mat.cells@.len() ==> ({
                let text = (#[trigger] mat.cells@[i]).text_of(ResultFormat::Dec, precision);
                text.lengths.unit_part_len > 0 ==> text.text@.len() <= text.lengths.int_part_len
                    + text.lengths.frac_part_len + 1 + text.lengths.unit_part_len
            }),
    ensures
        ({
            let matrix = result_matrix(mat, precision, aligned_with);
            let longest = matrix.longest;
            let width = longest.int_part_len + longest.frac_part_len + longest.unit_part_len;
            let drawn = matrix.draw(frame, x, y, line_height);
            let shown = text_layer_written(canvas, drawn, frame.text.len() as int);
            let top = y + (line_height - mat.row_count) / 2;
            cell_shown(
                shown[top + r],
                mat.cells@[r * mat.col_count + c].text_of(ResultFormat::Dec, precision),
                longest,
                x + 1 + c * (width + 2),
            )
        }),
{
    let matrix = result_matrix(mat, precision, aligned_with);
    let longest = matrix.longest;
    let top = y + (line_height - mat.row_count) / 2;
    let n = frame.text.len() as int;
    let opened = frame.with_operators(
        bracket(true, matrix.row_count, top, x),
    );
    let colored = opened.set_color(Layer::Text, 0x000000_FF);
    assert(opened.text.skip(n) =~= Seq::empty());
    lemma_one_more_command(canvas, opened, n, Cmd::SetColor(0x000000_FF));
    assert(text_layer_written(canvas, colored, n) == canvas);
    let least = match aligned_with {
        Some(lengths) => lengths,
        None => ResultLengths::zero(),
    };
    assert forall|row: int, col: int|
        0 <= row < matrix.row_count && 0 <= col < matrix.col_count implies fits_into(
        #[trigger] text_of_cell(matrix, row, col),
        longest,
    ) by {
        lemma_cell_index_in_range(row, col, matrix.row_count, matrix.col_count);
        let i = row * matrix.col_count + col;
        assert(mat.cells@[i].wf());
        lemma_largest_lengths_bound(mat.cells@, precision, least, i);
    }
    lemma_columns_written(canvas, colored, n, matrix, x + 1, top, matrix.col_count);
    assert(text_of_cell(matrix, r, c) == mat.cells@[r * mat.col_count + c].text_of(
        ResultFormat::Dec,
        precision,
    ));
}

/// The piece of a bracket in row `i` of `n`: a bracket of one row is a square
/// bracket, a taller one has its corners at its ends.
pub open spec fn is_bracket_piece(text: Seq<char>, left: bool, i: int, n: int) -> bool {
    &&& text.len() == 1
    &&& left && n == 1 ==> text[0] == '['
    &&& left && n > 1 && i == 0 ==> text[0] == '⎡'
    &&& left && n > 1 && i == n - 1 ==> text[0] == '⎣'
    &&& left && 0 < i < n - 1 ==> text[0] == '⎢'
    &&& !left && n == 1 ==> text[0] == ']'
    &&& !left && n > 1 && i == 0 ==> text[0] == '⎤'
    &&& !left && n > 1 && i == n - 1 ==> text[0] == '⎦'
    &&& !left && 0 < i < n - 1 ==> text[0] == '⎥'
}

/// A bracket has one piece in each row of its matrix, all in one column.
pub proof fn law_bracket_is_as_tall_as_its_matrix(left: bool, n: int, row: int, column: int)
    requires
        n >= 1,
    ensures
        ({
            let pieces = bracket(left, n, row, column);
            &&& pieces.len() == n
            &&& forall|i: int|
                0 <= i < n ==> {
                    &&& is_bracket_piece((#[trigger] pieces[i]).text, left, i, n)
                    &&& pieces[i].row == row + i
                    &&& pieces[i].column == column
                }
        }),
{
}

proof fn lemma_closing_x(matrix: ResultMatrix, start: int)
    requires
        matrix.col_count >= 1,
    ensures
        column_x(start, matrix.widths(), matrix.col_count) == start + matrix.col_count * (
        width_of(matrix.longest) + 2) - 2,
{
    let w = width_of(matrix.longest);
    let last = matrix.col_count - 1;
    lemma_column_starts(matrix, start, last);
    assert(matrix.col_count * (w + 2) == last * (w + 2) + (w + 2)) by (nonlinear_arith)
        requires
            last == matrix.col_count - 1,
    ;
    assert(matrix.widths()[last] == w);
}

proof fn lemma_cells_draw_no_operators(matrix: ResultMatrix, frame: Frame, start: int, top: int, n: int)
    ensures
        matrix.draw_columns(frame, start, top, n).operators == frame.operators,
    decreases n,
{
    if n > 0 {
        lemma_cells_draw_no_operators(matrix, frame, start, top, n - 1);
        lemma_column_draws_no_operators(
            matrix,
            matrix.draw_columns(frame, start, top, n - 1),
            column_x(start, matrix.widths(), n - 1),
            top,
            n - 1,
            matrix.row_count,
        );
    }
}

proof fn lemma_chars_draw_no_operators(frame: Frame, x: int, y: int, line: Seq<char>)
    ensures
        frame.draw_chars(Layer::Text, x, y, line).operators == frame.operators,
    decreases line.len(),
{
    if line.len() > 0 {
        lemma_chars_draw_no_operators(frame, x, y, line.drop_last());
    }
}

proof fn lemma_column_draws_no_operators(
    matrix: ResultMatrix,
    frame: Frame,
    x: int,
    top: int,
    col: int,
    n: int,
)
    ensures
        matrix.draw_column(frame, x, top, col, n).operators == frame.operators,
    decreases n,
{
    if n > 0 {
        lemma_column_draws_no_operators(matrix, frame, x, top, col, n - 1);
        let shorter = matrix.draw_column(frame, x, top, col, n - 1);
        let text = text_of_cell(matrix, n - 1, col);
        let int_len = text.lengths.int_part_len as int;
        let frac_len = text.lengths.frac_part_len as int;
        let int_x = x + matrix.longest.int_part_len - int_len;
        let y = top + n - 1;
        let f1 = shorter.draw_string(Layer::Text, int_x, y, text.text@.subrange(0, int_len));
        let point = frac_len == 0 && matrix.longest.frac_part_len > 0;
        let f2 = if frac_len > 0 {
            f1.draw_string(
                Layer::Text,
                int_x + int_len,
                y,
                text.text@.subrange(int_len, int_len + frac_len),
            )
        } else if point {
            f1.draw_char(Layer::Text, int_x + int_len, y, '.')
        } else {
            f1
        };
        let drawn = if point {
            1int
        } else {
            frac_len
        };
        lemma_chars_draw_no_operators(
            f2,
            int_x + int_len + drawn,
            y,
            zeros(matrix.longest.frac_part_len - drawn),
        );
    }
}

/// The brackets of a matrix that is the value of a line enclose its cells: the
/// opening one stands in the first column of the drawing and the closing one in
/// its last, both in the rows of the cells, in the middle of the line.
pub proof fn law_brackets_enclose_the_result_matrix(
    mat: MatrixData,
    precision: Precision,
    aligned_with: Option<ResultLengths>,
    frame: Frame,
    x: int,
    y: int,
    line_height: int,
)
    requires
        mat.wf(),
    ensures
        ({
            let matrix = result_matrix(mat, precision, aligned_with);
            let longest = matrix.longest;
            let width = longest.int_part_len + longest.frac_part_len + longest.unit_part_len;
            let drawn = matrix.draw(frame, x, y, line_height);
            let top = y + (line_height - mat.row_count) / 2;
            let end = x + 1 + mat.col_count * (width + 2) - 2;
            let n = mat.row_count as int;
            &&& drawn.operators == frame.operators + bracket(true, n, top, x) + bracket(
                false,
                n,
                top,
                end,
            )
            &&& matrix.drawn_width() == mat.col_count * (width + 2)
        }),
{
    let matrix = result_matrix(mat, precision, aligned_with);
    let top = y + (line_height - mat.row_count) / 2;
    let opened = frame.with_operators(bracket(true, matrix.row_count, top, x)).set_color(
        Layer::Text,
        0x000000_FF,
    );
    lemma_cells_draw_no_operators(matrix, opened, x + 1, top, matrix.col_count);
    lemma_closing_x(matrix, x + 1);
    lemma_closing_x(matrix, 1);
}

/// Some cell of the matrix has a part of this length.
pub open spec fn attained(
    mat: MatrixData,
    precision: Precision,
    part: spec_fn(ResultLengths) -> usize,
    len: usize,
) -> bool {
    exists|i: int|
        0 <= i < mat.cells@.len() && part(
            (#[trigger] mat.cells@[i]).text_of(ResultFormat::Dec, precision).lengths,
        ) == len
}

proof fn lemma_longest_is_attained(
    cells: Seq<ScalarResult>,
    precision: Precision,
    least: ResultLengths,
)
    ensures
        ({
            let longest = largest_lengths(cells, precision, least);
            &&& longest.int_part_len == least.int_part_len || exists|i: int|
                0 <= i < cells.len() && (#[trigger] cells[i]).text_of(
                    ResultFormat::Dec,
                    precision,
                ).lengths.int_part_len == longest.int_part_len
            &&& longest.frac_part_len == least.frac_part_len || exists|i: int|
                0 <= i < cells.len() && (#[trigger] cells[i]).text_of(
                    ResultFormat::Dec,
                    precision,
                ).lengths.frac_part_len == longest.frac_part_len
            &&& longest.unit_part_len == least.unit_part_len || exists|i: int|
                0 <= i < cells.len() && (#[trigger] cells[i]).text_of(
                    ResultFormat::Dec,
                    precision,
                ).lengths.unit_part_len == longest.unit_part_len
            &&& longest.int_part_len >= least.int_part_len
            &&& longest.frac_part_len >= least.frac_part_len
            &&& longest.unit_part_len >= least.unit_part_len
        }),
    decreases cells.len(),
{
    if cells.len() > 0 {
        let shorter = cells.drop_last();
        lemma_longest_is_attained(shorter, precision, least);
        let last = cells[cells.len() - 1].text_of(ResultFormat::Dec, precision).lengths;
        let before = largest_lengths(shorter, precision, least);
        let longest = largest_lengths(cells, precision, least);
        assert(longest == before.max(last));
        if before.int_part_len != least.int_part_len && longest.int_part_len
            == before.int_part_len {
            let i = choose|i: int|
                0 <= i < shorter.len() && (#[trigger] shorter[i]).text_of(
                    ResultFormat::Dec,
                    precision,
                ).lengths.int_part_len == before.int_part_len;
            assert(cells[i] == shorter[i]);
        }
        if before.frac_part_len != least.frac_part_len && longest.frac_part_len
            == before.frac_part_len {
            let i = choose|i: int|
                0 <= i < shorter.len() && (#[trigger] shorter[i]).text_of(
                    ResultFormat::Dec,
                    precision,
                ).lengths.frac_part_len == before.frac_part_len;
            assert(cells[i] == shorter[i]);
        }
        if before.unit_part_len != least.unit_part_len && longest.unit_part_len
            == before.unit_part_len {
            let i = choose|i: int|
                0 <= i < shorter.len() && (#[trigger] shorter[i]).text_of(
                    ResultFormat::Dec,
                    precision,
                ).lengths.unit_part_len == before.unit_part_len;
            assert(cells[i] == shorter[i]);
        }
    }
}

/// The columns of a matrix are as wide as its cells need, and no wider, unless it
/// is aligned with another one: each part is at least as long as that of every
/// cell, and as long as that of one of them, or as it has to be for the alignment.
pub proof fn law_columns_are_as_wide_as_the_cells_need(
    mat: MatrixData,
    precision: Precision,
    aligned_with: Option<ResultLengths>,
)
    ensures
        ({
            let longest = result_matrix(mat, precision, aligned_with).longest;
            let least_int = match aligned_with {
                Some(lengths) => lengths.int_part_len,
                None => 0,
            };
            let least_frac = match aligned_with {
                Some(lengths) => lengths.frac_part_len,
                None => 0,
            };
            let least_unit = match aligned_with {
                Some(lengths) => lengths.unit_part_len,
                None => 0,
            };
            &&& forall|i: int|
                0 <= i < mat.cells@.len() ==> ({
                    let lengths = (#[trigger] mat.cells@[i]).text_of(
                        ResultFormat::Dec,
                        precision,
                    ).lengths;
                    &&& lengths.int_part_len <= longest.int_part_len
                    &&& lengths.frac_part_len <= longest.frac_part_len
                    &&& lengths.unit_part_len <= longest.unit_part_len
                })
            &&& longest.int_part_len >= least_int
            &&& longest.frac_part_len >= least_frac
            &&& longest.unit_part_len >= least_unit
            &&& longest.int_part_len == least_int || attained(
                mat,
                precision,
                |lengths: ResultLengths| lengths.int_part_len,
                longest.int_part_len,
            )
            &&& longest.frac_part_len == least_frac || attained(
                mat,
                precision,
                |lengths: ResultLengths| lengths.frac_part_len,
                longest.frac_part_len,
            )
            &&& longest.unit_part_len == least_unit || attained(
                mat,
                precision,
                |lengths: ResultLengths| lengths.unit_part_len,
                longest.unit_part_len,
            )
        }),
{
    let least = match aligned_with {
        Some(lengths) => lengths,
        None => ResultLengths::zero(),
    };
    lemma_longest_is_attained(mat.cells@, precision, least);
    assert forall|i: int| 0 <= i < mat.cells@.len() implies ({
        let longest = result_matrix(mat, precision, aligned_with).longest;
        let lengths = (#[trigger] mat.cells@[i]).text_of(ResultFormat::Dec, precision).lengths;
        &&& lengths.int_part_len <= longest.int_part_len
        &&& lengths.frac_part_len <= longest.frac_part_len
        &&& lengths.unit_part_len <= longest.unit_part_len
    }) by {
        lemma_largest_lengths_bound(mat.cells@, precision, least, i);
    }
}

} // verus!
