use vstd::prelude::*;

use crate::app::NoteCalcApp;
use crate::buckets::{Frame, Layer, RenderBuckets};
use crate::coords::RenderPosY;
use crate::matrix_editing::lemma_cell_index_in_range;
use crate::matrix_layout::{
    bracket, column_x, draw_matrix_bracket, lemma_column_x_grows, not_negative,
};
use crate::results::{
    CalcResult, LineResult, MatrixData, Precision, ResultFormat, ResultLengths, ResultText,
    ScalarResult,
};

verus! {

/// How a cell of a matrix is written.
pub open spec fn cell_text(cell: ScalarResult, precision: Precision) -> ResultText {
    cell.text_of(ResultFormat::Dec, precision)
}

/// The largest parts among the texts of the cells and `least`.
pub open spec fn largest_lengths(
    cells: Seq<ScalarResult>,
    precision: Precision,
    least: ResultLengths,
) -> ResultLengths
    decreases cells.len(),
{
    if cells.len() == 0 {
        least
    } else {
        largest_lengths(cells.drop_last(), precision, least).max(
            cell_text(cells.last(), precision).lengths,
        )
    }
}

/// A sequence of this many zeros.
pub open spec fn zeros(n: int) -> Seq<char> {
    Seq::new(n as nat, |i: int| '0')
}

/// A cell drawn so that the decimal points of a column stand below each other:
/// the decimals are filled up with zeros to the longest ones.
pub open spec fn result_cell_drawn(
    frame: Frame,
    text: ResultText,
    longest: ResultLengths,
    x: int,
    y: int,
) -> Frame {
    let chars = text.text@;
    let int_len = text.lengths.int_part_len as int;
    let frac_len = text.lengths.frac_part_len as int;
    let int_x = x + longest.int_part_len - int_len;
    let frac_x = int_x + int_len;
    let with_int = frame.draw_string(Layer::Text, int_x, y, chars.subrange(0, int_len));
    let point = frac_len == 0 && longest.frac_part_len > 0;
    let with_frac = if frac_len > 0 {
        with_int.draw_string(
            Layer::Text,
            frac_x,
            y,
            chars.subrange(int_len, int_len + frac_len),
        )
    } else if point {
        with_int.draw_char(Layer::Text, frac_x, y, '.')
    } else {
        with_int
    };
    let drawn = if point {
        1int
    } else {
        frac_len
    };
    let filled = with_frac.draw_chars(
        Layer::Text,
        frac_x + drawn,
        y,
        zeros(longest.frac_part_len - drawn),
    );
    if text.lengths.unit_part_len > 0 {
        filled.draw_string(
            Layer::Text,
            frac_x + longest.frac_part_len + 1,
            y,
            chars.subrange(int_len + frac_len + 1, chars.len() as int),
        )
    } else {
        filled
    }
}

/// A matrix that is the value of a line, and how it is written.
pub struct ResultMatrix {
    pub row_count: int,
    pub col_count: int,
    pub cells: Seq<ScalarResult>,
    pub precision: Precision,
    pub longest: ResultLengths,
}

/// The parts are at least as long as in the matrices that are aligned with it.
pub open spec fn result_matrix(
    mat: MatrixData,
    precision: Precision,
    aligned_with: Option<ResultLengths>,
) -> ResultMatrix {
    let least = match aligned_with {
        Some(lengths) => lengths,
        None => ResultLengths::zero(),
    };
    ResultMatrix {
        row_count: mat.row_count as int,
        col_count: mat.col_count as int,
        cells: mat.cells@,
        precision,
        longest: largest_lengths(mat.cells@, precision, least),
    }
}

impl ResultMatrix {
    pub open spec fn cell_width(self) -> int {
        self.longest.int_part_len + self.longest.frac_part_len + self.longest.unit_part_len
    }

    pub open spec fn widths(self) -> Seq<int> {
        Seq::new(self.col_count as nat, |col: int| self.cell_width())
    }

    pub open spec fn draw_column(
        self,
        frame: Frame,
        x: int,
        top: int,
        col: int,
        n: int,
    ) -> Frame
        decreases n,
    {
        if n <= 0 {
            frame
        } else {
            result_cell_drawn(
                self.draw_column(frame, x, top, col, n - 1),
                cell_text(self.cells[(n - 1) * self.col_count + col], self.precision),
                self.longest,
                x,
                top + n - 1,
            )
        }
    }

    pub open spec fn draw_columns(self, frame: Frame, start: int, top: int, n: int) -> Frame
        decreases n,
    {
        if n <= 0 {
            frame
        } else {
            self.draw_column(
                self.draw_columns(frame, start, top, n - 1),
                column_x(start, self.widths(), n - 1),
                top,
                n - 1,
                self.row_count,
            )
        }
    }

    pub open spec fn closing_x(self, x: int) -> int {
        column_x(x + 1, self.widths(), self.col_count)
    }

    /// The matrix drawn at column `x`, in the middle of a line of this height.
    pub open spec fn draw(self, frame: Frame, x: int, y: int, line_height: int) -> Frame {
        let top = y + (line_height - self.row_count) / 2;
        let opened = frame.with_operators(bracket(true, self.row_count, top, x)).set_color(
            Layer::Text,
            0x000000_FF,
        );
        self.draw_columns(opened, x + 1, top, self.col_count).with_operators(
            bracket(false, self.row_count, top, self.closing_x(x)),
        )
    }

    /// How wide the drawing is.
    pub open spec fn drawn_width(self) -> int {
        self.closing_x(0) + 1
    }
}

proof fn lemma_column_x_shifts(start: int, by: int, widths: Seq<int>, n: int)
    ensures
        column_x(start + by, widths, n) == column_x(start, widths, n) + by,
    decreases n,
{
    if n > 0 {
        lemma_column_x_shifts(start, by, widths, n - 1);
    }
}

pub proof fn lemma_drawn_width_positive(matrix: ResultMatrix)
    requires
        matrix.col_count >= 0,
    ensures
        matrix.drawn_width() >= 2,
{
    lemma_column_x_grows(1, matrix.widths(), 0, matrix.col_count);
}

pub(crate) proof fn lemma_largest_lengths_bound(
    cells: Seq<ScalarResult>,
    precision: Precision,
    least: ResultLengths,
    i: int,
)
    requires
        0 <= i < cells.len(),
    ensures
        ({
            let lengths = cell_text(cells[i], precision).lengths;
            let longest = largest_lengths(cells, precision, least);
            &&& lengths.int_part_len <= longest.int_part_len
            &&& lengths.frac_part_len <= longest.frac_part_len
            &&& lengths.unit_part_len <= longest.unit_part_len
        }),
    decreases cells.len(),
{
    if i < cells.len() - 1 {
        lemma_largest_lengths_bound(cells.drop_last(), precision, least, i);
    }
}

fn max_lengths_of_cells(
    cells: &Vec<ScalarResult>,
    precision: Precision,
    least: ResultLengths,
) -> (r: ResultLengths)
    ensures
        r == largest_lengths(cells@, precision, least),
{
    let mut max_lengths = least;
    let mut i: usize = 0;
    while i < cells.len()
        invariant
            i <= cells@.len(),
            max_lengths == largest_lengths(cells@.take(i as int), precision, least),
        decreases cells@.len() - i,
    {
        let lengths = cells[i].text(ResultFormat::Dec, precision).lengths;
        max_lengths.set_max(&lengths);
        assert(cells@.take(i as int + 1).drop_last() =~= cells@.take(i as int));
        i += 1;
    }
    assert(cells@.take(i as int) =~= cells@);
    max_lengths
}

fn render_result_cell(
    render_buckets: &mut RenderBuckets,
    cell: &ResultText,
    max_lengths: ResultLengths,
    x: usize,
    y: RenderPosY,
)
    requires
        cell.wf(),
        cell.lengths.int_part_len <= max_lengths.int_part_len,
        cell.lengths.frac_part_len <= max_lengths.frac_part_len,
        cell.lengths.unit_part_len <= max_lengths.unit_part_len,
        x + max_lengths.int_part_len + max_lengths.frac_part_len + max_lengths.unit_part_len
            <= usize::MAX,
    ensures
        final(render_buckets)@ == result_cell_drawn(
            old(render_buckets)@,
            *cell,
            max_lengths,
            x as int,
            y.0 as int,
        ),
{
    let lengths = cell.lengths;
    let text = cell.text.as_str();
    let offset_x: usize = max_lengths.int_part_len - lengths.int_part_len;
    render_buckets.draw_string(
        Layer::Text,
        x + offset_x,
        y,
        text.substring_ascii(0, lengths.int_part_len).to_owned(),
    );
    let mut frac_offset_x: usize = 0;
    if lengths.frac_part_len > 0 {
        render_buckets.draw_string(
            Layer::Text,
            x + offset_x + lengths.int_part_len,
            y,
            text.substring_ascii(
                lengths.int_part_len,
                lengths.int_part_len + lengths.frac_part_len,
            ).to_owned(),
        );
    } else if max_lengths.frac_part_len > 0 {
        render_buckets.draw_char(Layer::Text, x + offset_x + lengths.int_part_len, y, '.');
        frac_offset_x = 1;
    }
    let ghost base = render_buckets@;
    let zeros_x: usize = x + offset_x + lengths.int_part_len + lengths.frac_part_len
        + frac_offset_x;
    let zero_count: usize = max_lengths.frac_part_len - lengths.frac_part_len - frac_offset_x;
    let mut i: usize = 0;
    while i < zero_count
        invariant
            i <= zero_count,
            zeros_x + zero_count <= usize::MAX,
            render_buckets@ == base.draw_chars(
                Layer::Text,
                zeros_x as int,
                y.0 as int,
                zeros(i as int),
            ),
        decreases zero_count - i,
    {
        render_buckets.draw_char(Layer::Text, zeros_x + i, y, '0');
        assert(zeros(i + 1).drop_last() =~= zeros(i as int));
        i += 1;
    }
    if lengths.unit_part_len > 0 {
        let text_len: usize = text.unicode_len();
        render_buckets.draw_string(
            Layer::Text,
            x + offset_x + lengths.int_part_len + max_lengths.frac_part_len + 1,
            y,
            text.substring_ascii(
                lengths.int_part_len + lengths.frac_part_len + 1,
                text_len,
            ).to_owned(),
        );
    }
}

impl NoteCalcApp {
    /// Draws a matrix that is the value of a line, and tells how wide the
    /// drawing is.
    pub fn render_matrix_result<'text_ptr>(
        render_x: usize,
        render_y: RenderPosY,
        mat: &MatrixData,
        render_buckets: &mut RenderBuckets<'text_ptr>,
        prev_mat_result_lengths: Option<&ResultLengths>,
        rendered_row_height: usize,
        decimal_count: Precision,
    ) -> (r: usize)
        requires
            mat.wf(),
            mat.row_count <= rendered_row_height,
            render_y.0 + rendered_row_height <= usize::MAX,
            render_x + result_matrix(
                *mat,
                decimal_count,
                deref_lengths(prev_mat_result_lengths),
            ).drawn_width() <= usize::MAX,
        ensures
            final(render_buckets)@ == result_matrix(
                *mat,
                decimal_count,
                deref_lengths(prev_mat_result_lengths),
            ).draw(
                old(render_buckets)@,
                render_x as int,
                render_y.0 as int,
                rendered_row_height as int,
            ),
            r == result_matrix(
                *mat,
                decimal_count,
                deref_lengths(prev_mat_result_lengths),
            ).drawn_width(),
    {
        let vert_align_offset = (rendered_row_height - mat.row_count) / 2;
        let top = render_y.add(vert_align_offset);
        let least = match prev_mat_result_lengths {
            Some(lengths) => *lengths,
            None => ResultLengths { int_part_len: 0, frac_part_len: 0, unit_part_len: 0 },
        };
        let max_lengths = max_lengths_of_cells(&mat.cells, decimal_count, least);
        let ghost matrix = result_matrix(
            *mat,
            decimal_count,
            deref_lengths(prev_mat_result_lengths),
        );
        let ghost widths = matrix.widths();
        let ghost start = render_x + 1;
        let ghost cols = mat.col_count as int;
        proof {
            lemma_column_x_shifts(1, render_x as int, widths, cols);
            lemma_column_x_grows(start, widths, 0, cols);
            lemma_column_x_grows(start, widths, 1, cols);
        }
        draw_matrix_bracket(render_buckets, true, mat.row_count, top, render_x);
        render_buckets.set_color(Layer::Text, 0x000000_FF);
        let ghost opened = render_buckets@;
        let mut x: usize = render_x + 1;
        let mut col_i: usize = 0;
        while col_i < mat.col_count
            invariant
                mat.wf(),
                matrix == result_matrix(
                    *mat,
                    decimal_count,
                    deref_lengths(prev_mat_result_lengths),
                ),
                widths == matrix.widths(),
                not_negative(widths),
                max_lengths == matrix.longest,
                start == render_x + 1,
                cols == mat.col_count,
                col_i <= cols,
                top.0 + mat.row_count <= usize::MAX,
                column_x(start, widths, cols) <= usize::MAX,
                x == column_x(start, widths, col_i as int),
                render_buckets@ == matrix.draw_columns(
                    opened,
                    start,
                    top.0 as int,
                    col_i as int,
                ),
            decreases mat.col_count - col_i,
        {
            proof {
                lemma_column_x_grows(start, widths, col_i + 1, cols);
            }
            let ghost before = render_buckets@;
            let mut row_i: usize = 0;
            while row_i < mat.row_count
                invariant
                    mat.wf(),
                    matrix == result_matrix(
                        *mat,
                        decimal_count,
                        deref_lengths(prev_mat_result_lengths),
                    ),
                    max_lengths == matrix.longest,
                    col_i < mat.col_count,
                    row_i <= mat.row_count,
                    top.0 + mat.row_count <= usize::MAX,
                    x + matrix.cell_width() <= usize::MAX,
                    render_buckets@ == matrix.draw_column(
                        before,
                        x as int,
                        top.0 as int,
                        col_i as int,
                        row_i as int,
                    ),
                decreases mat.row_count - row_i,
            {
                proof {
                    lemma_cell_index_in_range(
                        row_i as int,
                        col_i as int,
                        mat.row_count as int,
                        mat.col_count as int,
                    );
                    assert(mat.cells.len() == mat.cells@.len());
                    lemma_largest_lengths_bound(
                        mat.cells@,
                        decimal_count,
                        match deref_lengths(prev_mat_result_lengths) {
                            Some(lengths) => lengths,
                            None => ResultLengths::zero(),
                        },
                        row_i * mat.col_count + col_i,
                    );
                }
                let cell = mat.cells[row_i * mat.col_count + col_i].text(
                    ResultFormat::Dec,
                    decimal_count,
                );
                render_result_cell(render_buckets, cell, max_lengths, x, top.add(row_i));
                row_i += 1;
            }
            col_i += 1;
            x = x + (max_lengths.int_part_len + max_lengths.frac_part_len
                + max_lengths.unit_part_len) + if col_i < mat.col_count {
                2
            } else {
                0
            };
        }
        draw_matrix_bracket(render_buckets, false, mat.row_count, top, x);
        x + 1 - render_x
    }

    /// The largest parts among the texts of a matrix's cells.
    pub fn calc_matrix_max_lengths(mat: &MatrixData) -> (r: ResultLengths)
        ensures
            r == largest_lengths(mat.cells@, Precision::Four, ResultLengths::zero()),
    {
        max_lengths_of_cells(
            &mat.cells,
            Precision::Four,
            ResultLengths { int_part_len: 0, frac_part_len: 0, unit_part_len: 0 },
        )
    }

    /// The largest parts among the matrices that the results start with, if they
    /// start with one: matrices in consecutive lines are aligned.
    pub fn calc_consecutive_matrices_max_lengths(results: &[LineResult]) -> (r: Option<
        ResultLengths,
    >)
        ensures
            r == leading_matrices_lengths(results@, 0, None),
    {
        let mut max_lengths: Option<ResultLengths> = None;
        let mut i: usize = 0;
        while i < results.len()
            invariant
                i <= results@.len(),
                leading_matrices_lengths(results@, 0, None) == leading_matrices_lengths(
                    results@,
                    i as int,
                    max_lengths,
                ),
            decreases results@.len() - i,
        {
            match &results[i] {
                Ok(Some(CalcResult::Matrix(mat))) => {
                    let lengths = NoteCalcApp::calc_matrix_max_lengths(mat);
                    max_lengths = match max_lengths {
                        Some(longest) => {
                            let mut longest = longest;
                            longest.set_max(&lengths);
                            Some(longest)
                        },
                        None => Some(lengths),
                    };
                },
                _ => {
                    return max_lengths;
                },
            }
            i += 1;
        }
        max_lengths
    }
}

pub open spec fn deref_lengths(lengths: Option<&ResultLengths>) -> Option<ResultLengths> {
    match lengths {
        Some(l) => Some(*l),
        None => None,
    }
}

/// The largest parts among `so_far` and the matrices from line `at` on, up to
/// the first line that has none.
pub open spec fn leading_matrices_lengths(
    results: Seq<LineResult>,
    at: int,
    so_far: Option<ResultLengths>,
) -> Option<ResultLengths>
    decreases results.len() - at,
{
    if at < 0 || at >= results.len() {
        so_far
    } else {
        match results[at] {
            Ok(Some(CalcResult::Matrix(mat))) => {
                let lengths = largest_lengths(mat.cells@, Precision::Four, ResultLengths::zero());
                leading_matrices_lengths(
                    results,
                    at + 1,
                    Some(
                        match so_far {
                            Some(longest) => longest.max(lengths),
                            None => lengths,
                        },
                    ),
                )
            },
            _ => so_far,
        }
    }
}

} // verus!
