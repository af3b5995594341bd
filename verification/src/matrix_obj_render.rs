use vstd::prelude::*;
use vstd::slice::slice_subrange;

use crate::app::NoteCalcApp;
use crate::buckets::{Frame, RenderBuckets};
use crate::coords::RenderPosY;
use crate::matrix_edit_render::{matrix_area, MatrixArea};
use crate::matrix_editing::{ascii_whitespace, is_ascii_whitespace, lemma_cell_index_in_range};
use crate::matrix_layout::{
    bracket, clip_len, column_x, draw_matrix_bracket, largest, lemma_column_x_grows,
    lemma_largest_is_not_negative, lemma_largest_is_upper_bound, lemma_shown_columns_range,
    not_negative, seen_len, shown_columns,
};
use crate::tokens::{OperatorTokenType, Token, TokenType};

verus! {

/// A token drawn at column `x`: its kind decides how, and what reaches past
/// `limit` is not seen.
pub open spec fn token_drawn(
    frame: Frame,
    token: Token,
    x: int,
    y: int,
    limit: int,
    left: int,
) -> Frame {
    let text = token.ptr@.subrange(0, seen_len(token.ptr@.len() as int, x, limit));
    match token.typ {
        TokenType::StringLiteral => frame.utf8_text(text, y, x + left),
        TokenType::Variable { .. } => frame.variable_name(text, y, x + left),
        TokenType::LineReference { .. } => frame.variable_name(text, y, x + left),
        TokenType::NumberLiteral => frame.number(text, y, x + left),
        TokenType::Unit => frame.unit(text, y, x + left),
        TokenType::Operator(_) => frame.operator(text, y, x + left),
    }
}

/// How many characters the tokens have together.
pub open spec fn tokens_width(tokens: Seq<Token>) -> int
    decreases tokens.len(),
{
    if tokens.len() == 0 {
        0
    } else {
        tokens_width(tokens.drop_last()) + tokens.last().ptr@.len()
    }
}

/// Tokens drawn one after the other, from column `x` on.
pub open spec fn tokens_drawn(
    frame: Frame,
    tokens: Seq<Token>,
    x: int,
    y: int,
    limit: int,
    left: int,
) -> Frame
    decreases tokens.len(),
{
    if tokens.len() == 0 {
        frame
    } else {
        let before = tokens.drop_last();
        token_drawn(
            tokens_drawn(frame, before, x, y, limit, left),
            tokens.last(),
            x + tokens_width(before),
            y,
            limit,
            left,
        )
    }
}

pub open spec fn opens_matrix(typ: TokenType, row_count: usize, col_count: usize) -> bool {
    ||| typ == TokenType::Operator(OperatorTokenType::Matrix { row_count, col_count })
    ||| typ == TokenType::Operator(OperatorTokenType::BracketOpen)
}

pub open spec fn closes_matrix(typ: TokenType) -> bool {
    typ == TokenType::Operator(OperatorTokenType::BracketClose)
}

pub open spec fn separates_cells(typ: TokenType) -> bool {
    ||| typ == TokenType::Operator(OperatorTokenType::Comma)
    ||| typ == TokenType::Operator(OperatorTokenType::Semicolon)
}

/// The cells of a matrix, each as the tokens from its first to before its
/// second number. Read from token `at` on, where the cell at hand starts with
/// token `start`, and blanks are left out as long as `blank` holds.
pub open spec fn cell_ranges(
    tokens: Seq<Token>,
    row_count: usize,
    col_count: usize,
    at: int,
    start: int,
    blank: bool,
) -> Seq<(int, int)>
    decreases tokens.len() - at,
{
    if at < 0 || at >= tokens.len() {
        Seq::empty()
    } else {
        let token = tokens[at];
        if closes_matrix(token.typ) {
            seq![(start, at)]
        } else if opens_matrix(token.typ, row_count, col_count) {
            cell_ranges(tokens, row_count, col_count, at + 1, at + 1, blank)
        } else if blank && ascii_whitespace(token.ptr@[0]) {
            cell_ranges(tokens, row_count, col_count, at + 1, at + 1, blank)
        } else if separates_cells(token.typ) {
            seq![(start, at)] + cell_ranges(tokens, row_count, col_count, at + 1, at + 1, true)
        } else {
            cell_ranges(tokens, row_count, col_count, at + 1, start, false)
        }
    }
}

/// A matrix as it stands in the text: its tokens, from the opening bracket on,
/// and its size.
pub struct MatrixTokens<'a> {
    pub tokens: Seq<Token<'a>>,
    pub row_count: usize,
    pub col_count: usize,
}

impl<'a> MatrixTokens<'a> {
    pub open spec fn ranges(self) -> Seq<(int, int)> {
        cell_ranges(self.tokens, self.row_count, self.col_count, 0, 0, true)
    }

    /// There is a text for every cell, and no token is empty.
    pub open spec fn wf(self) -> bool {
        &&& self.row_count >= 1
        &&& self.ranges().len() >= self.row_count * self.col_count
        &&& forall|i: int| 0 <= i < self.tokens.len() ==> (#[trigger] self.tokens[i]).ptr@.len() > 0
    }

    pub open spec fn cell(self, row: int, col: int) -> Seq<Token<'a>> {
        let range = self.ranges()[row * self.col_count + col];
        self.tokens.subrange(range.0, range.1)
    }

    pub open spec fn cell_len(self, row: int, col: int) -> int {
        tokens_width(self.cell(row, col))
    }

    pub open spec fn lens_in_column(self, col: int) -> spec_fn(int) -> int {
        |row: int| self.cell_len(row, col)
    }

    pub open spec fn widths(self) -> Seq<int> {
        Seq::new(
            self.col_count as nat,
            |col: int| largest(self.lens_in_column(col), self.row_count as int),
        )
    }

    /// A cell, aligned to the right of its column.
    pub open spec fn draw_cell(
        self,
        frame: Frame,
        area: MatrixArea,
        x: int,
        row: int,
        col: int,
    ) -> Frame {
        tokens_drawn(
            frame,
            self.cell(row, col),
            x + self.widths()[col] - self.cell_len(row, col),
            area.top + row,
            area.limit as int,
            area.left as int,
        )
    }

    /// The first `n` cells of a column.
    pub open spec fn draw_column(
        self,
        frame: Frame,
        area: MatrixArea,
        x: int,
        col: int,
        n: int,
    ) -> Frame
        decreases n,
    {
        if n <= 0 {
            frame
        } else {
            self.draw_cell(self.draw_column(frame, area, x, col, n - 1), area, x, n - 1, col)
        }
    }

    /// The first `n` columns.
    pub open spec fn draw_columns(self, frame: Frame, area: MatrixArea, start: int, n: int) -> Frame
        decreases n,
    {
        if n <= 0 {
            frame
        } else {
            self.draw_column(
                self.draw_columns(frame, area, start, n - 1),
                area,
                column_x(start, self.widths(), n - 1),
                n - 1,
                self.row_count as int,
            )
        }
    }

    pub open spec fn shown(self, x: int, limit: int) -> int {
        shown_columns(x + 1, self.widths(), limit, 0)
    }

    /// The matrix drawn at column `x`. Where not all columns are seen, there is
    /// no closing bracket.
    pub open spec fn draw(self, frame: Frame, area: MatrixArea, x: int) -> Frame {
        let opened = frame.with_operators(
            bracket(true, self.row_count as int, area.top as int, x + area.left),
        );
        let n = self.shown(x, area.limit as int);
        let with_cells = self.draw_columns(opened, area, x + 1, n);
        if n < self.col_count {
            with_cells
        } else {
            with_cells.with_operators(
                bracket(
                    false,
                    self.row_count as int,
                    area.top as int,
                    column_x(x + 1, self.widths(), n) + area.left,
                ),
            )
        }
    }

    /// The column after the drawing.
    pub open spec fn end_x(self, x: int, limit: int) -> int {
        let n = self.shown(x, limit);
        column_x(x + 1, self.widths(), n) + (if n < self.col_count {
            0int
        } else {
            1
        })
    }
}

proof fn lemma_tokens_width_not_negative(tokens: Seq<Token>)
    ensures
        tokens_width(tokens) >= 0,
    decreases tokens.len(),
{
    if tokens.len() > 0 {
        lemma_tokens_width_not_negative(tokens.drop_last());
    }
}

pub proof fn lemma_tokens_width_grows(tokens: Seq<Token>, n: int)
    requires
        0 <= n <= tokens.len(),
    ensures
        0 <= tokens_width(tokens.take(n)) <= tokens_width(tokens),
    decreases tokens.len(),
{
    lemma_tokens_width_not_negative(tokens.take(n));
    if n < tokens.len() {
        lemma_tokens_width_grows(tokens.drop_last(), n);
        assert(tokens.drop_last().take(n) =~= tokens.take(n));
    } else {
        assert(tokens.take(n) =~= tokens);
    }
}

spec fn within(ranges: Seq<(int, int)>, n: int) -> bool {
    forall|i: int| 0 <= i < ranges.len() ==> 0 <= (#[trigger] ranges[i]).0 <= ranges[i].1 <= n
}

proof fn lemma_cell_ranges_within(
    tokens: Seq<Token>,
    row_count: usize,
    col_count: usize,
    at: int,
    start: int,
    blank: bool,
)
    requires
        0 <= start <= at <= tokens.len(),
    ensures
        within(cell_ranges(tokens, row_count, col_count, at, start, blank), tokens.len() as int),
    decreases tokens.len() - at,
{
    if at < tokens.len() {
        let token = tokens[at];
        if closes_matrix(token.typ) {
            // nothing follows
        } else if opens_matrix(token.typ, row_count, col_count) || (blank && ascii_whitespace(
            token.ptr@[0],
        )) {
            lemma_cell_ranges_within(tokens, row_count, col_count, at + 1, at + 1, blank);
        } else if separates_cells(token.typ) {
            lemma_cell_ranges_within(tokens, row_count, col_count, at + 1, at + 1, true);
        } else {
            lemma_cell_ranges_within(tokens, row_count, col_count, at + 1, start, false);
        }
    }
}

/// The cells of a matrix as slices of its tokens.
fn split_matrix_cells<'t, 'a>(
    tokens: &'t [Token<'a>],
    row_count: usize,
    col_count: usize,
) -> (r: Vec<&'t [Token<'a>]>)
    requires
        (MatrixTokens { tokens: tokens@, row_count, col_count }).wf(),
    ensures
        ({
            let matrix = MatrixTokens { tokens: tokens@, row_count, col_count };
            &&& r@.len() == matrix.ranges().len()
            &&& forall|i: int|
                0 <= i < r@.len() ==> (#[trigger] r@[i])@ == tokens@.subrange(
                    matrix.ranges()[i].0,
                    matrix.ranges()[i].1,
                )
        }),
{
    let ghost matrix = MatrixTokens { tokens: tokens@, row_count, col_count };
    let ghost ranges = matrix.ranges();
    proof {
        lemma_cell_ranges_within(tokens@, row_count, col_count, 0, 0, true);
    }
    let mut cells: Vec<&'t [Token<'a>]> = Vec::new();
    let mut start_token_index: usize = 0;
    let mut token_index: usize = 0;
    let mut can_ignore_ws = true;
    while token_index < tokens.len()
        invariant_except_break
            ranges.len() >= cells@.len(),
            ranges.skip(cells@.len() as int) == cell_ranges(
                tokens@,
                row_count,
                col_count,
                token_index as int,
                start_token_index as int,
                can_ignore_ws,
            ),
        invariant
            matrix.wf(),
            matrix.tokens == tokens@,
            ranges == matrix.ranges(),
            start_token_index <= token_index <= tokens@.len(),
            within(ranges, tokens@.len() as int),
            forall|i: int|
                0 <= i < cells@.len() && i < ranges.len() ==> (#[trigger] cells@[i])@
                    == tokens@.subrange(ranges[i].0, ranges[i].1),
        ensures
            cells@.len() == ranges.len(),
        decreases tokens@.len() - token_index,
    {
        let token = &tokens[token_index];
        let ghost rest = ranges.skip(cells@.len() as int);
        if token.typ == TokenType::Operator(OperatorTokenType::BracketClose) {
            assert(rest =~= seq![(start_token_index as int, token_index as int)]);
            assert(rest[0] == ranges[cells@.len() as int]);
            cells.push(slice_subrange(tokens, start_token_index, token_index));
            break ;
        } else if token.typ == TokenType::Operator(
            OperatorTokenType::Matrix { row_count, col_count },
        ) || token.typ == TokenType::Operator(OperatorTokenType::BracketOpen) {
            start_token_index = token_index + 1;
        } else if can_ignore_ws && is_ascii_whitespace(token.ptr[0]) {
            start_token_index = token_index + 1;
        } else if token.typ == TokenType::Operator(OperatorTokenType::Comma) || token.typ
            == TokenType::Operator(OperatorTokenType::Semicolon) {
            proof {
                let next = cell_ranges(
                    tokens@,
                    row_count,
                    col_count,
                    token_index + 1,
                    token_index + 1,
                    true,
                );
                assert(rest == seq![(start_token_index as int, token_index as int)] + next);
                assert(rest[0] == ranges[cells@.len() as int]);
                assert(ranges.skip(cells@.len() as int + 1) =~= rest.skip(1));
            }
            cells.push(slice_subrange(tokens, start_token_index, token_index));
            start_token_index = token_index + 1;
            can_ignore_ws = true;
        } else {
            can_ignore_ws = false;
        }
        token_index += 1;
    }
    cells
}

/// How many characters the tokens have together.
fn sum_of_lengths(tokens: &[Token]) -> (r: usize)
    requires
        tokens_width(tokens@) <= usize::MAX,
    ensures
        r == tokens_width(tokens@),
{
    let mut len: usize = 0;
    let mut i: usize = 0;
    while i < tokens.len()
        invariant
            i <= tokens@.len(),
            tokens_width(tokens@) <= usize::MAX,
            len == tokens_width(tokens@.take(i as int)),
        decreases tokens@.len() - i,
    {
        proof {
            lemma_tokens_width_grows(tokens@, i + 1);
            assert(tokens@.take(i + 1).drop_last() =~= tokens@.take(i as int));
        }
        len += tokens[i].ptr.len();
        i += 1;
    }
    assert(tokens@.take(i as int) =~= tokens@);
    len
}

fn render_matrix_column<'text_ptr>(
    cells: &Vec<&[Token<'text_ptr>]>,
    render_buckets: &mut RenderBuckets<'text_ptr>,
    area: MatrixArea,
    x: usize,
    max_width: usize,
    col_i: usize,
    row_count: usize,
    col_count: usize,
    Ghost(matrix): Ghost<MatrixTokens<'text_ptr>>,
)
    requires
        matrix.wf(),
        matrix.row_count == row_count,
        matrix.col_count == col_count,
        cells@.len() == matrix.ranges().len(),
        forall|i: int|
            0 <= i < cells@.len() ==> (#[trigger] cells@[i])@ == matrix.tokens.subrange(
                matrix.ranges()[i].0,
                matrix.ranges()[i].1,
            ),
        col_i < col_count,
        max_width == matrix.widths()[col_i as int],
        x + max_width + area.left <= usize::MAX,
        area.top + row_count <= usize::MAX,
    ensures
        final(render_buckets)@ == matrix.draw_column(
            old(render_buckets)@,
            area,
            x as int,
            col_i as int,
            row_count as int,
        ),
{
    let ghost before = render_buckets@;
    let mut row_i: usize = 0;
    while row_i < row_count
        invariant
            matrix.wf(),
            matrix.row_count == row_count,
            matrix.col_count == col_count,
            cells@.len() == matrix.ranges().len(),
            forall|i: int|
                0 <= i < cells@.len() ==> (#[trigger] cells@[i])@ == matrix.tokens.subrange(
                    matrix.ranges()[i].0,
                    matrix.ranges()[i].1,
                ),
            col_i < col_count,
            row_i <= row_count,
            max_width == matrix.widths()[col_i as int],
            x + max_width + area.left <= usize::MAX,
            area.top + row_count <= usize::MAX,
            render_buckets@ == matrix.draw_column(
                before,
                area,
                x as int,
                col_i as int,
                row_i as int,
            ),
        decreases row_count - row_i,
    {
        proof {
            lemma_cell_index_in_range(
                row_i as int,
                col_i as int,
                row_count as int,
                col_count as int,
            );
            assert(cells.len() == cells@.len());
            lemma_largest_is_upper_bound(
                matrix.lens_in_column(col_i as int),
                row_count as int,
                row_i as int,
            );
        }
        let tokens = cells[row_i * col_count + col_i];
        let ghost cell = matrix.cell(row_i as int, col_i as int);
        let len = sum_of_lengths(tokens);
        let offset_x: usize = max_width - len;
        let ghost before_cell = render_buckets@;
        let mut local_x: usize = 0;
        let mut i: usize = 0;
        while i < tokens.len()
            invariant
                i <= tokens@.len(),
                tokens@ == cell,
                len == tokens_width(cell),
                len + offset_x == max_width,
                x + max_width + area.left <= usize::MAX,
                area.top + row_i <= usize::MAX,
                local_x == tokens_width(cell.take(i as int)),
                render_buckets@ == tokens_drawn(
                    before_cell,
                    cell.take(i as int),
                    x + offset_x,
                    area.top + row_i,
                    area.limit as int,
                    area.left as int,
                ),
            decreases tokens@.len() - i,
        {
            proof {
                lemma_tokens_width_grows(cell, i as int);
                lemma_tokens_width_grows(cell, i + 1);
                assert(cell.take(i + 1).drop_last() =~= cell.take(i as int));
            }
            NoteCalcApp::draw_token(
                &tokens[i],
                x + offset_x + local_x,
                RenderPosY::new(area.top + row_i),
                area.limit,
                area.left,
                render_buckets,
            );
            local_x += tokens[i].ptr.len();
            i += 1;
        }
        assert(cell.take(i as int) =~= cell);
        row_i += 1;
    }
}

fn matrix_column_width<'text_ptr>(
    cells: &Vec<&[Token<'text_ptr>]>,
    col_i: usize,
    row_count: usize,
    col_count: usize,
    Ghost(matrix): Ghost<MatrixTokens<'text_ptr>>,
) -> (r: usize)
    requires
        matrix.wf(),
        matrix.row_count == row_count,
        matrix.col_count == col_count,
        cells@.len() == matrix.ranges().len(),
        forall|i: int|
            0 <= i < cells@.len() ==> (#[trigger] cells@[i])@ == matrix.tokens.subrange(
                matrix.ranges()[i].0,
                matrix.ranges()[i].1,
            ),
        col_i < col_count,
        matrix.widths()[col_i as int] <= usize::MAX,
    ensures
        r == matrix.widths()[col_i as int],
{
    let ghost lens = matrix.lens_in_column(col_i as int);
    let mut max_width: usize = 0;
    let mut row_i: usize = 0;
    while row_i < row_count
        invariant
            matrix.wf(),
            matrix.row_count == row_count,
            matrix.col_count == col_count,
            cells@.len() == matrix.ranges().len(),
            forall|i: int|
                0 <= i < cells@.len() ==> (#[trigger] cells@[i])@ == matrix.tokens.subrange(
                    matrix.ranges()[i].0,
                    matrix.ranges()[i].1,
                ),
            col_i < col_count,
            row_i <= row_count,
            lens == matrix.lens_in_column(col_i as int),
            largest(lens, row_count as int) <= usize::MAX,
            max_width == largest(lens, row_i as int),
        decreases row_count - row_i,
    {
        proof {
            lemma_cell_index_in_range(
                row_i as int,
                col_i as int,
                row_count as int,
                col_count as int,
            );
            assert(cells.len() == cells@.len());
            lemma_largest_is_upper_bound(lens, row_count as int, row_i as int);
        }
        let tokens = cells[row_i * col_count + col_i];
        let len = sum_of_lengths(tokens);
        if max_width < len {
            max_width = len;
        }
        row_i += 1;
    }
    max_width
}

impl NoteCalcApp {
    pub fn draw_token<'text_ptr>(
        token: &Token<'text_ptr>,
        render_x: usize,
        render_y: RenderPosY,
        current_editor_width: usize,
        left_gutter_width: usize,
        render_buckets: &mut RenderBuckets<'text_ptr>,
    )
        requires
            render_x + left_gutter_width <= usize::MAX,
        ensures
            final(render_buckets)@ == token_drawn(
                old(render_buckets)@,
                *token,
                render_x as int,
                render_y.0 as int,
                current_editor_width as int,
                left_gutter_width as int,
            ),
    {
        let text_len: usize = clip_len(token.ptr.len(), render_x, current_editor_width);
        let text: &'text_ptr [char] = slice_subrange(token.ptr, 0, text_len);
        let column: usize = render_x + left_gutter_width;
        match token.typ {
            TokenType::StringLiteral => render_buckets.push_utf8_text(text, render_y, column),
            TokenType::Variable { .. } => render_buckets.push_variable(text, render_y, column),
            TokenType::LineReference { .. } => render_buckets.push_variable(
                text,
                render_y,
                column,
            ),
            TokenType::NumberLiteral => render_buckets.push_number(text, render_y, column),
            TokenType::Unit => render_buckets.push_unit(text, render_y, column),
            TokenType::Operator(_) => render_buckets.push_operator(text, render_y, column),
        }
    }

    /// Draws a matrix of the text, and tells in which column the drawing ends.
    /// The tokens start with the matrix's opening bracket.
    pub fn render_matrix_obj<'text_ptr>(
        render_x: usize,
        render_y: RenderPosY,
        current_editor_width: usize,
        left_gutter_width: usize,
        row_count: usize,
        col_count: usize,
        tokens: &[Token<'text_ptr>],
        render_buckets: &mut RenderBuckets<'text_ptr>,
        rendered_row_height: usize,
    ) -> (r: usize)
        requires
            (MatrixTokens { tokens: tokens@, row_count, col_count }).wf(),
            row_count <= rendered_row_height,
            render_y.0 + rendered_row_height <= usize::MAX,
            (MatrixTokens { tokens: tokens@, row_count, col_count }).end_x(
                render_x as int,
                current_editor_width as int,
            ) + left_gutter_width <= usize::MAX,
        ensures
            final(render_buckets)@ == (MatrixTokens { tokens: tokens@, row_count, col_count }).draw(
                old(render_buckets)@,
                matrix_area(
                    render_y,
                    rendered_row_height,
                    row_count,
                    left_gutter_width,
                    current_editor_width,
                ),
                render_x as int,
            ),
            r == (MatrixTokens { tokens: tokens@, row_count, col_count }).end_x(
                render_x as int,
                current_editor_width as int,
            ),
    {
        let vert_align_offset = (rendered_row_height - row_count) / 2;
        let area = MatrixArea {
            top: render_y.as_usize() + vert_align_offset,
            left: left_gutter_width,
            limit: current_editor_width,
        };
        let ghost matrix = MatrixTokens { tokens: tokens@, row_count, col_count };
        let ghost start = render_x + 1;
        let ghost limit = current_editor_width as int;
        let ghost widths = matrix.widths();
        let ghost shown = matrix.shown(render_x as int, limit);
        proof {
            lemma_shown_columns_range(start, widths, limit, 0);
            assert forall|i: int| 0 <= i < widths.len() implies (#[trigger] widths[i]) >= 0 by {
                lemma_largest_is_not_negative(matrix.lens_in_column(i), row_count as int);
            }
            lemma_column_x_grows(start, widths, 0, shown);
        }
        let top = RenderPosY::new(area.top);
        draw_matrix_bracket(render_buckets, true, row_count, top, render_x + left_gutter_width);
        let ghost opened = render_buckets@;
        let cells = split_matrix_cells(tokens, row_count, col_count);
        let mut x: usize = render_x + 1;
        let mut col_i: usize = 0;
        while col_i < col_count && x < current_editor_width
            invariant
                matrix.wf(),
                matrix.row_count == row_count,
                matrix.col_count == col_count,
                cells@.len() == matrix.ranges().len(),
                forall|i: int|
                    0 <= i < cells@.len() ==> (#[trigger] cells@[i])@ == matrix.tokens.subrange(
                        matrix.ranges()[i].0,
                        matrix.ranges()[i].1,
                    ),
                col_i <= shown <= col_count,
                widths == matrix.widths(),
                not_negative(widths),
                start == render_x + 1,
                limit == current_editor_width,
                shown == shown_columns(start, widths, limit, col_i as int),
                area.left == left_gutter_width,
                area.limit == current_editor_width,
                area.top + row_count <= usize::MAX,
                column_x(start, widths, shown) + left_gutter_width <= usize::MAX,
                x == column_x(start, widths, col_i as int),
                render_buckets@ == matrix.draw_columns(opened, area, start, col_i as int),
            decreases col_count - col_i,
        {
            proof {
                lemma_shown_columns_range(start, widths, limit, col_i + 1);
                lemma_column_x_grows(start, widths, col_i + 1, shown);
            }
            let max_width = matrix_column_width(
                &cells,
                col_i,
                row_count,
                col_count,
                Ghost(matrix),
            );
            render_matrix_column(
                &cells,
                render_buckets,
                area,
                x,
                max_width,
                col_i,
                row_count,
                col_count,
                Ghost(matrix),
            );
            col_i += 1;
            x = x + max_width + if col_i < col_count {
                2
            } else {
                0
            };
        }
        if col_i < col_count {
            return x;
        }
        draw_matrix_bracket(render_buckets, false, row_count, top, x + left_gutter_width);
        x + 1
    }
}

} // verus!
