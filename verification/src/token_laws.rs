use vstd::prelude::*;

use crate::buckets::{Frame, TextCmd};
use crate::line_render::{
    closing_token, lemma_edited_end_after_start, lemma_matrix_end_after_start,
    lemma_width_up_to_closing_positive, width_up_to_closing, LineContext, LineState,
};
use crate::matrix_edit_render::MatrixArea;
use crate::matrix_layout::{
    bracket, column_x, largest, lemma_largest_is_upper_bound, lemma_shown_columns_range, seen_len,
    shown_columns,
};
use crate::matrix_obj_render::{
    cell_ranges, lemma_tokens_width_grows, token_drawn, tokens_drawn, tokens_width, MatrixTokens,
};
use crate::matrix_result_render::{lemma_drawn_width_positive, result_matrix};
use crate::objects::EditorObjectType;
use crate::results::{CalcResult, Variable};
use crate::tokens::{OperatorTokenType, Token, TokenType};
use crate::update_step_laws::is_blank;

verus! {

/// The kinds of text that a frame keeps apart.
pub enum TextKind {
    Plain,
    Name,
    Number,
    Unit,
    Operator,
}

pub open spec fn kind_of(typ: TokenType) -> TextKind {
    match typ {
        TokenType::StringLiteral => TextKind::Plain,
        TokenType::Variable { .. } => TextKind::Name,
        TokenType::LineReference { .. } => TextKind::Name,
        TokenType::NumberLiteral => TextKind::Number,
        TokenType::Unit => TextKind::Unit,
        TokenType::Operator(_) => TextKind::Operator,
    }
}

/// The texts of a kind.
pub open spec fn texts_of(frame: Frame, kind: TextKind) -> Seq<TextCmd> {
    match kind {
        TextKind::Plain => frame.utf8_texts,
        TextKind::Name => frame.variable,
        TextKind::Number => frame.numbers,
        TextKind::Unit => frame.units,
        TextKind::Operator => frame.operators,
    }
}

/// The first characters of a text: those that are left of `limit`, where the text
/// starts at column `x`.
pub open spec fn cut_text(text: Seq<char>, x: int, limit: int) -> Seq<char> {
    if limit <= x {
        Seq::empty()
    } else if text.len() <= limit - x {
        text
    } else {
        text.take(limit - x)
    }
}

/// The text stands in the frame, as one of its kind.
pub open spec fn stands_in(frame: Frame, kind: TextKind, text: TextCmd) -> bool {
    texts_of(frame, kind).contains(text)
}

/// Everything that stands in a frame stands in the other one, too.
pub open spec fn keeps_texts(before: Frame, after: Frame) -> bool {
    forall|kind: TextKind, text: TextCmd|
        stands_in(before, kind, text) ==> #[trigger] stands_in(after, kind, text)
}

/// A token is drawn as text of its kind: in its row, right of what is left of
/// the text, and as far as it is seen. No other text is drawn, and none is lost.
pub proof fn law_token_is_drawn_as_text_of_its_kind(
    frame: Frame,
    token: Token,
    x: int,
    y: int,
    limit: int,
    left: int,
)
    ensures
        ({
            let after = token_drawn(frame, token, x, y, limit, left);
            let text = TextCmd { text: cut_text(token.ptr@, x, limit), row: y, column: left + x };
            &&& texts_of(after, kind_of(token.typ)) == texts_of(frame, kind_of(token.typ)).push(text)
            &&& forall|kind: TextKind|
                kind != kind_of(token.typ) ==> #[trigger] texts_of(after, kind) == texts_of(
                    frame,
                    kind,
                )
            &&& stands_in(after, kind_of(token.typ), text)
            &&& keeps_texts(frame, after)
            &&& after.text == frame.text
            &&& after.above_text == frame.above_text
            &&& after.behind_text == frame.behind_text
        }),
{
    let after = token_drawn(frame, token, x, y, limit, left);
    let text = TextCmd { text: cut_text(token.ptr@, x, limit), row: y, column: left + x };
    let kind = kind_of(token.typ);
    let len = token.ptr@.len() as int;
    assert(cut_text(token.ptr@, x, limit) =~= token.ptr@.subrange(
        0,
        seen_len(len, x, limit),
    ));
    let had = texts_of(frame, kind);
    assert(texts_of(after, kind) == had.push(text));
    assert(texts_of(after, kind)[had.len() as int] == text);
    assert forall|other: TextKind, old_text: TextCmd| stands_in(
        frame,
        other,
        old_text,
    ) implies #[trigger] stands_in(after, other, old_text) by {
        if other == kind {
            let i = choose|i: int| 0 <= i < had.len() && had[i] == old_text;
            assert(texts_of(after, kind)[i] == old_text);
        }
    }
}

/// A token of a line that is drawn as plain text stands in the middle of its
/// line, right of what was drawn before it; the next one stands behind it.
pub proof fn law_plain_token_stands_behind_the_one_before(
    context: LineContext,
    state: LineState,
    tokens: Seq<Token>,
    at: int,
)
    requires
        0 <= at < tokens.len(),
        context.step_fits(state, tokens, at),
        !context.as_objects || (!(tokens[at].typ is LineReference) && !(
        tokens[at].typ matches TokenType::Operator(OperatorTokenType::Matrix { .. }))),
    ensures
        ({
            let after = context.step(state, tokens, at);
            let token = tokens[at];
            &&& stands_in(
                after.frame,
                kind_of(token.typ),
                TextCmd {
                    text: cut_text(token.ptr@, state.r.render_x as int, context.limit),
                    row: state.r.render_y.0 + state.r.vert_align_offset,
                    column: context.left + state.r.render_x,
                },
            )
            &&& keeps_texts(state.frame, after.frame)
            &&& after.r.render_x == state.r.render_x + token.ptr@.len()
            &&& after.r.editor_x == state.r.editor_x + token.ptr@.len()
            &&& after.r.cursor_render_x_offset == state.r.cursor_render_x_offset
            &&& after.objects.last().typ == EditorObjectType::SimpleTokens
            &&& context.next(tokens, at) == at + 1
        }),
{
    law_token_is_drawn_as_text_of_its_kind(
        state.frame,
        tokens[at],
        state.r.render_x as int,
        state.r.render_y.0 + state.r.vert_align_offset,
        context.limit,
        context.left,
    );
}

/// A reference to another line is drawn as the value of that line: a number with
/// two decimals, in decimal, as far as it is seen; `Err` where the line failed; a
/// matrix with its brackets. A cursor behind the reference is drawn as many
/// columns further right as the value is wider than the reference.
pub proof fn law_reference_is_drawn_as_the_value_it_refers_to(
    context: LineContext,
    state: LineState,
    tokens: Seq<Token>,
    at: int,
)
    requires
        0 <= at < tokens.len(),
        context.as_objects,
        tokens[at].typ is LineReference,
        context.step_fits(state, tokens, at),
    ensures
        ({
            let after = context.step(state, tokens, at);
            let var = context.vars[tokens[at].typ->LineReference_var_index as int];
            let x = context.left + state.r.render_x;
            let width = after.r.render_x - state.r.render_x;
            let cursor = match context.selection.end {
                Some(end) => end,
                None => context.selection.start,
            };
            &&& match var.value {
                Ok(CalcResult::Scalar(scalar)) => {
                    let text = cut_text(
                        scalar.two.dec.text@,
                        state.r.render_x as int,
                        context.limit,
                    );
                    &&& after.frame.line_ref_results == state.frame.line_ref_results.push(
                        TextCmd { text, row: state.r.render_y.0 as int, column: x },
                    )
                    &&& width == text.len()
                },
                Err(_) => {
                    &&& after.frame.line_ref_results == state.frame.line_ref_results.push(
                        TextCmd {
                            text: seq!['E', 'r', 'r'],
                            row: state.r.render_y.0 as int,
                            column: x,
                        },
                    )
                    &&& width == 3
                },
                Ok(CalcResult::Matrix(mat)) => {
                    let matrix = result_matrix(mat, context.precision, None);
                    &&& after.frame == matrix.draw(
                        state.frame,
                        x,
                        state.r.render_y.0 as int,
                        state.r.rendered_row_height as int,
                    )
                    &&& width == matrix.drawn_width()
                },
            }
            &&& after.r.editor_x == state.r.editor_x + var.name@.len()
            &&& after.r.cursor_render_x_offset - state.r.cursor_render_x_offset == (
            if cursor.column > state.r.editor_x {
                width - var.name@.len()
            } else {
                0
            })
            &&& after.objects.len() == state.objects.len() + 1
            &&& after.objects.last().typ == EditorObjectType::LineReference
        }),
{
    let var = context.vars[tokens[at].typ->LineReference_var_index as int];
    if let Ok(CalcResult::Matrix(mat)) = var.value {
        lemma_drawn_width_positive(
            result_matrix(mat, context.precision, None),
        );
    }
    if let Ok(CalcResult::Scalar(scalar)) = var.value {
        let text = scalar.two.dec.text@;
        let x = state.r.render_x as int;
        assert(cut_text(text, x, context.limit) =~= text.subrange(
            0,
            seen_len(text.len() as int, x, context.limit),
        ));
    }
}

proof fn lemma_tokens_stand(
    frame: Frame,
    tokens: Seq<Token>,
    x: int,
    y: int,
    limit: int,
    left: int,
)
    ensures
        ({
            let after = tokens_drawn(frame, tokens, x, y, limit, left);
            &&& keeps_texts(frame, after)
            &&& forall|j: int|
                0 <= j < tokens.len() ==> stands_in(
                    after,
                    kind_of((#[trigger] tokens[j]).typ),
                    TextCmd {
                        text: cut_text(tokens[j].ptr@, x + tokens_width(tokens.take(j)), limit),
                        row: y,
                        column: left + x + tokens_width(tokens.take(j)),
                    },
                )
        }),
    decreases tokens.len(),
{
    if tokens.len() > 0 {
        let before = tokens.drop_last();
        lemma_tokens_stand(frame, before, x, y, limit, left);
        let so_far = tokens_drawn(frame, before, x, y, limit, left);
        law_token_is_drawn_as_text_of_its_kind(
            so_far,
            tokens.last(),
            x + tokens_width(before),
            y,
            limit,
            left,
        );
        let after = tokens_drawn(frame, tokens, x, y, limit, left);
        assert forall|j: int| 0 <= j < tokens.len() implies stands_in(
            after,
            kind_of((#[trigger] tokens[j]).typ),
            TextCmd {
                text: cut_text(tokens[j].ptr@, x + tokens_width(tokens.take(j)), limit),
                row: y,
                column: left + x + tokens_width(tokens.take(j)),
            },
        ) by {
            if j < before.len() {
                assert(before[j] == tokens[j]);
                assert(before.take(j) =~= tokens.take(j));
                let text = TextCmd {
                    text: cut_text(tokens[j].ptr@, x + tokens_width(tokens.take(j)), limit),
                    row: y,
                    column: left + x + tokens_width(tokens.take(j)),
                };
                assert(stands_in(so_far, kind_of(tokens[j].typ), text));
                assert(stands_in(after, kind_of(tokens[j].typ), text));
            } else {
                assert(tokens.take(j) =~= before);
            }
        }
    }
}

/// The tokens of a cell stand in the frame, aligned to the right of a column that
/// starts at `x`.
pub open spec fn cell_stands(
    frame: Frame,
    cell: Seq<Token>,
    x: int,
    width: int,
    row: int,
    limit: int,
    left: int,
) -> bool {
    let start = x + width - tokens_width(cell);
    forall|j: int|
        0 <= j < cell.len() ==> stands_in(
            frame,
            kind_of((#[trigger] cell[j]).typ),
            TextCmd {
                text: cut_text(cell[j].ptr@, start + tokens_width(cell.take(j)), limit),
                row,
                column: left + start + tokens_width(cell.take(j)),
            },
        )
}

proof fn lemma_cell_keeps_standing(
    before: Frame,
    after: Frame,
    cell: Seq<Token>,
    x: int,
    width: int,
    row: int,
    limit: int,
    left: int,
)
    requires
        keeps_texts(before, after),
        cell_stands(before, cell, x, width, row, limit, left),
    ensures
        cell_stands(after, cell, x, width, row, limit, left),
{
    let start = x + width - tokens_width(cell);
    assert forall|j: int| 0 <= j < cell.len() implies stands_in(
        after,
        kind_of((#[trigger] cell[j]).typ),
        TextCmd {
            text: cut_text(cell[j].ptr@, start + tokens_width(cell.take(j)), limit),
            row,
            column: left + start + tokens_width(cell.take(j)),
        },
    ) by {
        let text = TextCmd {
            text: cut_text(cell[j].ptr@, start + tokens_width(cell.take(j)), limit),
            row,
            column: left + start + tokens_width(cell.take(j)),
        };
        assert(stands_in(before, kind_of(cell[j].typ), text));
    }
}

proof fn lemma_column_stands(
    matrix: MatrixTokens,
    frame: Frame,
    area: MatrixArea,
    x: int,
    col: int,
    n: int,
)
    ensures
        ({
            let after = matrix.draw_column(frame, area, x, col, n);
            &&& keeps_texts(frame, after)
            &&& forall|r: int|
                0 <= r < n ==> cell_stands(
                    after,
                    #[trigger] matrix.cell(r, col),
                    x,
                    matrix.widths()[col],
                    area.top + r,
                    area.limit as int,
                    area.left as int,
                )
        }),
    decreases n,
{
    if n > 0 {
        lemma_column_stands(matrix, frame, area, x, col, n - 1);
        let so_far = matrix.draw_column(frame, area, x, col, n - 1);
        let after = matrix.draw_column(frame, area, x, col, n);
        let cell = matrix.cell(n - 1, col);
        lemma_tokens_stand(
            so_far,
            cell,
            x + matrix.widths()[col] - matrix.cell_len(n - 1, col),
            area.top + n - 1,
            area.limit as int,
            area.left as int,
        );
        assert(keeps_texts(so_far, after));
        assert forall|kind: TextKind, text: TextCmd| stands_in(
            frame,
            kind,
            text,
        ) implies #[trigger] stands_in(after, kind, text) by {
            assert(stands_in(so_far, kind, text));
        }
        assert forall|r: int| 0 <= r < n implies cell_stands(
            after,
            #[trigger] matrix.cell(r, col),
            x,
            matrix.widths()[col],
            area.top + r,
            area.limit as int,
            area.left as int,
        ) by {
            if r < n - 1 {
                lemma_cell_keeps_standing(
                    so_far,
                    after,
                    matrix.cell(r, col),
                    x,
                    matrix.widths()[col],
                    area.top + r,
                    area.limit as int,
                    area.left as int,
                );
            }
        }
    }
}

proof fn lemma_columns_stand(
    matrix: MatrixTokens,
    frame: Frame,
    area: MatrixArea,
    start: int,
    n: int,
)
    ensures
        ({
            let after = matrix.draw_columns(frame, area, start, n);
            &&& keeps_texts(frame, after)
            &&& forall|r: int, c: int|
                0 <= r < matrix.row_count && 0 <= c < n ==> cell_stands(
                    after,
                    #[trigger] matrix.cell(r, c),
                    column_x(start, matrix.widths(), c),
                    matrix.widths()[c],
                    area.top + r,
                    area.limit as int,
                    area.left as int,
                )
        }),
    decreases n,
{
    if n > 0 {
        lemma_columns_stand(matrix, frame, area, start, n - 1);
        let so_far = matrix.draw_columns(frame, area, start, n - 1);
        let after = matrix.draw_columns(frame, area, start, n);
        let x = column_x(start, matrix.widths(), n - 1);
        lemma_column_stands(matrix, so_far, area, x, n - 1, matrix.row_count as int);
        assert forall|kind: TextKind, text: TextCmd| stands_in(
            frame,
            kind,
            text,
        ) implies #[trigger] stands_in(after, kind, text) by {
            assert(stands_in(so_far, kind, text));
        }
        assert forall|r: int, c: int|
            0 <= r < matrix.row_count && 0 <= c < n implies cell_stands(
            after,
            #[trigger] matrix.cell(r, c),
            column_x(start, matrix.widths(), c),
            matrix.widths()[c],
            area.top + r,
            area.limit as int,
            area.left as int,
        ) by {
            if c < n - 1 {
                lemma_cell_keeps_standing(
                    so_far,
                    after,
                    matrix.cell(r, c),
                    column_x(start, matrix.widths(), c),
                    matrix.widths()[c],
                    area.top + r,
                    area.limit as int,
                    area.left as int,
                );
            }
        }
    }
}

/// A column of a matrix starts two blanks behind the one before it; the first one
/// right behind the bracket.
pub proof fn law_columns_stand_two_blanks_apart(start: int, widths: Seq<int>, c: int)
    requires
        0 <= c < widths.len(),
    ensures
        column_x(start, widths, 0) == start,
        c > 0 ==> column_x(start, widths, c) == column_x(start, widths, c - 1) + widths[c - 1] + 2,
        column_x(start, widths, widths.len() as int) == column_x(
            start,
            widths,
            widths.len() - 1,
        ) + widths.last(),
{
}

/// A matrix in the text is drawn cell by cell: the tokens of the cell in row `r`
/// and column `c`, which is the cell number `r` times the number of columns, plus
/// `c`, stand `r` rows below the first ones, aligned to the right of their
/// column. Columns that start where nothing is seen any more are left out.
pub proof fn law_matrix_in_the_text_is_drawn_row_by_row(
    matrix: MatrixTokens,
    frame: Frame,
    area: MatrixArea,
    x: int,
    r: int,
    c: int,
)
    requires
        0 <= r < matrix.row_count,
        0 <= c < matrix.col_count,
        forall|i: int|
            0 <= i <= c ==> #[trigger] column_x(x + 1, matrix.widths(), i) < area.limit,
    ensures
        ({
            let range = matrix.ranges()[r * matrix.col_count + c];
            cell_stands(
                matrix.draw(frame, area, x),
                matrix.tokens.subrange(range.0, range.1),
                column_x(x + 1, matrix.widths(), c),
                matrix.widths()[c],
                area.top + r,
                area.limit as int,
                area.left as int,
            )
        }),
{
    let n = matrix.shown(x, area.limit as int);
    lemma_shown_past(x + 1, matrix.widths(), area.limit as int, 0, c);
    let opened = frame.with_operators(
        bracket(true, matrix.row_count as int, area.top as int, x + area.left),
    );
    lemma_columns_stand(matrix, opened, area, x + 1, n);
    let with_cells = matrix.draw_columns(opened, area, x + 1, n);
    let drawn = matrix.draw(frame, area, x);
    assert(keeps_texts(with_cells, drawn)) by {
        assert forall|kind: TextKind, text: TextCmd| stands_in(
            with_cells,
            kind,
            text,
        ) implies #[trigger] stands_in(drawn, kind, text) by {
            let had = texts_of(with_cells, kind);
            let i = choose|i: int| 0 <= i < had.len() && had[i] == text;
            assert(texts_of(drawn, kind)[i] == text);
        }
    }
    assert(matrix.cell(r, c) == matrix.tokens.subrange(
        matrix.ranges()[r * matrix.col_count + c].0,
        matrix.ranges()[r * matrix.col_count + c].1,
    ));
    lemma_cell_keeps_standing(
        with_cells,
        drawn,
        matrix.cell(r, c),
        column_x(x + 1, matrix.widths(), c),
        matrix.widths()[c],
        area.top + r,
        area.limit as int,
        area.left as int,
    );
}

pub(crate) proof fn lemma_shown_past(start: int, widths: Seq<int>, limit: int, from: int, c: int)
    requires
        0 <= from <= c < widths.len(),
        forall|i: int| 0 <= i <= c ==> #[trigger] column_x(start, widths, i) < limit,
    ensures
        shown_columns(start, widths, limit, from) > c,
    decreases widths.len() - from,
{
    assert(column_x(start, widths, from) < limit);
    if from < c {
        lemma_shown_past(start, widths, limit, from + 1, c);
    } else {
        lemma_shown_columns_range(start, widths, limit, c + 1);
    }
}

proof fn lemma_largest_is_attained(values: spec_fn(int) -> int, n: int)
    requires
        n >= 1,
        forall|i: int| 0 <= i < n ==> #[trigger] values(i) >= 0,
    ensures
        exists|i: int| 0 <= i < n && #[trigger] values(i) == largest(values, n),
    decreases n,
{
    if n > 1 {
        lemma_largest_is_attained(values, n - 1);
        let i = choose|i: int| 0 <= i < n - 1 && #[trigger] values(i) == largest(values, n - 1);
        assert(values(i) == largest(values, n - 1));
        assert(values(n - 1) >= 0);
    } else {
        assert(largest(values, 0) == 0);
        assert(values(0) == largest(values, n));
    }
}

/// A column of a matrix in the text is as wide as its widest cell.
pub proof fn law_column_is_as_wide_as_its_widest_cell(matrix: MatrixTokens, c: int)
    requires
        matrix.row_count >= 1,
        0 <= c < matrix.col_count,
    ensures
        forall|r: int|
            0 <= r < matrix.row_count ==> tokens_width(#[trigger] matrix.cell(r, c))
                <= matrix.widths()[c],
        exists|r: int|
            0 <= r < matrix.row_count && tokens_width(#[trigger] matrix.cell(r, c))
                == matrix.widths()[c],
{
    let lens = matrix.lens_in_column(c);
    let n = matrix.row_count as int;
    assert forall|r: int| 0 <= r < n implies tokens_width(#[trigger] matrix.cell(r, c))
        <= matrix.widths()[c] by {
        lemma_largest_is_upper_bound(lens, n, r);
    }
    assert forall|i: int| 0 <= i < n implies #[trigger] lens(i) >= 0 by {
        lemma_tokens_width_grows(matrix.cell(i, c), 0);
        assert(tokens_width(matrix.cell(i, c)) >= 0);
    }
    lemma_largest_is_attained(lens, n);
    let r = choose|r: int| 0 <= r < n && #[trigger] lens(r) == largest(lens, n);
    assert(tokens_width(matrix.cell(r, c)) == matrix.widths()[c]);
}

/// A cell as it stands among the tokens of a matrix: it has a text, does not
/// start with a blank, and holds no token that ends it.
pub open spec fn is_cell(cell: Seq<Token>, row_count: usize, col_count: usize) -> bool {
    &&& cell.len() >= 1
    &&& !is_blank(cell[0].ptr@[0])
    &&& forall|i: int|
        0 <= i < cell.len() ==> {
            &&& (#[trigger] cell[i]).typ != TokenType::Operator(OperatorTokenType::Comma)
            &&& cell[i].typ != TokenType::Operator(OperatorTokenType::Semicolon)
            &&& cell[i].typ != TokenType::Operator(OperatorTokenType::BracketOpen)
            &&& cell[i].typ != TokenType::Operator(OperatorTokenType::BracketClose)
            &&& cell[i].typ != TokenType::Operator(
                OperatorTokenType::Matrix { row_count, col_count },
            )
        }
}

proof fn lemma_rest_of_cell(
    tokens: Seq<Token>,
    row_count: usize,
    col_count: usize,
    at: int,
    start: int,
    end: int,
)
    requires
        0 <= start <= at <= end < tokens.len(),
        is_cell(tokens.subrange(start, end), row_count, col_count),
    ensures
        cell_ranges(tokens, row_count, col_count, at, start, at == start) == (if at == end {
            cell_ranges(tokens, row_count, col_count, at, start, at == start)
        } else {
            cell_ranges(tokens, row_count, col_count, end, start, false)
        }),
    decreases end - at,
{
    if at < end {
        let cell = tokens.subrange(start, end);
        assert(cell[at - start] == tokens[at]);
        assert(cell[0] == tokens[start]);
        if at + 1 < end {
            lemma_rest_of_cell(tokens, row_count, col_count, at + 1, start, end);
        }
    }
}

/// The cells of a matrix are the tokens between its bracket, its commas and its
/// semicolons, in their order: the first one ends at the first separator or at
/// the closing bracket, and the others are those of the rest.
pub proof fn law_cells_are_the_tokens_between_the_separators(
    tokens: Seq<Token>,
    row_count: usize,
    col_count: usize,
    start: int,
    end: int,
)
    requires
        0 <= start < end < tokens.len(),
        is_cell(tokens.subrange(start, end), row_count, col_count),
        tokens[end].ptr@.len() > 0,
    ensures
        tokens[end].typ == TokenType::Operator(OperatorTokenType::BracketClose) ==> cell_ranges(
            tokens,
            row_count,
            col_count,
            start,
            start,
            true,
        ) == seq![(start, end)],
        tokens[end].typ == TokenType::Operator(OperatorTokenType::Comma) || tokens[end].typ
            == TokenType::Operator(OperatorTokenType::Semicolon) ==> cell_ranges(
            tokens,
            row_count,
            col_count,
            start,
            start,
            true,
        ) == seq![(start, end)] + cell_ranges(
            tokens,
            row_count,
            col_count,
            end + 1,
            end + 1,
            true,
        ),
{
    lemma_rest_of_cell(tokens, row_count, col_count, start, start, end);
}

/// The bracket that opens a matrix, and blanks before a cell, belong to no cell.
pub proof fn law_opening_bracket_and_blanks_belong_to_no_cell(
    tokens: Seq<Token>,
    row_count: usize,
    col_count: usize,
    at: int,
)
    requires
        0 <= at < tokens.len(),
        tokens[at].typ == TokenType::Operator(OperatorTokenType::BracketOpen) || tokens[at].typ
            == TokenType::Operator(OperatorTokenType::Matrix { row_count, col_count }) || (
        is_blank(tokens[at].ptr@[0]) && tokens[at].typ != TokenType::Operator(
            OperatorTokenType::BracketClose,
        )),
    ensures
        cell_ranges(tokens, row_count, col_count, at, at, true) == cell_ranges(
            tokens,
            row_count,
            col_count,
            at + 1,
            at + 1,
            true,
        ),
{
}

/// Tokens are as wide as their texts together.
pub proof fn law_tokens_are_as_wide_as_their_texts(tokens: Seq<Token>, token: Token)
    ensures
        tokens_width(Seq::<Token>::empty()) == 0,
        tokens_width(tokens.push(token)) == tokens_width(tokens) + token.ptr@.len(),
{
    assert(tokens.push(token).drop_last() =~= tokens);
}

proof fn lemma_first_closing(tokens: Seq<Token>, at: int, closing: int)
    requires
        0 <= at <= closing < tokens.len(),
        tokens[closing].typ == TokenType::Operator(OperatorTokenType::BracketClose),
        forall|i: int|
            at <= i < closing ==> (#[trigger] tokens[i]).typ != TokenType::Operator(
                OperatorTokenType::BracketClose,
            ),
    ensures
        closing_token(tokens, at) == closing,
        width_up_to_closing(tokens, at) == tokens_width(tokens.subrange(at, closing)) + 1,
    decreases closing - at,
{
    if at < closing {
        lemma_first_closing(tokens, at + 1, closing);
        lemma_width_of_first(tokens.subrange(at, closing));
        assert(tokens.subrange(at, closing).skip(1) =~= tokens.subrange(at + 1, closing));
    } else {
        assert(tokens.subrange(at, closing) =~= Seq::<Token>::empty());
    }
}

proof fn lemma_width_of_first(tokens: Seq<Token>)
    requires
        tokens.len() >= 1,
    ensures
        tokens_width(tokens) == tokens[0].ptr@.len() + tokens_width(tokens.skip(1)),
    decreases tokens.len(),
{
    if tokens.len() == 1 {
        assert(tokens.drop_last() =~= Seq::<Token>::empty());
        assert(tokens.skip(1) =~= Seq::<Token>::empty());
    } else {
        lemma_width_of_first(tokens.drop_last());
        assert(tokens.drop_last().skip(1) =~= tokens.skip(1).drop_last());
    }
}

/// A matrix in the text goes from its opening token to the next closing bracket.
/// It is drawn in the middle of its line, where the line has got to: as it is
/// edited, where the cursor stands inside of it and a matrix is edited, else as
/// it stands in the text. What follows stands behind the drawing. A cursor behind
/// the matrix is drawn as many columns further right as the drawing is wider than
/// the text.
pub proof fn law_matrix_stands_in_its_line(
    context: LineContext,
    state: LineState,
    tokens: Seq<Token>,
    at: int,
    closing: int,
)
    requires
        0 <= at < closing < tokens.len(),
        context.as_objects,
        tokens[at].typ matches TokenType::Operator(OperatorTokenType::Matrix { .. }),
        tokens[closing].typ == TokenType::Operator(OperatorTokenType::BracketClose),
        forall|i: int|
            at <= i < closing ==> (#[trigger] tokens[i]).typ != TokenType::Operator(
                OperatorTokenType::BracketClose,
            ),
        context.step_fits(state, tokens, at),
        0 <= context.left <= usize::MAX,
        0 <= context.limit <= usize::MAX,
    ensures
        tokens[at].typ matches TokenType::Operator(
            OperatorTokenType::Matrix { row_count, col_count },
        ) && ({
            let after = context.step(state, tokens, at);
            let r = state.r;
            let text_width = tokens_width(tokens.subrange(at, closing)) + 1;
            let width = after.r.render_x - r.render_x;
            let matrix = MatrixTokens { tokens: tokens.skip(at), row_count, col_count };
            let cursor = match context.selection.end {
                Some(end) => end,
                None => context.selection.start,
            };
            let edited = context.editing is Some && context.selection.end is None && cursor.row
                == r.editor_y.0 && r.editor_x < cursor.column < r.editor_x + text_width;
            &&& context.next(tokens, at) == closing + 1
            &&& after.r.editor_x == r.editor_x + text_width
            &&& after.r.cursor_render_x_offset - r.cursor_render_x_offset == (if cursor.row
                == r.editor_y.0 && cursor.column >= r.editor_x + text_width {
                width - text_width
            } else {
                0
            })
            &&& edited ==> {
                let view = context.editing->0;
                let area = MatrixArea {
                    top: (r.render_y.0 + (r.rendered_row_height - view.row_count) / 2) as usize,
                    left: context.left as usize,
                    limit: context.limit as usize,
                };
                &&& after.frame == view.draw(state.frame, area, r.render_x as int)
                &&& after.r.render_x == view.end_x(r.render_x as int, context.limit)
            }
            &&& !edited ==> {
                let area = MatrixArea {
                    top: (r.render_y.0 + (r.rendered_row_height - row_count) / 2) as usize,
                    left: context.left as usize,
                    limit: context.limit as usize,
                };
                &&& after.frame == matrix.draw(state.frame, area, r.render_x as int)
                &&& after.r.render_x == matrix.end_x(r.render_x as int, context.limit)
            }
            &&& after.objects.len() == state.objects.len() + 1
            &&& after.objects.last().typ == EditorObjectType::Matrix { row_count, col_count }
            &&& after.objects.last().rendered_h == row_count
        }),
{
    lemma_first_closing(tokens, at, closing);
    lemma_width_up_to_closing_positive(tokens, at);
    if let TokenType::Operator(OperatorTokenType::Matrix { row_count, col_count }) = tokens[at].typ {
        let matrix = MatrixTokens { tokens: tokens.skip(at), row_count, col_count };
        let text_width = width_up_to_closing(tokens, at);
        if context.is_edited(state.r, text_width) {
            lemma_edited_end_after_start(
                context.editing->0,
                state.r.render_x as int,
                context.limit,
            );
        } else {
            lemma_matrix_end_after_start(matrix, state.r.render_x as int, context.limit);
        }
    }
}

} // verus!
