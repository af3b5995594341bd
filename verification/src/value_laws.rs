use vstd::prelude::*;

use crate::buckets::{Cmd, Frame};
use crate::content::{EditorContent, LineData};
use crate::coords::{EditorY, RenderPosY, Selection};
use crate::frame_render::{leftover_cleared, leftover_rows};
use crate::matrix_editing::MatrixEditing;
use crate::normalize::{
    law_reference_is_read_back, law_short_places_are_written_in_order, lemma_decimal_is_digits,
    normalized_line, reference_at, reference_text, row_of_id,
};
use crate::render_data::{
    law_row_height_covers_every_part, max_token_height, row_height, token_height, Layout,
};
use crate::results::{CalcResult, CalcResultView, LineResult, ResultFormat, Variable};
use crate::row_flags::MAX_LINE_COUNT;
use crate::selection_sum::{
    selection_asks, selection_value_text, sum_text, SelectionQuestion, SelectionValue,
};
use crate::tokens::{OperatorTokenType, Token, TokenType, Tokens};
use crate::update::{edited_height, line_height};

verus! {

/// A matrix is as tall as it has rows, whether it stands in the line or is what
/// the line refers to; every other token takes one row.
pub proof fn law_only_matrices_are_tall(token: Token, vars: Seq<Variable>)
    ensures
        token.typ matches TokenType::Operator(
            OperatorTokenType::Matrix { row_count, col_count },
        ) ==> token_height(token, vars) == row_count,
        token.typ matches TokenType::LineReference { var_index } ==> match vars[var_index as int].value {
            Ok(CalcResult::Matrix(mat)) => token_height(token, vars) == mat.row_count,
            _ => token_height(token, vars) == 1,
        },
        !(token.typ is LineReference) && !(token.typ matches TokenType::Operator(operator)
            && operator is Matrix) ==> token_height(token, vars) == 1,
{
}

proof fn lemma_height_is_attained(tokens: Seq<Token>, vars: Seq<Variable>, least: usize)
    ensures
        max_token_height(tokens, vars, least) == least || exists|i: int|
            0 <= i < tokens.len() && token_height(#[trigger] tokens[i], vars) == max_token_height(
                tokens,
                vars,
                least,
            ),
    decreases tokens.len(),
{
    if tokens.len() > 0 {
        let before = tokens.drop_last();
        lemma_height_is_attained(before, vars, least);
        let height = max_token_height(tokens, vars, least);
        if height == token_height(tokens.last(), vars) {
            assert(token_height(tokens[tokens.len() - 1], vars) == height);
        } else if height != least {
            let i = choose|i: int|
                0 <= i < before.len() && token_height(#[trigger] before[i], vars)
                    == max_token_height(before, vars, least);
            assert(token_height(tokens[i], vars) == height);
        }
    }
}

/// A line is no taller than it has to be: as one of its tokens, as its result, as
/// the matrix that is edited in it, or else one row.
pub proof fn law_line_is_as_tall_as_one_of_its_parts(
    result: LineResult,
    tokens: Seq<Token>,
    vars: Seq<Variable>,
    edited_height: Option<usize>,
)
    ensures
        ({
            let height = row_height(result, tokens, vars, edited_height);
            ||| exists|i: int|
                0 <= i < tokens.len() && token_height(#[trigger] tokens[i], vars) == height
            ||| result matches Ok(Some(CalcResult::Matrix(mat))) && mat.row_count == height
            ||| edited_height == Some(height)
            ||| edited_height is None && height == 1
        }),
{
    lemma_height_is_attained(
        tokens,
        vars,
        match edited_height {
            Some(height) => height,
            None => 1,
        },
    );
}

/// A line that could not be taken apart takes one row. An edited matrix makes only
/// its own line taller, by its number of rows.
pub proof fn law_edited_matrix_makes_its_line_tall(
    tokens: Option<Tokens>,
    result: LineResult,
    vars: Seq<Variable>,
    editing: Option<MatrixEditing>,
    row: EditorY,
)
    ensures
        tokens is None ==> line_height(tokens, result, vars, edited_height(editing, row)) == 1,
        tokens is Some && (editing matches Some(edited) && edited.row_index.0 == row.0)
            ==> line_height(tokens, result, vars, edited_height(editing, row))
            >= editing.unwrap().row_count,
        !(editing matches Some(edited) && edited.row_index.0 == row.0) ==> line_height(
            tokens,
            result,
            vars,
            edited_height(editing, row),
        ) == line_height(tokens, result, vars, None),
{
    if let Some(tokens) = tokens {
        law_row_height_covers_every_part(
            result,
            tokens.tokens@,
            vars,
            edited_height(editing, row),
        );
    }
}

/// What is selected within a line is asked about as text: the characters between
/// the two ends. What is selected over several lines is asked about as the sum of
/// all of them, from the upper to the lower one. Either way the answer is shown
/// in the format of the line in which the selection was started.
pub proof fn law_selection_is_asked_about(
    selection: Selection,
    content: EditorContent<LineData>,
    question: SelectionQuestion,
    end_row: int,
    end_column: int,
)
    requires
        selection.end matches Some(end) && end.row == end_row && end.column == end_column,
        selection_asks(selection, content, question),
        selection.start.row == end_row ==> selection.start.column
            <= content.lines@[end_row]@.len() && end_column <= content.lines@[end_row]@.len(),
    ensures
        ({
            let start = selection.start;
            let left = if start.column < end_column {
                start.column as int
            } else {
                end_column
            };
            let right = if start.column < end_column {
                end_column
            } else {
                start.column as int
            };
            let wanted = content.data@[start.row as int].result_format;
            match question {
                SelectionQuestion::Text { row, text, format } => {
                    &&& start.row == end_row
                    &&& row == end_row
                    &&& text@.len() == right - left
                    &&& forall|i: int|
                        0 <= i < text@.len() ==> (#[trigger] text@[i])
                            == content.lines@[end_row]@[left + i]
                    &&& format == wanted
                },
                SelectionQuestion::Rows(sum) => {
                    &&& start.row != end_row
                    &&& sum.row == start.row && sum.last_row == end_row || sum.row == end_row
                        && sum.last_row == start.row
                    &&& sum.row <= sum.last_row
                    &&& sum.sum is None
                    &&& sum.format == wanted
                },
            }
        }),
{
}

/// A value of selected text is shown only where there was something to compute, as
/// its text in the wanted format.
pub proof fn law_value_is_shown_where_something_was_computed(
    value: Result<Option<SelectionValue>, ()>,
    format: ResultFormat,
)
    ensures
        selection_value_text(value, format) is Some <==> (value matches Ok(Some(v))
            && v.there_was_operation),
        value matches Ok(Some(v)) ==> v.there_was_operation ==> {
            let texts = v.texts;
            selection_value_text(value, format) == Some(
                match format {
                    ResultFormat::Bin => texts.bin.text@,
                    ResultFormat::Dec => texts.dec.text@,
                    ResultFormat::Hex => texts.hex.text@,
                },
            )
        },
{
}

/// A sum that is a number is shown with four decimals, one that is a matrix in one
/// line; both in the wanted format.
pub proof fn law_sum_is_shown_in_its_format(sum: CalcResultView, format: ResultFormat)
    ensures
        ({
            let texts = match sum {
                CalcResultView::Scalar(scalar) => scalar.four,
                CalcResultView::Matrix { inline, .. } => inline,
            };
            sum_text(sum, format) == (match format {
                ResultFormat::Bin => texts.bin.text@,
                ResultFormat::Dec => texts.dec.text@,
                ResultFormat::Hex => texts.hex.text@,
            })
        }),
{
}

proof fn lemma_first_row_with_id(data: Seq<LineData>, id: int, row: int, from: int)
    requires
        0 <= from <= row < data.len(),
        data[row].line_id == id,
        forall|i: int| from <= i < row ==> (#[trigger] data[i]).line_id != id,
    ensures
        row_of_id(data, id, from) == Some(row),
    decreases row - from,
{
    if from < row {
        lemma_first_row_with_id(data, id, row, from + 1);
    }
}

proof fn lemma_no_row_with_id(data: Seq<LineData>, id: int, from: int)
    requires
        0 <= from,
        forall|i: int| 0 <= i < data.len() ==> (#[trigger] data[i]).line_id != id,
    ensures
        row_of_id(data, id, from) is None,
    decreases data.len() - from,
{
    if from < data.len() {
        lemma_no_row_with_id(data, id, from + 1);
    }
}

/// In the normalized text a reference to a line, which is written with the id of
/// the line, is written with its place instead, counted from one; the text goes
/// on behind the closing bracket.
pub proof fn law_reference_is_written_with_the_place_of_its_line(
    before: Seq<char>,
    id: nat,
    after: Seq<char>,
    data: Seq<LineData>,
    row: int,
)
    requires
        0 <= row < data.len(),
        row + 1 < 1000,
        id > 0,
        data[row].line_id == id,
        forall|i: int| 0 <= i < row ==> (#[trigger] data[i]).line_id != id,
    ensures
        ({
            let line = before + reference_text(id) + after;
            let at = before.len() as int;
            normalized_line(line, data, at) == reference_text((row + 1) as nat) + normalized_line(
                line,
                data,
                at + reference_text(id).len(),
            )
        }),
{
    lemma_decimal_is_digits(id);
    lemma_first_row_with_id(data, id as int, row, 0);
    law_reference_is_read_back(before, id, after);
    law_short_places_are_written_in_order((row + 1) as nat);
}

/// A reference to a line that is gone is written as one to the first line.
pub proof fn law_reference_to_a_gone_line_goes_to_the_first(
    before: Seq<char>,
    id: nat,
    after: Seq<char>,
    data: Seq<LineData>,
)
    requires
        id > 0,
        forall|i: int| 0 <= i < data.len() ==> (#[trigger] data[i]).line_id != id,
    ensures
        ({
            let line = before + reference_text(id) + after;
            let at = before.len() as int;
            normalized_line(line, data, at) == reference_text(1) + normalized_line(
                line,
                data,
                at + reference_text(id).len(),
            )
        }),
{
    lemma_decimal_is_digits(id);
    lemma_no_row_with_id(data, id as int, 0);
    law_reference_is_read_back(before, id, after);
    law_short_places_are_written_in_order(1);
}

/// Characters that do not start a reference are kept.
pub proof fn law_other_characters_are_kept(line: Seq<char>, data: Seq<LineData>, at: int)
    requires
        0 <= at < line.len(),
        line[at] != '&' || at + 1 < line.len() && line[at + 1] != '[' || at + 3 >= line.len(),
    ensures
        normalized_line(line, data, at) == seq![line[at]] + normalized_line(line, data, at + 1),
{
    assert(reference_at(line, at) is None);
}

/// How tall the lines from `first` on are together, before line `end`.
pub open spec fn height_between(heights: Seq<usize>, first: int, end: int) -> int
    decreases end - first,
{
    if end <= first {
        0
    } else {
        height_between(heights, first, end - 1) + heights[end - 1]
    }
}

proof fn lemma_leftover_goes_on(gr: Layout, at: int, y: RenderPosY, h: int, first: int, end: int)
    requires
        first < at <= end <= MAX_LINE_COUNT,
        h == height_between(gr.heights, first, at),
        forall|i: int|
            first <= i < MAX_LINE_COUNT ==> ((#[trigger] gr.render_ys[i]) is Some == (i < end)),
    ensures
        leftover_rows(gr, at, Some((y, h))) == Some((y, height_between(gr.heights, first, end))),
    decreases MAX_LINE_COUNT - at,
{
    if at < end {
        assert(gr.render_ys[at] is Some);
        lemma_leftover_goes_on(gr, at + 1, y, h + gr.heights[at], first, end);
    } else if at < MAX_LINE_COUNT {
        assert(gr.render_ys[at] is None);
    }
}

proof fn lemma_leftover_starts(gr: Layout, at: int, first: int, end: int)
    requires
        0 <= at <= first < end <= MAX_LINE_COUNT,
        forall|i: int|
            at <= i < MAX_LINE_COUNT ==> ((#[trigger] gr.render_ys[i]) is Some == (first <= i
                < end)),
    ensures
        leftover_rows(gr, at, None) == Some(
            (gr.render_ys[first].unwrap(), height_between(gr.heights, first, end)),
        ),
    decreases MAX_LINE_COUNT - at,
{
    assert(gr.render_ys[first] is Some);
    if at < first {
        assert(gr.render_ys[at] is None);
        lemma_leftover_starts(gr, at + 1, first, end);
    } else {
        reveal_with_fuel(height_between, 2);
        lemma_leftover_goes_on(
            gr,
            at + 1,
            gr.render_ys[first].unwrap(),
            gr.heights[first] as int,
            first,
            end,
        );
    }
}

/// The rows of lines that no longer exist are cleared, from the first of them on and
/// as many as they were tall together; the backgrounds of the line numbers and of
/// the gutter go on over them.
pub proof fn law_rows_of_gone_lines_are_cleared(
    frame: Frame,
    gr: Layout,
    line_count: int,
    first: int,
    end: int,
)
    requires
        0 <= line_count <= first < end <= MAX_LINE_COUNT,
        forall|i: int|
            line_count <= i < MAX_LINE_COUNT ==> ((#[trigger] gr.render_ys[i]) is Some == (first
                <= i < end)),
    ensures
        ({
            let after = leftover_cleared(frame, gr, leftover_rows(gr, line_count, None));
            let y = gr.render_ys[first].unwrap().0 as int;
            let h = height_between(gr.heights, first, end);
            let n = frame.behind_text.len() as int;
            &&& after.clear_commands == frame.clear_commands.push(
                Cmd::Rect {
                    x: 4,
                    y,
                    w: gr.left_gutter_width + gr.current_editor_width + 1 + 2
                        + gr.current_result_panel_width,
                    h,
                },
            )
            &&& after.behind_text.len() == n + 4
            &&& after.behind_text[n] == Cmd::SetColor(0xF2F2F2_FF)
            &&& after.behind_text[n + 1] == (Cmd::Rect {
                x: 0,
                y,
                w: gr.left_gutter_width as int,
                h,
            })
            &&& after.behind_text[n + 2] == Cmd::SetColor(0xD2D2D2_FF)
            &&& after.behind_text[n + 3] == (Cmd::Rect {
                x: gr.result_gutter_x as int,
                y,
                w: 2,
                h,
            })
        }),
{
    lemma_leftover_starts(gr, line_count, first, end);
}

} // verus!
