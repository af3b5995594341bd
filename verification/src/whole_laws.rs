use vstd::prelude::*;

use crate::app::NoteCalcApp;
use crate::buckets::{Cmd, Frame};
use crate::clipboard::copy_context;
use crate::editor::{EditorCommandView, EditorInputEvent, InputModifiers, RowModificationType};
use crate::event_laws::lemma_rows_are_had;
use crate::frame_render::scroll_bar_cleared;
use crate::input::InputNext;
use crate::line_render::{
    editing_view, lemma_edited_end_after_start, lemma_matrix_end_after_start,
    lemma_width_up_to_closing_positive, width_up_to_closing, LineContext, LineState,
};
use crate::matrix_key_laws::law_up_and_down_keep_the_column;
use crate::matrix_obj_render::MatrixTokens;
use crate::matrix_result_render::{lemma_drawn_width_positive, result_matrix};
use crate::objects::EditorObjectType;
use crate::render_data::Layout;
use crate::results::{CalcResult, Results, Variable};
use crate::tokens::{AppTokens, OperatorTokenType, Token, TokenType};

verus! {

/// The cursor is drawn with what stands before it: where a part of its line is
/// drawn wider or narrower than its text, a cursor behind that part moves by the
/// difference, and one before it does not move.
pub proof fn law_cursor_moves_with_what_stands_before_it(
    context: LineContext,
    state: LineState,
    tokens: Seq<Token>,
    at: int,
)
    requires
        0 <= at < tokens.len(),
        context.step_fits(state, tokens, at),
    ensures
        ({
            let cursor = match context.selection.end {
                Some(end) => end,
                None => context.selection.start,
            };
            let after = context.step(state, tokens, at).r;
            let text_width = after.editor_x - state.r.editor_x;
            let drawn_width = after.render_x - state.r.render_x;
            let moved = after.cursor_render_x_offset - state.r.cursor_render_x_offset;
            &&& cursor.row == state.r.editor_y.0 && text_width > 0 && cursor.column
                >= after.editor_x ==> moved == drawn_width - text_width
            &&& text_width > 0 && cursor.column <= state.r.editor_x ==> moved == 0
        }),
{
    match tokens[at].typ {
        TokenType::Operator(
            OperatorTokenType::Matrix { row_count, col_count },
        ) if context.as_objects => {
            let matrix = MatrixTokens { tokens: tokens.skip(at), row_count, col_count };
            let text_width = width_up_to_closing(tokens, at);
            lemma_width_up_to_closing_positive(tokens, at);
            if context.is_edited(state.r, text_width) {
                lemma_edited_end_after_start(
                    context.editing->0,
                    state.r.render_x as int,
                    context.limit,
                );
            } else {
                lemma_matrix_end_after_start(matrix, state.r.render_x as int, context.limit);
            }
        },
        TokenType::LineReference { var_index } if context.as_objects => {
            if let Ok(CalcResult::Matrix(mat)) = context.vars[var_index as int].value {
                lemma_drawn_width_positive(result_matrix(mat, context.precision, None));
            }
        },
        _ => {},
    }
}

/// What is drawn for a token can be found again by the object that is noted of it:
/// a matrix with its numbers of rows and columns and as tall as it has rows, a
/// reference as tall as its value, everything else as plain text.
pub proof fn law_objects_tell_what_is_drawn(
    context: LineContext,
    state: LineState,
    tokens: Seq<Token>,
    at: int,
)
    requires
        0 <= at < tokens.len(),
    ensures
        ({
            let object = context.step(state, tokens, at).objects.last();
            &&& context.as_objects ==> match tokens[at].typ {
                TokenType::Operator(OperatorTokenType::Matrix { row_count, col_count }) => {
                    &&& object.typ == EditorObjectType::Matrix { row_count, col_count }
                    &&& object.rendered_h == row_count
                },
                TokenType::LineReference { var_index } => {
                    &&& object.typ == EditorObjectType::LineReference
                    &&& object.rendered_h == (match context.vars[var_index as int].value {
                        Ok(CalcResult::Matrix(mat)) => mat.row_count,
                        _ => 1,
                    })
                },
                _ => object.typ == EditorObjectType::SimpleTokens,
            }
            &&& !context.as_objects ==> object.typ == EditorObjectType::SimpleTokens
        }),
{
}

/// While a matrix is edited, a key draws the line of the cursor again and no other
/// one. Only a key that leaves the matrix edits the line.
pub proof fn law_key_in_a_matrix_draws_its_line(
    app: NoteCalcApp,
    input: EditorInputEvent,
    modifiers: InputModifiers,
    tokens: AppTokens,
    results: Results,
    vars: Seq<Variable>,
    after: NoteCalcApp,
    commands: Seq<EditorCommandView>,
    next: InputNext,
    row: int,
)
    requires
        app.matrix_editing is Some,
        app.matrix_key_handled(
            input,
            modifiers,
            tokens,
            results,
            vars,
            after,
            commands,
            next,
        ),
    ensures
        ({
            let cursor_row = match app.editor.selection.end {
                Some(end) => end.row,
                None => app.editor.selection.start.row,
            };
            &&& after.editor_area_redraw.has(row) == (app.editor_area_redraw.has(row) || row
                == cursor_row)
            &&& after.result_area_redraw.has(row) == (app.result_area_redraw.has(row) || row
                == cursor_row)
            &&& next == InputNext::Done(
                if after.matrix_editing is None {
                    Some(RowModificationType::SingleLine(cursor_row))
                } else {
                    None
                },
            )
            &&& row != cursor_row && 0 <= row < app.render_data@.heights.len() && cursor_row
                < app.render_data@.heights.len()
                ==> after.render_data@.heights[row] == app.render_data@.heights[row]
            &&& after.render_data@.render_ys == app.render_data@.render_ys
            &&& after.editor == app.editor
            &&& after.editor_content == app.editor_content
        }),
{
    lemma_rows_are_had(after.editor_area_redraw);
    lemma_rows_are_had(after.result_area_redraw);
    lemma_rows_are_had(app.editor_area_redraw);
    lemma_rows_are_had(app.result_area_redraw);
}

/// The down key in a matrix and the up key after it lead back to the cell that was
/// current; in between the cell below it is, in the same column. The text is not
/// touched by either.
pub proof fn law_down_and_up_lead_back(
    app: NoteCalcApp,
    modifiers: InputModifiers,
    tokens: AppTokens,
    results: Results,
    vars: Seq<Variable>,
    below: NoteCalcApp,
    down_commands: Seq<EditorCommandView>,
    down_next: InputNext,
    back: NoteCalcApp,
    up_commands: Seq<EditorCommandView>,
    up_next: InputNext,
)
    requires
        app.matrix_editing matches Some(edited) && edited@.wf() && edited@.current_cell.row + 1
            < edited@.row_count,
        !modifiers.shift,
        !modifiers.alt,
        app.matrix_key_handled(
            EditorInputEvent::Down,
            modifiers,
            tokens,
            results,
            vars,
            below,
            down_commands,
            down_next,
        ),
        below.matrix_editing is Some ==> below.matrix_key_handled(
            EditorInputEvent::Up,
            modifiers,
            tokens,
            results,
            vars,
            back,
            up_commands,
            up_next,
        ),
    ensures
        ({
            let cell = app.matrix_editing.unwrap()@.current_cell;
            &&& below.matrix_editing matches Some(edited) && edited@.current_cell.row == cell.row
                + 1 && edited@.current_cell.column == cell.column
            &&& back.matrix_editing matches Some(edited) && edited@.current_cell == cell
            &&& down_commands.len() == 0
            &&& back.editor == app.editor
            &&& back.editor_content == app.editor_content
        }),
{
    let edited = app.matrix_editing.unwrap()@;
    law_up_and_down_keep_the_column(edited, app.editor.selection.cursor(), modifiers);
    assert(editing_view(below.matrix_editing) is Some);
    assert(editing_view(back.matrix_editing) is Some);
}

/// A frame shows the text, the values, the results, the selection, the matrix that
/// is edited and the line that is chosen as they are, and of the lines those that
/// have to be drawn again.
pub proof fn law_frame_shows_what_is_there<'a>(
    app: NoteCalcApp,
    tokens: AppTokens<'a>,
    results: Results,
    vars: Seq<Variable>,
    selected: Option<String>,
    row: int,
)
    requires
        0 <= row < app.editor_content.lines@.len(),
    ensures
        ({
            let context = app.frame_context(tokens, results, vars, selected);
            &&& context.lines.len() == app.editor_content.lines@.len()
            &&& context.lines[row] == app.editor_content.lines@[row]@
            &&& context.data == app.editor_content.data@
            &&& context.tokens == tokens.0@
            &&& context.results == results.0@
            &&& context.vars == vars
            &&& context.editor == app.editor
            &&& context.editing == app.matrix_editing
            &&& context.chooser == app.line_reference_chooser
            &&& context.editor_flags == app.editor_area_redraw
            &&& context.result_flags == app.result_area_redraw
            &&& context.selected is Some == selected is Some
            &&& selected matches Some(text) ==> context.selected == Some(text@)
        }),
{
}

/// What is copied are the tokens, values and results of the text as they are.
pub proof fn law_copy_takes_what_is_there<'a>(
    app: NoteCalcApp,
    line_tokens: Seq<Vec<Token<'a>>>,
    vars: Seq<Variable>,
    results: Results,
    row: int,
)
    requires
        0 <= row < line_tokens.len(),
    ensures
        ({
            let context = copy_context(app, line_tokens, vars, results);
            &&& context.tokens.len() == line_tokens.len()
            &&& context.tokens[row] == line_tokens[row]@
            &&& context.results == results.0@
            &&& context.vars == vars
            &&& context.data == app.editor_content.data@
            &&& context.editor == app.editor
            &&& context.editing == app.matrix_editing
        }),
{
}

/// The place of the scroll bar is cleared from top to bottom.
pub proof fn law_place_of_the_scroll_bar_is_cleared(frame: Frame, gr: Layout)
    ensures
        scroll_bar_cleared(frame, gr).clear_commands == frame.clear_commands + seq![
            Cmd::SetColor(0xFFFFFF_FF),
            Cmd::Rect { x: gr.result_gutter_x - 1, y: 0, w: 1, h: gr.client_height as int },
        ],
{
}

} // verus!
