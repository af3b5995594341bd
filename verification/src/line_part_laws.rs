use vstd::prelude::*;

use crate::app::RedrawTarget;
use crate::buckets::{Cmd, Frame, TextCmd};
use crate::coords::{EditorY, Selection};
use crate::editor::Editor;
use crate::external::RerenderedLine;
use crate::frame_render::{
    line_number_text, pulses_drawn, reference_marks, scroll_bar_drawn, FrameContext, FrameState,
};
use crate::line_parts::{
    chooser_drawn, cursor_drawn, highlight_drawn, prefix_drawn, simple_len, simple_line_done,
    simple_line_drawn, wrap_dots_drawn,
};
use crate::objects::{EditorObject, EditorObjectType};
use crate::render_data::{Layout, PerLineRenderData};
use crate::results::ResultFormat;

verus! {

/// A line without tokens is drawn as it is, right of the line numbers, as far as
/// it is seen. It is one row tall.
pub proof fn law_line_without_tokens_is_drawn_as_it_is(
    frame: Frame,
    line: Seq<char>,
    r: PerLineRenderData,
    gr: Layout,
)
    ensures
        ({
            let seen = if line.len() < gr.current_editor_width {
                line
            } else {
                line.take(gr.current_editor_width as int)
            };
            simple_line_drawn(frame, line, r, gr).utf8_texts == frame.utf8_texts.push(
                TextCmd {
                    text: seen,
                    row: r.render_y.0 as int,
                    column: gr.left_gutter_width as int,
                },
            )
        }),
        simple_line_done(line, r, gr).rendered_row_height == 1,
        simple_line_done(line, r, gr).vert_align_offset == 0,
{
    let seen = if line.len() < gr.current_editor_width {
        line
    } else {
        line.take(gr.current_editor_width as int)
    };
    assert(seen =~= line.subrange(0, simple_len(line, gr)));
}

/// Dots right behind what is seen of a line tell that it goes on.
pub proof fn law_dots_tell_that_a_line_goes_on(frame: Frame, r: PerLineRenderData, gr: Layout)
    ensures
        r.render_x <= gr.current_editor_width ==> wrap_dots_drawn(frame, r, gr) == frame,
        r.render_x > gr.current_editor_width ==> wrap_dots_drawn(frame, r, gr).text.last()
            == (Cmd::Char {
            x: gr.left_gutter_width + gr.current_editor_width,
            y: r.render_y.0 as int,
            ch: '…',
        }),
{
}

/// Only the line that is about to be referred to is marked, over the whole screen.
pub proof fn law_chosen_line_is_marked(
    frame: Frame,
    r: PerLineRenderData,
    gr: Layout,
    chooser: Option<EditorY>,
    result_gutter_x: int,
)
    ensures
        match chooser {
            Some(row) => if row.0 == r.editor_y.0 {
                chooser_drawn(frame, r, gr, chooser, result_gutter_x).text.last() == (Cmd::Rect {
                    x: 0,
                    y: r.render_y.0 as int,
                    w: result_gutter_x + 2 + gr.current_result_panel_width,
                    h: r.rendered_row_height as int,
                })
            } else {
                chooser_drawn(frame, r, gr, chooser, result_gutter_x) == frame
            },
            None => chooser_drawn(frame, r, gr, chooser, result_gutter_x) == frame,
        },
{
}

/// In front of a hexadecimal or binary result stands its prefix, in the gutter; in
/// front of a decimal one nothing.
pub proof fn law_results_have_the_prefix_of_their_format(
    frame: Frame,
    format: ResultFormat,
    r: PerLineRenderData,
    result_gutter_x: int,
)
    ensures
        ({
            let row = r.render_y.0 as int;
            let drawn = prefix_drawn(frame, format, r, result_gutter_x);
            match format {
                ResultFormat::Dec => drawn == frame,
                ResultFormat::Hex => drawn.operators == frame.operators.push(
                    TextCmd { text: seq!['0', 'x'], row, column: result_gutter_x },
                ),
                ResultFormat::Bin => drawn.operators == frame.operators.push(
                    TextCmd { text: seq!['0', 'b'], row, column: result_gutter_x },
                ),
            }
        }),
{
}

/// Only the line of the cursor is highlighted, in all its rows.
pub proof fn law_line_of_the_cursor_is_highlighted(
    frame: Frame,
    r: PerLineRenderData,
    selection: Selection,
    result_gutter_x: int,
)
    ensures
        ({
            let cursor_row = match selection.end {
                Some(end) => end.row,
                None => selection.start.row,
            };
            let drawn = highlight_drawn(frame, r, selection, result_gutter_x);
            &&& cursor_row != r.editor_y.0 ==> drawn == frame
            &&& cursor_row == r.editor_y.0 ==> drawn.text.last() == (Cmd::Rect {
                x: 0,
                y: r.render_y.0 as int,
                w: result_gutter_x + 32,
                h: r.rendered_row_height as int,
            })
        }),
{
}

/// The cursor is drawn in its line, at its column, moved by as much as what stands
/// before it is drawn wider than its text; only where it is shown, is seen, and
/// does not stand in a matrix that is edited.
pub proof fn law_cursor_is_drawn_at_its_column(
    frame: Frame,
    r: PerLineRenderData,
    gr: Layout,
    editor: Editor,
    matrix_is_edited: bool,
)
    ensures
        ({
            let cursor = match editor.selection.end {
                Some(end) => end,
                None => editor.selection.start,
            };
            let x = cursor.column + r.cursor_render_x_offset;
            let drawn = cursor_drawn(frame, r, gr, editor, matrix_is_edited);
            let seen = cursor.row == r.editor_y.0 && editor.cursor_shown && !matrix_is_edited && 0
                <= x < gr.current_editor_width;
            &&& seen ==> drawn.above_text.last() == (Cmd::Char {
                x: gr.left_gutter_width + x,
                y: r.render_y.0 + r.vert_align_offset,
                ch: '▏',
            })
            &&& cursor.row != r.editor_y.0 ==> drawn == frame
            &&& cursor.row == r.editor_y.0 && !seen ==> drawn.above_text
                == frame.above_text.push(Cmd::SetColor(0x000000_FF))
        }),
{
}

/// The lines are numbered from one on, in two columns, aligned to the right.
pub proof fn law_lines_are_numbered_from_one_on(y: int)
    requires
        0 <= y < 99,
    ensures
        ({
            let text = line_number_text(y);
            let ones = text[1] as int - '0' as int;
            let tens = text[0] as int - '0' as int;
            &&& text.len() == 2
            &&& y + 1 < 10 ==> text[0] == ' ' && ones == y + 1
            &&& y + 1 >= 10 ==> 1 <= tens <= 9 && 0 <= ones <= 9 && 10 * tens + ones == y + 1
        }),
{
}

/// A line is drawn with its number left of it, in the middle of its rows and on a
/// background over all of them, and with the gutter before its result.
pub proof fn law_line_has_its_number_and_its_gutter<'a>(
    context: FrameContext<'a>,
    state: FrameState,
    y: int,
)
    ensures
        ({
            let text = context.draw_text(state, y);
            let drawn = context.draw_editor_area(state, y).frame;
            let row = text.r.render_y.0 as int;
            let h = text.r.rendered_row_height as int;
            let n = drawn.behind_text.len();
            let cursor_row = match context.editor.selection.end {
                Some(end) => end.row,
                None => context.editor.selection.start.row,
            };
            &&& drawn.text.last() == Cmd::Text(
                TextCmd { text: line_number_text(y), row: row + (h - 1) / 2, column: 1 },
            )
            &&& drawn.text[drawn.text.len() - 2] == Cmd::SetColor(
                if y == cursor_row {
                    0x000000_FFu32
                } else {
                    0xADADAD_FFu32
                },
            )
            &&& drawn.behind_text[n - 4] == Cmd::SetColor(0xD2D2D2_FF)
            &&& drawn.behind_text[n - 3] == (Cmd::Rect {
                x: text.gr.result_gutter_x as int,
                y: row,
                w: 2,
                h,
            })
            &&& drawn.behind_text[n - 2] == Cmd::SetColor(0xF2F2F2_FF)
            &&& drawn.behind_text[n - 1] == (Cmd::Rect {
                x: 0,
                y: row,
                w: text.gr.left_gutter_width as int,
                h,
            })
        }),
{
}

/// Matrices and references are drawn as such in lines that are not selected, and
/// as text in those that are.
pub proof fn law_selected_lines_are_drawn_as_text<'a>(context: FrameContext<'a>, y: int)
    ensures
        match context.editor.selection.end {
            None => context.as_objects(y),
            Some(end) => {
                let start = context.editor.selection.start.row;
                context.as_objects(y) == !(start <= y <= end.row || end.row <= y <= start)
            },
        },
{
}

/// A line is gone through as far as it is on the screen and has to be drawn again:
/// its text where the text is marked, else only the place of its result. The next
/// line stands below all its rows.
pub proof fn law_marked_parts_of_a_line_are_drawn<'a>(
    context: FrameContext<'a>,
    state: FrameState,
    y: int,
)
    requires
        state.gr.scroll_y <= y < state.gr.scroll_y + state.gr.client_height,
        0 <= y < state.gr.heights.len(),
    ensures
        ({
            let entered = context.entered(state, y);
            let after = context.step(state, y);
            let height = state.gr.heights[y];
            &&& context.editor_flags.has(y) ==> after.frame == context.draw_editor_area(
                entered,
                y,
            ).frame && after.objects == context.draw_text(entered, y).objects
            &&& !context.editor_flags.has(y) && context.result_flags.has(y) ==> after.frame
                == context.draw_result_area(entered, y).frame
            &&& !context.editor_flags.has(y) && !context.result_flags.has(y) ==> after.frame
                == state.frame
            &&& entered.r.editor_x == 0
            &&& entered.r.render_x == 0
            &&& entered.r.cursor_render_x_offset == 0
            &&& entered.r.rendered_row_height == height
            &&& height >= 1 ==> entered.r.vert_align_offset == (height - 1) / 2
            &&& entered.r.render_y == state.r.render_y
            &&& y < state.gr.render_ys.len() ==> entered.gr.render_ys[y] == Some(state.r.render_y)
        }),
{
}

/// What is drawn again of a line: both parts, the text or the result.
pub proof fn law_redrawn_parts_are_told<'a>(context: FrameContext<'a>, y: int)
    ensures
        ({
            let text = context.editor_flags.has(y);
            let result = context.result_flags.has(y);
            context.target(y) == (if text && result {
                Some(RedrawTarget::Both)
            } else if text {
                Some(RedrawTarget::EditorArea)
            } else if result {
                Some(RedrawTarget::ResultArea)
            } else {
                None
            })
        }),
{
}

/// The parts of lines that are drawn again are cleared before: the whole line
/// right of its number, the text, or the gutter and the result, in all rows of
/// the line; and they pulse.
pub proof fn law_redrawn_parts_are_cleared_and_pulse(
    frame: Frame,
    gr: Layout,
    lines: Seq<RerenderedLine>,
    n: int,
)
    requires
        0 < n <= lines.len(),
    ensures
        ({
            let line = lines[n - 1];
            let before = pulses_drawn(frame, gr, lines, n - 1);
            let after = pulses_drawn(frame, gr, lines, n);
            let x = if line.target == RedrawTarget::ResultArea {
                gr.result_gutter_x as int
            } else {
                4
            };
            let w = match line.target {
                RedrawTarget::Both => gr.left_gutter_width + gr.current_editor_width + 1 + 2
                    + gr.current_result_panel_width,
                RedrawTarget::EditorArea => gr.current_editor_width as int,
                RedrawTarget::ResultArea => 2 + gr.current_result_panel_width,
            };
            let y = line.render_y.0 as int;
            let h = line.height as int;
            &&& after.clear_commands == before.clear_commands.push(Cmd::Rect { x, y, w, h })
            &&& after.above_text == before.above_text.push(
                Cmd::Pulse {
                    x,
                    y,
                    w,
                    h,
                    start_color: 0xFF88FF_11,
                    end_color: 0xFFFFFF_00,
                    millis: 200,
                },
            )
        }),
{
}

/// Behind a reference to another line there is a mark, as large as its value is
/// drawn and in the middle of the line; behind other objects there is none.
pub proof fn law_only_references_are_marked(
    frame: Frame,
    objects: Seq<EditorObject>,
    r: PerLineRenderData,
    left: int,
    n: int,
)
    requires
        0 < n <= objects.len(),
    ensures
        ({
            let object = objects[n - 1];
            let before = reference_marks(frame, objects, r, left, n - 1);
            let after = reference_marks(frame, objects, r, left, n);
            &&& object.typ != EditorObjectType::LineReference ==> after == before
            &&& object.typ == EditorObjectType::LineReference ==> after.behind_text.last()
                == (Cmd::Rect {
                x: left + object.rendered_x,
                y: object.rendered_y.0 + (r.rendered_row_height - object.rendered_h) / 2,
                w: object.rendered_w as int,
                h: object.rendered_h as int,
            })
        }),
{
}

/// Where not all lines are on the screen, the scroll bar stands before the gutter:
/// as far down as is scrolled, and one row shorter than the screen for each line
/// that is hidden, but at least one row tall.
pub proof fn law_scroll_bar_tells_how_much_is_hidden(frame: Frame, gr: Layout, line_count: int)
    requires
        gr.client_height >= 1,
    ensures
        line_count <= gr.client_height ==> scroll_bar_drawn(frame, gr, line_count) == frame,
        line_count > gr.client_height ==> scroll_bar_drawn(frame, gr, line_count).behind_text.last()
            == (Cmd::Rect {
            x: gr.result_gutter_x - 1,
            y: gr.scroll_y as int,
            w: 1,
            h: if line_count - gr.client_height < gr.client_height {
                gr.client_height - (line_count - gr.client_height)
            } else {
                1
            },
        }),
{
}

} // verus!
