use typed_arena::Arena;
use vstd::prelude::*;
use vstd::slice::slice_subrange;

use crate::app::{NoteCalcApp, MIN_RESULT_PANEL_WIDTH, RIGHT_GUTTER_WIDTH};
use crate::buckets::{Frame, Layer, RenderBuckets};
use crate::content::{EditorContent, LineData};
use crate::coords::{EditorY, Selection};
use crate::editor::Editor;
use crate::external::alloc_chars;
use crate::line_render::{advanced, can_advance};
use crate::matrix_editing::MatrixEditing;
use crate::matrix_layout::smaller;
use crate::render_data::{GlobalRenderData, Layout, PerLineRenderData};
use crate::results::ResultFormat;
use crate::row_flags::MAX_LINE_COUNT;

verus! {

/// How much of a line without tokens is seen.
pub open spec fn simple_len(line: Seq<char>, gr: Layout) -> int {
    smaller(line.len() as int, gr.current_editor_width as int)
}

/// A line without tokens, drawn as text.
pub open spec fn simple_line_drawn(
    frame: Frame,
    line: Seq<char>,
    r: PerLineRenderData,
    gr: Layout,
) -> Frame {
    frame.utf8_text(
        line.subrange(0, simple_len(line, gr)),
        r.render_y.0 as int,
        gr.left_gutter_width as int,
    )
}

/// Where the drawing stands after a line without tokens, which is one row tall.
pub open spec fn simple_line_done(
    line: Seq<char>,
    r: PerLineRenderData,
    gr: Layout,
) -> PerLineRenderData {
    advanced(
        PerLineRenderData { rendered_row_height: 1, vert_align_offset: 0, ..r },
        simple_len(line, gr),
        simple_len(line, gr),
        0,
    )
}

/// The dots that tell that a line goes on past what is seen of it.
pub open spec fn wrap_dots_drawn(frame: Frame, r: PerLineRenderData, gr: Layout) -> Frame {
    if r.render_x > gr.current_editor_width {
        frame.set_color(Layer::Text, 0x000000_FF).draw_char(
            Layer::Text,
            gr.current_editor_width + gr.left_gutter_width,
            r.render_y.0 as int,
            '…',
        )
    } else {
        frame
    }
}

/// The line that is about to be referred to, marked over its full width.
pub open spec fn chooser_drawn(
    frame: Frame,
    r: PerLineRenderData,
    gr: Layout,
    chooser: Option<EditorY>,
    result_gutter_x: int,
) -> Frame {
    if chooser == Some(r.editor_y) {
        frame.set_color(Layer::Text, 0xFFCCCC_FF).draw_rect(
            Layer::Text,
            0,
            r.render_y.0 as int,
            result_gutter_x + RIGHT_GUTTER_WIDTH + gr.current_result_panel_width,
            r.rendered_row_height as int,
        )
    } else {
        frame
    }
}

/// The prefix of a result that is not decimal.
pub open spec fn prefix_drawn(
    frame: Frame,
    format: ResultFormat,
    r: PerLineRenderData,
    result_gutter_x: int,
) -> Frame {
    match format {
        ResultFormat::Hex => frame.operator(
            seq!['0', 'x'],
            r.render_y.0 as int,
            result_gutter_x,
        ),
        ResultFormat::Bin => frame.operator(
            seq!['0', 'b'],
            r.render_y.0 as int,
            result_gutter_x,
        ),
        ResultFormat::Dec => frame,
    }
}

/// The line of the cursor, marked over its full width.
pub open spec fn highlight_drawn(
    frame: Frame,
    r: PerLineRenderData,
    selection: Selection,
    result_gutter_x: int,
) -> Frame {
    if selection.cursor().row == r.editor_y.0 {
        frame.set_color(Layer::Text, 0xFFFFCC_55).draw_rect(
            Layer::Text,
            0,
            r.render_y.0 as int,
            result_gutter_x + RIGHT_GUTTER_WIDTH + MIN_RESULT_PANEL_WIDTH,
            r.rendered_row_height as int,
        )
    } else {
        frame
    }
}

/// The text column at which the cursor is drawn.
pub open spec fn cursor_x(r: PerLineRenderData, selection: Selection) -> int {
    selection.cursor().column + r.cursor_render_x_offset
}

/// The cursor, where it is seen: not in a matrix that is being edited, which
/// draws its own.
pub open spec fn cursor_drawn(
    frame: Frame,
    r: PerLineRenderData,
    gr: Layout,
    editor: Editor,
    matrix_is_edited: bool,
) -> Frame {
    let x = cursor_x(r, editor.selection);
    if editor.selection.cursor().row != r.editor_y.0 {
        frame
    } else {
        let colored = frame.set_color(Layer::AboveText, 0x000000_FF);
        if editor.cursor_shown && !matrix_is_edited && 0 <= x < gr.current_editor_width {
            colored.draw_char(
                Layer::AboveText,
                x + gr.left_gutter_width,
                r.render_y.0 + r.vert_align_offset,
                '▏',
            )
        } else {
            colored
        }
    }
}

/// The place of the cursor can be computed.
pub open spec fn cursor_fits(r: PerLineRenderData, gr: Layout, editor: Editor) -> bool {
    editor.selection.cursor().row == r.editor_y.0 ==> {
        &&& editor.selection.cursor().column + gr.left_gutter_width <= isize::MAX
        &&& isize::MIN <= cursor_x(r, editor.selection)
        &&& cursor_x(r, editor.selection) + gr.left_gutter_width <= isize::MAX
        &&& r.render_y.0 + r.vert_align_offset <= usize::MAX
    }
}

impl NoteCalcApp {
    pub fn render_simple_text_line<'text_ptr>(
        line: &[char],
        r: &mut PerLineRenderData,
        gr: &mut GlobalRenderData,
        render_buckets: &mut RenderBuckets<'text_ptr>,
        allocator: &'text_ptr Arena<char>,
    )
        requires
            old(r).editor_y.0 < MAX_LINE_COUNT,
            can_advance(
                *old(r),
                simple_len(line@, old(gr)@),
                simple_len(line@, old(gr)@),
                0,
            ),
        ensures
            final(render_buckets)@ == simple_line_drawn(
                old(render_buckets)@,
                line@,
                *old(r),
                old(gr)@,
            ),
            *final(r) == simple_line_done(line@, *old(r), old(gr)@),
            final(gr)@ == (Layout {
                heights: old(gr)@.heights.update(old(r).editor_y.0 as int, 1),
                ..old(gr)@
            }),
    {
        r.set_fix_row_height(1);
        gr.set_rendered_height(r.editor_y, 1);
        let text_len: usize = if line.len() < gr.current_editor_width {
            line.len()
        } else {
            gr.current_editor_width
        };
        let text = alloc_chars(allocator, slice_subrange(line, 0, text_len));
        render_buckets.push_utf8_text(text, r.render_y, gr.left_gutter_width);
        r.token_render_done(text_len, text_len, 0);
    }

    pub fn render_wrap_dots(
        render_buckets: &mut RenderBuckets,
        r: &PerLineRenderData,
        gr: &GlobalRenderData,
    )
        requires
            gr.current_editor_width + gr.left_gutter_width <= usize::MAX,
        ensures
            final(render_buckets)@ == wrap_dots_drawn(old(render_buckets)@, *r, gr@),
    {
        if r.render_x > gr.current_editor_width {
            render_buckets.set_color(Layer::Text, 0x000000_FF);
            render_buckets.draw_char(
                Layer::Text,
                gr.current_editor_width + gr.left_gutter_width,
                r.render_y,
                '…',
            );
        }
    }

    pub fn draw_line_ref_chooser(
        render_buckets: &mut RenderBuckets,
        r: &PerLineRenderData,
        gr: &GlobalRenderData,
        line_reference_chooser: &Option<EditorY>,
        result_gutter_x: usize,
    )
        requires
            result_gutter_x + RIGHT_GUTTER_WIDTH + gr.current_result_panel_width <= usize::MAX,
        ensures
            final(render_buckets)@ == chooser_drawn(
                old(render_buckets)@,
                *r,
                gr@,
                *line_reference_chooser,
                result_gutter_x as int,
            ),
    {
        if let Some(selection_row) = line_reference_chooser {
            if *selection_row == r.editor_y {
                render_buckets.set_color(Layer::Text, 0xFFCCCC_FF);
                render_buckets.draw_rect(
                    Layer::Text,
                    0,
                    r.render_y,
                    result_gutter_x + RIGHT_GUTTER_WIDTH + gr.current_result_panel_width,
                    r.rendered_row_height,
                );
            }
        }
    }

    pub fn draw_right_gutter_num_prefixes(
        render_buckets: &mut RenderBuckets,
        result_gutter_x: usize,
        editor_content: &EditorContent<LineData>,
        r: &PerLineRenderData,
    )
        requires
            r.editor_y.0 < editor_content.data@.len(),
        ensures
            final(render_buckets)@ == prefix_drawn(
                old(render_buckets)@,
                editor_content.data@[r.editor_y.0 as int].result_format,
                *r,
                result_gutter_x as int,
            ),
    {
        match editor_content.get_data(r.editor_y.as_usize()).result_format {
            ResultFormat::Hex => {
                let text: &'static [char] = &['0', 'x'];
                render_buckets.push_operator(text, r.render_y, result_gutter_x);
            },
            ResultFormat::Bin => {
                let text: &'static [char] = &['0', 'b'];
                render_buckets.push_operator(text, r.render_y, result_gutter_x);
            },
            ResultFormat::Dec => {},
        }
    }

    pub fn highlight_current_line(
        render_buckets: &mut RenderBuckets,
        r: &PerLineRenderData,
        editor: &Editor,
        result_gutter_x: usize,
    )
        requires
            result_gutter_x + RIGHT_GUTTER_WIDTH + MIN_RESULT_PANEL_WIDTH <= usize::MAX,
        ensures
            final(render_buckets)@ == highlight_drawn(
                old(render_buckets)@,
                *r,
                editor.selection,
                result_gutter_x as int,
            ),
    {
        let cursor_pos = editor.get_selection().get_cursor_pos();
        if cursor_pos.row == r.editor_y.as_usize() {
            render_buckets.set_color(Layer::Text, 0xFFFFCC_55);
            render_buckets.draw_rect(
                Layer::Text,
                0,
                r.render_y,
                result_gutter_x + RIGHT_GUTTER_WIDTH + MIN_RESULT_PANEL_WIDTH,
                r.rendered_row_height,
            );
        }
    }

    pub fn draw_cursor(
        render_buckets: &mut RenderBuckets,
        r: &PerLineRenderData,
        gr: &GlobalRenderData,
        editor: &Editor,
        matrix_editing: &Option<MatrixEditing>,
    )
        requires
            cursor_fits(*r, gr@, *editor),
        ensures
            final(render_buckets)@ == cursor_drawn(
                old(render_buckets)@,
                *r,
                gr@,
                *editor,
                matrix_editing is Some,
            ),
    {
        let cursor_pos = editor.get_selection().get_cursor_pos();
        if cursor_pos.row == r.editor_y.as_usize() {
            render_buckets.set_color(Layer::AboveText, 0x000000_FF);
            let x: isize = cursor_pos.column as isize + r.cursor_render_x_offset;
            if editor.is_cursor_shown() && matrix_editing.is_none() && x >= 0 && (x as usize)
                < gr.current_editor_width {
                render_buckets.draw_char(
                    Layer::AboveText,
                    x as usize + gr.left_gutter_width,
                    r.render_y.add(r.vert_align_offset),
                    '▏',
                );
            }
        }
    }
}

} // verus!
