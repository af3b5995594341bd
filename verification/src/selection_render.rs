use vstd::prelude::*;

use crate::app::NoteCalcApp;
use crate::buckets::{Frame, Layer, RenderBuckets};
use crate::content::{EditorContent, LineData};
use crate::coords::{EditorY, Selection};
use crate::editor::Editor;
use crate::matrix_layout::{larger, smaller};
use crate::render_data::{GlobalRenderData, Layout};
use crate::row_flags::MAX_LINE_COUNT;
use crate::selection_sum::text_view;

verus! {

/// The longest of the lines from `first` on, `n` of them.
pub open spec fn longest_line(lines: Seq<Seq<char>>, first: int, n: int) -> int
    decreases n,
{
    if n <= 0 {
        0
    } else {
        larger(longest_line(lines, first, n - 1), lines[first + n - 1].len() as int)
    }
}

/// What the drawing of a selection depends on.
pub struct SelectionContext {
    pub selection: Selection,
    pub lines: Seq<Seq<char>>,
    pub gr: Layout,
}

/// The same character below itself, in `n` rows.
pub open spec fn column_drawn(frame: Frame, x: int, y: int, ch: char, n: int) -> Frame
    decreases n,
{
    if n <= 0 {
        frame
    } else {
        column_drawn(frame, x, y, ch, n - 1).draw_char(Layer::AboveText, x, y + n - 1, ch)
    }
}

impl SelectionContext {
    pub open spec fn is_shown(self, row: int) -> bool {
        self.gr.render_ys[row] is Some
    }

    pub open spec fn render_y(self, row: int) -> int {
        self.gr.render_ys[row].unwrap().0 as int
    }

    pub open spec fn left(self) -> int {
        self.gr.left_gutter_width as int
    }

    /// The mark over a stretch of a line, where the line is on the screen. It
    /// is never wider than the editor.
    pub open spec fn mark(self, frame: Frame, row: int, column: int, len: int) -> Frame {
        if self.is_shown(row) {
            frame.draw_rect(
                Layer::BehindText,
                column + self.left(),
                self.render_y(row),
                smaller(len, self.gr.current_editor_width as int),
                self.gr.heights[row] as int,
            )
        } else {
            frame
        }
    }

    /// The marks over `n` whole lines from `first` on.
    pub open spec fn mark_lines(self, frame: Frame, first: int, n: int) -> Frame
        decreases n,
    {
        if n <= 0 {
            frame
        } else {
            self.mark(
                self.mark_lines(frame, first, n - 1),
                first + n - 1,
                0,
                self.lines[first + n - 1].len() as int,
            )
        }
    }

    /// The marks over everything that is selected.
    pub open spec fn marks(self, frame: Frame) -> Frame {
        let start = self.selection.first();
        let end = self.selection.second();
        if end.row > start.row {
            let first_line = self.mark(
                frame,
                start.row as int,
                start.column as int,
                self.lines[start.row as int].len() as int,
            );
            let full_lines = self.mark_lines(first_line, start.row + 1, end.row - start.row - 1);
            self.mark(full_lines, end.row as int, 0, end.column as int)
        } else {
            self.mark(
                frame,
                start.row as int,
                start.column as int,
                end.column - start.column,
            )
        }
    }

    /// The row next to the selection in which its value is shown: above it, or
    /// below it in the first line.
    pub open spec fn value_y(self) -> int {
        let row = self.selection.first().row as int;
        if row == 0 {
            self.render_y(row) + 1
        } else {
            self.render_y(row) - 1
        }
    }

    pub open spec fn value_x(self, len: int) -> int {
        let start = self.selection.first().column;
        let end = self.selection.second().column;
        larger(start + (end - start) / 2 - len / 2, 0)
    }

    /// The value of the selected part of a line, centered next to it.
    pub open spec fn value(self, frame: Frame, text: Seq<char>) -> Frame {
        let shown = seq!['=', ' '] + text;
        if self.is_shown(self.selection.first().row as int) {
            let x = self.left() + self.value_x(shown.len() as int);
            frame.set_color(Layer::AboveText, 0xAAFFAA_FF).draw_rect(
                Layer::AboveText,
                x,
                self.value_y(),
                shown.len() as int,
                1,
            ).set_color(Layer::AboveText, 0x000000_FF).draw_string(
                Layer::AboveText,
                x,
                self.value_y(),
                shown,
            )
        } else {
            frame
        }
    }

    pub open spec fn first_visible(self) -> int {
        larger(self.selection.first().row as int, self.gr.scroll_y as int)
    }

    pub open spec fn last_visible(self) -> int {
        smaller(self.selection.second().row as int, self.gr.scroll_y + self.gr.client_height - 1)
    }

    pub open spec fn sum_x(self) -> int {
        let start = self.selection.first().row as int;
        let end = self.selection.second().row as int;
        self.left() + longest_line(self.lines, start, end - start + 1) + 3
    }

    /// The sum of the selected lines, after a brace right of the longest line.
    pub open spec fn sum(self, frame: Frame, text: Seq<char>) -> Frame {
        let shown = seq!['⎬', ' ', '∑', ' ', '=', ' '] + text;
        let x = self.sum_x();
        let top = self.render_y(self.first_visible());
        let bottom = self.render_y(self.last_visible());
        let with_ends = frame.set_color(Layer::AboveText, 0xAAFFAA_FF).draw_rect(
            Layer::AboveText,
            x,
            top,
            (shown.len() + 1) as int,
            bottom - top + 1,
        ).set_color(Layer::AboveText, 0x000000_FF).draw_char(
            Layer::AboveText,
            x,
            top,
            if self.first_visible() == self.selection.first().row {
                '⎫'
            } else {
                '⎪'
            },
        ).draw_char(
            Layer::AboveText,
            x,
            bottom,
            if self.last_visible() == self.selection.second().row {
                '⎭'
            } else {
                '⎪'
            },
        );
        column_drawn(with_ends, x, top + 1, '⎪', bottom - top - 1).draw_string(
            Layer::AboveText,
            x,
            top + (bottom - top) / 2,
            shown,
        )
    }

    /// The selection drawn, with its value where there is one.
    pub open spec fn draw(self, frame: Frame, value: Option<Seq<char>>) -> Frame {
        let colored = frame.set_color(Layer::BehindText, 0xA6D2FF_FF);
        if self.selection.end is None {
            colored
        } else {
            let marked = self.marks(colored);
            match value {
                Some(text) => if self.selection.first().row == self.selection.second().row {
                    self.value(marked, text)
                } else {
                    self.sum(marked, text)
                },
                None => marked,
            }
        }
    }

    /// The selection lies within the text, and what is computed to draw it fits.
    pub open spec fn fits(self, value: Option<Seq<char>>) -> bool {
        let start = self.selection.first();
        let end = self.selection.second();
        self.selection.end is Some ==> {
            &&& end.row < self.lines.len()
            &&& end.row < MAX_LINE_COUNT
            &&& start.column + self.left() <= usize::MAX
            &&& value matches Some(text) ==> if start.row == end.row {
                self.is_shown(start.row as int) ==> {
                    &&& text.len() + 2 <= isize::MAX
                    &&& end.column <= isize::MAX
                    &&& self.left() + self.value_x(text.len() as int + 2) <= usize::MAX
                    &&& 0 <= self.value_y() <= usize::MAX
                }
            } else {
                &&& text.len() + 7 <= usize::MAX
                &&& self.sum_x() <= usize::MAX
                &&& self.gr.client_height >= 1
                &&& self.gr.scroll_y + self.gr.client_height <= usize::MAX
                &&& self.first_visible() < MAX_LINE_COUNT
                &&& self.is_shown(self.first_visible())
                &&& self.is_shown(self.last_visible())
                &&& self.render_y(self.first_visible()) <= self.render_y(self.last_visible())
                &&& self.render_y(self.last_visible()) < usize::MAX
            }
        }
    }
}

pub open spec fn selection_context(
    editor: Editor,
    lines: Seq<Seq<char>>,
    gr: Layout,
) -> SelectionContext {
    SelectionContext { selection: editor.selection, lines, gr }
}

fn draw_selection_mark(
    render_buckets: &mut RenderBuckets,
    gr: &GlobalRenderData,
    row: usize,
    column: usize,
    len: usize,
    Ghost(context): Ghost<SelectionContext>,
)
    requires
        context.gr == gr@,
        row < MAX_LINE_COUNT,
        column + gr.left_gutter_width <= usize::MAX,
    ensures
        final(render_buckets)@ == context.mark(
            old(render_buckets)@,
            row as int,
            column as int,
            len as int,
        ),
{
    let editor_y = EditorY::new(row);
    if let Some(render_y) = gr.get_render_y(editor_y) {
        let height = gr.get_rendered_height(editor_y);
        render_buckets.draw_rect(
            Layer::BehindText,
            column + gr.left_gutter_width,
            render_y,
            if len < gr.current_editor_width {
                len
            } else {
                gr.current_editor_width
            },
            height,
        );
    }
}

fn draw_selection_value(
    render_buckets: &mut RenderBuckets,
    editor: &Editor,
    gr: &GlobalRenderData,
    partial_result: &String,
    Ghost(context): Ghost<SelectionContext>,
)
    requires
        context.gr == gr@,
        context.selection == editor.selection,
        editor.selection.end is Some,
        editor.selection.first().row == editor.selection.second().row,
        context.fits(Some(partial_result@)),
    ensures
        final(render_buckets)@ == context.value(old(render_buckets)@, partial_result@),
{
    let start = editor.get_selection().get_first();
    let end = editor.get_selection().get_second();
    if let Some(start_render_y) = gr.get_render_y(EditorY::new(start.row)) {
        let selection_center: usize = start.column + (end.column - start.column) / 2;
        let mut shown = String::new();
        shown.push('=');
        shown.push(' ');
        shown.append(partial_result.as_str());
        assert(shown@ =~= seq!['=', ' '] + partial_result@);
        let result_w: usize = shown.as_str().unicode_len();
        let centered_x: usize = if selection_center < result_w / 2 {
            0
        } else {
            selection_center - result_w / 2
        };
        render_buckets.set_color(Layer::AboveText, 0xAAFFAA_FF);
        let rect_y = if start.row == 0 {
            start_render_y.add(1)
        } else {
            start_render_y.sub(1)
        };
        render_buckets.draw_rect(
            Layer::AboveText,
            gr.left_gutter_width + centered_x,
            rect_y,
            result_w,
            1,
        );
        render_buckets.set_color(Layer::AboveText, 0x000000_FF);
        render_buckets.draw_string(
            Layer::AboveText,
            gr.left_gutter_width + centered_x,
            rect_y,
            shown,
        );
    }
}

fn longest_selected_line(
    editor_content: &EditorContent<LineData>,
    first: usize,
    last: usize,
) -> (r: usize)
    requires
        first <= last < editor_content.lines@.len(),
    ensures
        r == longest_line(editor_content.text_lines(), first as int, last - first + 1),
{
    let mut max_len: usize = 0;
    let mut row: usize = first;
    let count = editor_content.line_count();
    while row <= last
        invariant
            first <= row <= last + 1,
            last < count,
            count == editor_content.lines@.len(),
            max_len == longest_line(editor_content.text_lines(), first as int, row - first),
        decreases last + 1 - row,
    {
        let len = editor_content.line_len(row);
        if max_len < len {
            max_len = len;
        }
        row += 1;
    }
    max_len
}

fn draw_selection_sum(
    render_buckets: &mut RenderBuckets,
    editor: &Editor,
    editor_content: &EditorContent<LineData>,
    gr: &GlobalRenderData,
    partial_result: &String,
)
    requires
        editor.selection.end is Some,
        editor.selection.first().row < editor.selection.second().row,
        selection_context(*editor, editor_content.text_lines(), gr@).fits(Some(partial_result@)),
    ensures
        final(render_buckets)@ == selection_context(*editor, editor_content.text_lines(), gr@).sum(
            old(render_buckets)@,
            partial_result@,
        ),
{
    let start = editor.get_selection().get_first();
    let end = editor.get_selection().get_second();
    let mut shown = String::new();
    shown.push('⎬');
    shown.push(' ');
    shown.push('∑');
    shown.push(' ');
    shown.push('=');
    shown.push(' ');
    shown.append(partial_result.as_str());
    assert(shown@ =~= seq!['⎬', ' ', '∑', ' ', '=', ' '] + partial_result@);
    let result_w: usize = shown.as_str().unicode_len();
    let longest = longest_selected_line(editor_content, start.row, end.row);
    let x: usize = gr.left_gutter_width + longest + 3;
    let first_visible: usize = if start.row < gr.scroll_y {
        gr.scroll_y
    } else {
        start.row
    };
    let last_on_screen: usize = gr.scroll_y + gr.client_height - 1;
    let last_visible: usize = if end.row < last_on_screen {
        end.row
    } else {
        last_on_screen
    };
    if let (Some(top), Some(bottom)) = (
        gr.get_render_y(EditorY::new(first_visible)),
        gr.get_render_y(EditorY::new(last_visible)),
    ) {
        let inner_height: usize = bottom.as_usize() - top.as_usize();
        render_buckets.set_color(Layer::AboveText, 0xAAFFAA_FF);
        render_buckets.draw_rect(Layer::AboveText, x, top, result_w + 1, inner_height + 1);
        render_buckets.set_color(Layer::AboveText, 0x000000_FF);
        render_buckets.draw_char(
            Layer::AboveText,
            x,
            top,
            if first_visible == start.row {
                '⎫'
            } else {
                '⎪'
            },
        );
        render_buckets.draw_char(
            Layer::AboveText,
            x,
            bottom,
            if last_visible == end.row {
                '⎭'
            } else {
                '⎪'
            },
        );
        let ghost with_ends = render_buckets@;
        let mut i: usize = 1;
        while i < inner_height
            invariant
                1 <= i,
                i <= larger(inner_height as int, 1),
                inner_height == bottom.0 - top.0,
                render_buckets@ == column_drawn(
                    with_ends,
                    x as int,
                    top.0 + 1,
                    '⎪',
                    i - 1,
                ),
            decreases inner_height - i,
        {
            render_buckets.draw_char(Layer::AboveText, x, top.add(i), '⎪');
            i += 1;
        }
        render_buckets.draw_string(Layer::AboveText, x, top.add(inner_height / 2), shown);
    }
}

impl NoteCalcApp {
    /// Marks what is selected, and shows its value where there is one: that of
    /// the selected part of a line next to it, that of several lines after a
    /// brace.
    pub fn render_selection_and_its_sum<'text_ptr>(
        render_buckets: &mut RenderBuckets<'text_ptr>,
        editor: &Editor,
        editor_content: &EditorContent<LineData>,
        gr: &GlobalRenderData,
        partial_result: &Option<String>,
    )
        requires
            selection_context(*editor, editor_content.text_lines(), gr@).fits(
                text_view(*partial_result),
            ),
        ensures
            final(render_buckets)@ == selection_context(
                *editor,
                editor_content.text_lines(),
                gr@,
            ).draw(
                old(render_buckets)@,
                text_view(*partial_result),
            ),
    {
        let ghost context = selection_context(*editor, editor_content.text_lines(), gr@);
        render_buckets.set_color(Layer::BehindText, 0xA6D2FF_FF);
        let sel = editor.get_selection();
        if sel.is_range() {
            let start = sel.get_first();
            let end = sel.get_second();
            if end.row > start.row {
                let len = editor_content.line_len(start.row);
                draw_selection_mark(
                    render_buckets,
                    gr,
                    start.row,
                    start.column,
                    len,
                    Ghost(context),
                );
                let ghost first_line = render_buckets@;
                let mut i: usize = start.row + 1;
                while i < end.row
                    invariant
                        start.row + 1 <= i <= end.row,
                        end.row < MAX_LINE_COUNT,
                        end.row < editor_content.lines@.len(),
                        context == selection_context(*editor, editor_content.text_lines(), gr@),
                        render_buckets@ == context.mark_lines(
                            first_line,
                            start.row + 1,
                            i - start.row - 1,
                        ),
                    decreases end.row - i,
                {
                    let len = editor_content.line_len(i);
                    draw_selection_mark(render_buckets, gr, i, 0, len, Ghost(context));
                    i += 1;
                }
                draw_selection_mark(
                    render_buckets,
                    gr,
                    end.row,
                    0,
                    end.column,
                    Ghost(context),
                );
            } else {
                draw_selection_mark(
                    render_buckets,
                    gr,
                    start.row,
                    start.column,
                    end.column - start.column,
                    Ghost(context),
                );
            }
            if let Some(partial_result) = partial_result {
                if start.row == end.row {
                    draw_selection_value(
                        render_buckets,
                        editor,
                        gr,
                        partial_result,
                        Ghost(context),
                    );
                } else {
                    draw_selection_sum(
                        render_buckets,
                        editor,
                        editor_content,
                        gr,
                        partial_result,
                    );
                }
            }
        }
    }
}

} // verus!
