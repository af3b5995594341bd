use vstd::prelude::*;
use vstd::slice::slice_subrange;

use crate::app::{NoteCalcApp, RIGHT_GUTTER_WIDTH};
use crate::buckets::{Frame, Layer, RenderBuckets};
use crate::canvas::{canvas_wf, frame_on, frame_written, Canvas, CANVAS_WIDTH};
use crate::content::LineData;
use crate::coords::{EditorY, RenderPosY};
use crate::editor::Editor;
use crate::line_render::{lemma_draw_stays_in_line, line_context, LineContext, LineState};
use crate::matrix_editing::MatrixEditing;
use crate::matrix_layout::larger;
use crate::objects::EditorObject;
use crate::render_data::{
    law_row_height_covers_every_part, references_exist, row_height, GlobalRenderData, Layout,
    PerLineRenderData,
};
use crate::result_render::{results_context, ResultsContext};
use crate::results::{LineResult, Precision, Results, Variable};
use crate::row_flags::{EditorRowFlags, MAX_LINE_COUNT};
use crate::selection_render::column_drawn;
use crate::tokens::Token;

verus! {

/// A row without the blanks at its end.
pub open spec fn trimmed(row: Seq<char>) -> Seq<char>
    decreases row.len(),
{
    if row.len() > 0 && row.last() == ' ' {
        trimmed(row.drop_last())
    } else {
        row
    }
}

/// The length of the longest row, without the blanks at the ends.
pub open spec fn longest_row(canvas: Seq<Seq<char>>) -> int
    decreases canvas.len(),
{
    if canvas.len() == 0 {
        0
    } else {
        larger(longest_row(canvas.drop_last()), trimmed(canvas.last()).len() as int)
    }
}

/// The rows as lines of text.
pub open spec fn canvas_text(canvas: Seq<Seq<char>>) -> Seq<char>
    decreases canvas.len(),
{
    if canvas.len() == 0 {
        Seq::empty()
    } else {
        (canvas_text(canvas.drop_last()) + trimmed(canvas.last())).push('\n')
    }
}

pub open spec fn blank_canvas(height: int) -> Seq<Seq<char>> {
    Seq::new(height as nat, |i: int| Seq::new(CANVAS_WIDTH as nat, |j: int| ' '))
}

/// The character between the lines and their results.
pub const RESULT_BAR: char = '‖';

/// What the copied text depends on.
pub struct CopyContext<'a> {
    pub editor: Editor,
    pub editing: Option<MatrixEditing>,
    pub data: Seq<LineData>,
    /// The tokens of each line.
    pub tokens: Seq<Seq<Token<'a>>>,
    pub vars: Seq<Variable>,
    pub results: Seq<LineResult>,
}

/// The selected lines that were drawn.
pub struct CopyState {
    pub frame: Frame,
    pub r: PerLineRenderData,
    pub gr: Layout,
}

impl<'a> CopyContext<'a> {
    pub open spec fn first_row(self) -> int {
        self.editor.selection.first().row as int
    }

    pub open spec fn row_count(self) -> int {
        self.editor.selection.second().row - self.editor.selection.first().row + 1
    }

    pub open spec fn line_context(self, gr: Layout) -> LineContext {
        line_context(gr, self.editor, self.editing, self.vars, true, Precision::Full)
    }

    pub open spec fn height_of(self, row: int) -> usize {
        row_height(self.results[row], self.tokens[row], self.vars, None)
    }

    /// The state in which the drawing of a line starts.
    pub open spec fn entered(self, state: CopyState, row: int) -> CopyState {
        let height = self.height_of(row);
        let y = state.r.editor_y.0 as int;
        CopyState {
            r: PerLineRenderData {
                editor_x: 0,
                render_x: 0,
                cursor_render_x_offset: 0,
                rendered_row_height: height,
                vert_align_offset: ((height - 1) / 2) as usize,
                ..state.r
            },
            gr: Layout {
                render_ys: state.gr.render_ys.update(y, Some(state.r.render_y)),
                heights: state.gr.heights.update(y, height),
                ..state.gr
            },
            ..state
        }
    }

    pub open spec fn line_start(self, entered: CopyState) -> LineState {
        LineState { frame: entered.frame, r: entered.r, objects: Seq::empty() }
    }

    pub open spec fn step(self, state: CopyState, row: int) -> CopyState {
        let entered = self.entered(state, row);
        let drawn = self.line_context(entered.gr).draw(
            self.line_start(entered),
            self.tokens[row],
            0,
        );
        CopyState {
            frame: drawn.frame,
            r: PerLineRenderData {
                render_y: RenderPosY((drawn.r.render_y.0 + self.height_of(row)) as usize),
                editor_y: EditorY((drawn.r.editor_y.0 + 1) as usize),
                ..drawn.r
            },
            gr: entered.gr,
        }
    }

    pub open spec fn step_fits(self, state: CopyState, row: int) -> bool {
        let entered = self.entered(state, row);
        &&& references_exist(self.tokens[row], self.vars.len() as int)
        &&& state.r.render_y.0 + self.height_of(row) <= usize::MAX
        &&& self.line_context(entered.gr).fits(self.line_start(entered), self.tokens[row], 0)
    }

    /// The first `n` selected lines, drawn below each other.
    pub open spec fn draw_rows(self, state: CopyState, n: int) -> CopyState
        decreases n,
    {
        if n <= 0 {
            state
        } else {
            self.step(self.draw_rows(state, n - 1), self.first_row() + n - 1)
        }
    }

    pub open spec fn rows_fit(self, state: CopyState, n: int) -> bool {
        forall|i: int|
            #![trigger self.draw_rows(state, i)]
            0 <= i < n ==> self.step_fits(self.draw_rows(state, i), self.first_row() + i)
    }

    pub open spec fn start(
        self,
        frame: Frame,
        client_width: int,
        result_gutter_x: int,
    ) -> CopyState {
        CopyState {
            frame,
            r: PerLineRenderData {
                editor_x: 0,
                editor_y: EditorY(0),
                render_x: 0,
                render_y: RenderPosY(0),
                rendered_row_height: 0,
                vert_align_offset: 0,
                cursor_render_x_offset: 0,
            },
            gr: Layout {
                client_height: 1000,
                scroll_y: 0,
                result_gutter_x: result_gutter_x as usize,
                left_gutter_width: 0,
                current_editor_width: result_gutter_x as usize,
                current_result_panel_width: (client_width - result_gutter_x
                    - RIGHT_GUTTER_WIDTH) as usize,
                render_ys: Seq::new(MAX_LINE_COUNT as nat, |i: int| None),
                heights: Seq::new(MAX_LINE_COUNT as nat, |i: int| 0),
            },
        }
    }

    /// All selected lines drawn.
    pub open spec fn all_rows(
        self,
        frame: Frame,
        client_width: int,
        result_gutter_x: int,
    ) -> CopyState {
        self.draw_rows(self.start(frame, client_width, result_gutter_x), self.row_count())
    }

    /// The canvas with the selected lines.
    pub open spec fn lines_canvas(self, rows: CopyState) -> Seq<Seq<char>> {
        frame_written(blank_canvas(rows.r.render_y.0 as int), rows.frame)
    }

    /// The results stand after the longest line.
    pub open spec fn gutter_x(self, rows: CopyState) -> int {
        longest_row(self.lines_canvas(rows)) + 2
    }

    pub open spec fn results_context(self, rows: CopyState) -> ResultsContext {
        results_context(
            self.results.subrange(self.first_row(), self.first_row() + self.row_count()),
            self.data,
            rows.gr,
            self.gutter_x(rows) as usize,
            Set::new(|row: int| 0 <= row < MAX_LINE_COUNT),
            Precision::Full,
        )
    }

    /// The results, and the bar before them.
    pub open spec fn results_frame(self, rows: CopyState) -> Frame {
        column_drawn(
            self.results_context(rows).draw(Frame::empty()),
            self.gutter_x(rows),
            0,
            RESULT_BAR,
            rows.r.render_y.0 as int,
        )
    }

    /// The text that is copied: the selected lines, each followed by its result.
    pub open spec fn text(self, rows: CopyState) -> Seq<char> {
        canvas_text(frame_written(self.lines_canvas(rows), self.results_frame(rows)))
    }

    pub open spec fn fits(
        self,
        frame: Frame,
        client_width: int,
        result_gutter_x: int,
        buffer_len: int,
    ) -> bool {
        let rows = self.all_rows(frame, client_width, result_gutter_x);
        let height = rows.r.render_y.0 as int;
        let results = self.results_context(rows);
        &&& self.editor.selection.second().row < self.tokens.len()
        &&& self.editor.selection.second().row < MAX_LINE_COUNT
        &&& self.results.len() == MAX_LINE_COUNT
        &&& result_gutter_x + RIGHT_GUTTER_WIDTH <= client_width
        &&& self.rows_fit(
            self.start(frame, client_width, result_gutter_x),
            self.row_count(),
        )
        &&& frame_on(rows.frame, height)
        &&& results.wf()
        &&& results.fits(results.start(Frame::empty()), 0, buffer_len)
        &&& frame_on(self.results_frame(rows), height)
    }
}

pub open spec fn tokens_of_lines<'a>(line_tokens: Seq<Vec<Token<'a>>>) -> Seq<Seq<Token<'a>>> {
    Seq::new(line_tokens.len(), |i: int| line_tokens[i]@)
}

pub open spec fn copy_context<'a>(
    app: NoteCalcApp,
    line_tokens: Seq<Vec<Token<'a>>>,
    vars: Seq<Variable>,
    results: Results,
) -> CopyContext<'a> {
    CopyContext {
        editor: app.editor,
        editing: app.matrix_editing,
        data: app.editor_content.data@,
        tokens: tokens_of_lines(line_tokens),
        vars,
        results: results.0@,
    }
}

fn trimmed_len(row: &Vec<char>) -> (r: usize)
    ensures
        r == trimmed(row@).len(),
        r <= row@.len(),
        trimmed(row@) == row@.take(r as int),
{
    let mut len: usize = row.len();
    assert(row@.take(len as int) =~= row@);
    while len > 0 && row[len - 1] == ' '
        invariant
            len <= row@.len(),
            trimmed(row@) == trimmed(row@.take(len as int)),
        decreases len,
    {
        assert(row@.take(len as int).drop_last() =~= row@.take(len - 1));
        len -= 1;
    }
    len
}

fn longest_canvas_row(canvas: &Canvas) -> (r: usize)
    requires
        canvas_wf(canvas@),
    ensures
        r == longest_row(canvas@),
        r <= CANVAS_WIDTH,
{
    let mut max_len: usize = 0;
    let mut i: usize = 0;
    while i < canvas.rows.len()
        invariant
            i <= canvas.rows@.len(),
            canvas_wf(canvas@),
            max_len == longest_row(canvas@.take(i as int)),
            max_len <= CANVAS_WIDTH,
        decreases canvas.rows@.len() - i,
    {
        assert(canvas@[i as int] == canvas.rows@[i as int]@);
        let len = trimmed_len(&canvas.rows[i]);
        assert(canvas@.take(i + 1).drop_last() =~= canvas@.take(i as int));
        if len > max_len {
            max_len = len;
        }
        i += 1;
    }
    assert(canvas@.take(i as int) =~= canvas@);
    max_len
}

fn text_of_canvas(canvas: &Canvas) -> (r: String)
    ensures
        r@ == canvas_text(canvas@),
{
    let mut result_str = String::new();
    let mut i: usize = 0;
    while i < canvas.rows.len()
        invariant
            i <= canvas.rows@.len(),
            result_str@ == canvas_text(canvas@.take(i as int)),
        decreases canvas.rows@.len() - i,
    {
        let row = &canvas.rows[i];
        let len = trimmed_len(row);
        let ghost before = result_str@;
        let mut j: usize = 0;
        while j < len
            invariant
                j <= len <= row@.len(),
                result_str@ == before + row@.take(j as int),
            decreases len - j,
        {
            result_str.push(row[j]);
            j += 1;
        }
        result_str.push('\n');
        assert(canvas@.take(i + 1).drop_last() =~= canvas@.take(i as int));
        i += 1;
    }
    assert(canvas@.take(i as int) =~= canvas@);
    result_str
}

impl NoteCalcApp {
    /// The selected lines and their results as text. `line_tokens` holds the
    /// tokens of each line of the text, taken with `vars`.
    pub fn copy_selected_rows_with_result_to_clipboard<'b>(
        &self,
        render_buckets: &mut RenderBuckets<'b>,
        result_buffer: &'b mut [u8],
        line_tokens: &Vec<Vec<Token<'b>>>,
        vars: &[Variable],
        results: &Results,
    ) -> (r: String)
        requires
            self.editor_content.wf(),
            copy_context(*self, line_tokens@, vars@, *results).fits(
                old(render_buckets)@,
                self.client_width as int,
                self.render_data.result_gutter_x as int,
                old(result_buffer)@.len() as int,
            ),
        ensures
            ({
                let context = copy_context(*self, line_tokens@, vars@, *results);
                let rows = context.all_rows(
                    old(render_buckets)@,
                    self.client_width as int,
                    self.render_data.result_gutter_x as int,
                );
                &&& r@ == context.text(rows)
                &&& final(render_buckets)@ == context.results_frame(rows)
                &&& ({
                    let texts = context.results_context(rows).texts(Frame::empty());
                    final(result_buffer)@ == texts + old(result_buffer)@.skip(
                        texts.len() as int,
                    )
                })
            }),
    {
        let ghost context = copy_context(*self, line_tokens@, vars@, *results);
        let ghost start = context.start(
            render_buckets@,
            self.client_width as int,
            self.render_data.result_gutter_x as int,
        );
        let sel = self.editor.get_selection();
        let first_row = sel.get_first().row;
        let second_row = sel.get_second().row;
        let mut gr = GlobalRenderData::new(
            self.client_width,
            1000,
            self.render_data.result_gutter_x,
            0,
            RIGHT_GUTTER_WIDTH,
        );
        let mut r = PerLineRenderData::new();
        let ghost mut state = start;
        let mut row: usize = first_row;
        let mut unused_objects: Vec<EditorObject> = Vec::new();
        while row <= second_row
            invariant
                context == copy_context(*self, line_tokens@, vars@, *results),
                context.first_row() == first_row,
                context.row_count() == second_row - first_row + 1,
                first_row <= row <= second_row + 1,
                second_row < line_tokens@.len(),
                second_row < MAX_LINE_COUNT,
                results.0@.len() == MAX_LINE_COUNT,
                context.rows_fit(start, context.row_count()),
                state == context.draw_rows(start, row - first_row),
                state.frame == render_buckets@,
                state.r == r,
                state.gr == gr@,
                r.editor_y.0 == row - first_row,
                gr@.render_ys.len() == MAX_LINE_COUNT,
                gr@.heights.len() == MAX_LINE_COUNT,
            decreases second_row + 1 - row,
        {
            let ghost i = row - first_row;
            let tokens = line_tokens[row].as_slice();
            r.new_line_started();
            gr.set_render_y(r.editor_y, Some(r.render_y));
            r.rendered_row_height = PerLineRenderData::calc_rendered_row_height(
                &results[EditorY::new(row)],
                tokens,
                vars,
                None,
            );
            proof {
                law_row_height_covers_every_part(results.0@[row as int], tokens@, vars@, None);
            }
            r.vert_align_offset = (r.rendered_row_height - 1) / 2;
            gr.set_rendered_height(r.editor_y, r.rendered_row_height);
            let ghost entered = context.entered(state, row as int);
            proof {
                lemma_draw_stays_in_line(
                    context.line_context(entered.gr),
                    context.line_start(entered),
                    tokens@,
                    0,
                );
            }
            NoteCalcApp::render_tokens(
                tokens,
                &mut r,
                &gr,
                render_buckets,
                &mut unused_objects,
                &self.editor,
                &self.matrix_editing,
                vars,
                true,
                Precision::Full,
            );
            let height = r.rendered_row_height;
            r.line_render_ended(height);
            proof {
                state = context.step(state, row as int);
            }
            row += 1;
        }
        let render_height = r.render_y.as_usize();
        let mut tmp_canvas = Canvas::new(render_height);
        NoteCalcApp::render_buckets_into(render_buckets, &mut tmp_canvas);
        let max_len = longest_canvas_row(&tmp_canvas);
        render_buckets.clear();
        let result_gutter_x: usize = max_len + 2;
        let flags = EditorRowFlags::all_rows_starting_at(0);
        proof {
            assert(flags.rows() =~= Set::new(|row: int| 0 <= row < MAX_LINE_COUNT));
        }
        NoteCalcApp::render_results(
            render_buckets,
            slice_subrange(results.as_slice(), first_row, second_row + 1),
            result_buffer,
            &self.editor_content,
            &gr,
            result_gutter_x,
            flags,
            Precision::Full,
        );
        let ghost with_results = render_buckets@;
        let mut i: usize = 0;
        while i < render_height
            invariant
                i <= render_height,
                render_buckets@ == column_drawn(
                    with_results,
                    result_gutter_x as int,
                    0,
                    RESULT_BAR,
                    i as int,
                ),
            decreases render_height - i,
        {
            render_buckets.draw_char(
                Layer::AboveText,
                result_gutter_x,
                RenderPosY::new(i),
                RESULT_BAR,
            );
            i += 1;
        }
        NoteCalcApp::render_buckets_into(render_buckets, &mut tmp_canvas);
        text_of_canvas(&tmp_canvas)
    }
}

} // verus!
