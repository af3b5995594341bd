use typed_arena::Arena;
use vstd::prelude::*;

use crate::app::{
    NoteCalcApp, RedrawTarget, LEFT_GUTTER_WIDTH, MIN_RESULT_PANEL_WIDTH, RIGHT_GUTTER_WIDTH,
    SCROLL_BAR_WIDTH,
};
use crate::buckets::{Cmd, Frame, Layer, OutputMessage, RenderBuckets};
use crate::content::{EditorContent, LineData};
use crate::coords::{EditorY, RenderPosY};
use crate::editor::Editor;
use crate::external::{
    alloc_chars, rerendered_lines_items, RerenderedLine, RerenderedLines,
};
use crate::line_parts::{
    chooser_drawn, cursor_drawn, cursor_fits, highlight_drawn, prefix_drawn, simple_len,
    simple_line_done, simple_line_drawn, wrap_dots_drawn,
};
use crate::line_render::{
    can_advance, lemma_draw_stays_in_line, line_context, LineContext, LineState,
};
use crate::matrix_editing::MatrixEditing;
use crate::matrix_layout::smaller;
use crate::objects::{EditorObject, EditorObjectType, EditorObjects};
use crate::render_data::{GlobalRenderData, Layout, PerLineRenderData};
use crate::result_render::{results_context, ResultsContext};
use crate::results::{LineResult, Precision, Results, Variable};
use crate::row_flags::{EditorRowFlags, MAX_LINE_COUNT};
use crate::selection_render::{selection_context, SelectionContext};
use crate::selection_sum::text_view;
use crate::tokens::{AppTokens, Tokens};

verus! {

/// The number of a line as it is shown: two characters, aligned to the right.
pub open spec fn line_number_text(y: int) -> Seq<char> {
    let number = y + 1;
    seq![
        if number < 10 {
            ' '
        } else {
            digit_char(number / 10)
        },
        digit_char(number % 10),
    ]
}

pub open spec fn digit_char(digit: int) -> char {
    (48 + digit) as char
}

/// The marks behind the references to other lines.
pub open spec fn reference_marks(
    frame: Frame,
    objects: Seq<EditorObject>,
    r: PerLineRenderData,
    left: int,
    n: int,
) -> Frame
    decreases n,
{
    if n <= 0 {
        frame
    } else {
        let before = reference_marks(frame, objects, r, left, n - 1);
        let object = objects[n - 1];
        if object.typ == EditorObjectType::LineReference {
            before.set_color(Layer::BehindText, 0xFFCCCC_FF).draw_rect(
                Layer::BehindText,
                left + object.rendered_x,
                object.rendered_y.0 + (r.rendered_row_height - object.rendered_h) / 2,
                object.rendered_w as int,
                object.rendered_h as int,
            )
        } else {
            before
        }
    }
}

pub open spec fn reference_marks_fit(
    objects: Seq<EditorObject>,
    r: PerLineRenderData,
    left: int,
) -> bool {
    forall|i: int|
        0 <= i < objects.len() && (#[trigger] objects[i]).typ == EditorObjectType::LineReference
            ==> {
            &&& objects[i].rendered_h <= r.rendered_row_height
            &&& left + objects[i].rendered_x <= usize::MAX
            &&& objects[i].rendered_y.0 + r.rendered_row_height <= usize::MAX
        }
}

/// What the drawing of the lines depends on.
pub struct FrameContext<'a> {
    pub editor: Editor,
    pub lines: Seq<Seq<char>>,
    pub data: Seq<LineData>,
    pub editing: Option<MatrixEditing>,
    pub chooser: Option<EditorY>,
    /// The lines whose text is drawn again.
    pub editor_flags: EditorRowFlags,
    /// The lines whose result is drawn again.
    pub result_flags: EditorRowFlags,
    pub tokens: Seq<Option<Tokens<'a>>>,
    pub vars: Seq<Variable>,
    pub results: Seq<LineResult>,
    /// The text of the value of what is selected, if there is one.
    pub selected: Option<Seq<char>>,
}

/// The lines that were drawn.
#[verifier::ext_equal]
pub struct FrameState {
    pub frame: Frame,
    pub r: PerLineRenderData,
    pub gr: Layout,
    pub objects: Seq<Seq<EditorObject>>,
    pub rerendered: Seq<RerenderedLine>,
}

impl<'a> FrameContext<'a> {
    pub open spec fn is_visible(self, gr: Layout, y: int) -> bool {
        gr.scroll_y <= y < gr.scroll_y + gr.client_height
    }

    /// Which parts of the line are drawn again, if any.
    pub open spec fn target(self, y: int) -> Option<RedrawTarget> {
        if self.editor_flags.has(y) && self.result_flags.has(y) {
            Some(RedrawTarget::Both)
        } else if self.result_flags.has(y) {
            Some(RedrawTarget::ResultArea)
        } else if self.editor_flags.has(y) {
            Some(RedrawTarget::EditorArea)
        } else {
            None
        }
    }

    /// Matrices and references are drawn as such, except in selected lines.
    pub open spec fn as_objects(self, y: int) -> bool {
        let selection = self.editor.selection;
        selection.end is None || !(selection.first().row <= y <= selection.second().row)
    }

    pub open spec fn line_context(self, gr: Layout, y: int) -> LineContext {
        line_context(
            gr,
            self.editor,
            self.editing,
            self.vars,
            self.as_objects(y),
            Precision::Four,
        )
    }

    pub open spec fn line_start(self, frame: Frame, r: PerLineRenderData) -> LineState {
        LineState { frame, r, objects: Seq::empty() }
    }

    /// The text of the line drawn: by its tokens, or as plain text without any.
    pub open spec fn draw_text(self, state: FrameState, y: int) -> FrameState {
        let lit = highlight_drawn(
            state.frame,
            state.r,
            self.editor.selection,
            state.gr.result_gutter_x as int,
        );
        match self.tokens[y] {
            Some(tokens) => {
                let drawn = self.line_context(state.gr, y).draw(
                    self.line_start(lit, state.r),
                    tokens.tokens@,
                    0,
                );
                FrameState {
                    frame: reference_marks(
                        drawn.frame,
                        drawn.objects,
                        drawn.r,
                        state.gr.left_gutter_width as int,
                        drawn.objects.len() as int,
                    ),
                    r: drawn.r,
                    objects: state.objects.update(y, drawn.objects),
                    ..state
                }
            },
            None => FrameState {
                frame: simple_line_drawn(lit, self.lines[y], state.r, state.gr),
                r: simple_line_done(self.lines[y], state.r, state.gr),
                gr: Layout { heights: state.gr.heights.update(y, 1), ..state.gr },
                ..state
            },
        }
    }

    pub open spec fn text_fits(self, state: FrameState, y: int) -> bool {
        let lit = highlight_drawn(
            state.frame,
            state.r,
            self.editor.selection,
            state.gr.result_gutter_x as int,
        );
        match self.tokens[y] {
            Some(tokens) => {
                let drawn = self.line_context(state.gr, y).draw(
                    self.line_start(lit, state.r),
                    tokens.tokens@,
                    0,
                );
                &&& self.line_context(state.gr, y).fits(
                    self.line_start(lit, state.r),
                    tokens.tokens@,
                    0,
                )
                &&& reference_marks_fit(
                    drawn.objects,
                    drawn.r,
                    state.gr.left_gutter_width as int,
                )
            },
            None => {
                let len = simple_len(self.lines[y], state.gr);
                can_advance(state.r, len, len, 0)
            },
        }
    }

    /// The gutter before the result of the line.
    pub open spec fn gutter(self, frame: Frame, gr: Layout, y: int, h: int) -> Frame {
        frame.set_color(Layer::BehindText, 0xD2D2D2_FF).draw_rect(
            Layer::BehindText,
            gr.result_gutter_x as int,
            y,
            RIGHT_GUTTER_WIDTH as int,
            h,
        )
    }

    /// The number of the line on its background; that of the cursor's line stands out.
    pub open spec fn line_number(
        self,
        frame: Frame,
        gr: Layout,
        r: PerLineRenderData,
        y: int,
    ) -> Frame {
        let h = r.rendered_row_height as int;
        frame.set_color(Layer::BehindText, 0xF2F2F2_FF).draw_rect(
            Layer::BehindText,
            0,
            r.render_y.0 as int,
            gr.left_gutter_width as int,
            h,
        ).set_color(
            Layer::Text,
            if y == self.editor.selection.cursor().row {
                0x000000_FFu32
            } else {
                0xADADAD_FFu32
            },
        ).draw_text(
            Layer::Text,
            1,
            r.render_y.0 + (h - 1) / 2,
            line_number_text(y),
        )
    }

    /// The line drawn with everything around it.
    pub open spec fn draw_editor_area(self, state: FrameState, y: int) -> FrameState {
        let text = self.draw_text(state, y);
        let gr = text.gr;
        let r = text.r;
        let dotted = wrap_dots_drawn(text.frame, r, gr);
        let chosen = chooser_drawn(dotted, r, gr, self.chooser, gr.result_gutter_x as int);
        let with_cursor = cursor_drawn(chosen, r, gr, self.editor, self.editing is Some);
        let prefixed = prefix_drawn(
            with_cursor,
            self.data[y].result_format,
            r,
            gr.result_gutter_x as int,
        );
        FrameState {
            frame: self.line_number(
                self.gutter(
                    prefixed,
                    gr,
                    r.render_y.0 as int,
                    r.rendered_row_height as int,
                ),
                gr,
                r,
                y,
            ),
            ..text
        }
    }

    /// The place of the line's result made ready.
    pub open spec fn draw_result_area(self, state: FrameState, y: int) -> FrameState {
        let gr = state.gr;
        let r = state.r;
        let prefixed = prefix_drawn(
            state.frame,
            self.data[y].result_format,
            r,
            gr.result_gutter_x as int,
        );
        let on_background = prefixed.set_color(Layer::BehindText, 0xF2F2F2_FF).draw_rect(
            Layer::BehindText,
            gr.result_gutter_x + RIGHT_GUTTER_WIDTH,
            r.render_y.0 as int,
            gr.current_result_panel_width as int,
            r.rendered_row_height as int,
        );
        FrameState {
            frame: self.gutter(
                on_background,
                gr,
                r.render_y.0 as int,
                r.rendered_row_height as int,
            ),
            ..state
        }
    }

    /// The state in which the drawing of a visible line starts.
    pub open spec fn entered(self, state: FrameState, y: int) -> FrameState {
        let height = state.gr.heights[y];
        FrameState {
            r: PerLineRenderData {
                editor_x: 0,
                render_x: 0,
                cursor_render_x_offset: 0,
                rendered_row_height: height,
                vert_align_offset: ((height - 1) / 2) as usize,
                ..state.r
            },
            gr: Layout {
                render_ys: state.gr.render_ys.update(y, Some(state.r.render_y)),
                ..state.gr
            },
            rerendered: match self.target(y) {
                Some(target) => state.rerendered.push(
                    RerenderedLine { render_y: state.r.render_y, height, target },
                ),
                None => state.rerendered,
            },
            ..state
        }
    }

    /// The line drawn as far as it has to be drawn again.
    pub open spec fn drawn(self, entered: FrameState, y: int) -> FrameState {
        if self.editor_flags.has(y) {
            self.draw_editor_area(entered, y)
        } else if self.result_flags.has(y) {
            self.draw_result_area(entered, y)
        } else {
            entered
        }
    }

    /// Line `y` gone through. A line that is not on the screen has no place there.
    pub open spec fn step(self, state: FrameState, y: int) -> FrameState {
        if self.is_visible(state.gr, y) {
            let done = self.drawn(self.entered(state, y), y);
            FrameState {
                r: PerLineRenderData {
                    render_y: RenderPosY((done.r.render_y.0 + done.gr.heights[y]) as usize),
                    editor_y: EditorY((done.r.editor_y.0 + 1) as usize),
                    ..done.r
                },
                ..done
            }
        } else {
            FrameState {
                r: PerLineRenderData {
                    editor_x: 0,
                    render_x: 0,
                    cursor_render_x_offset: 0,
                    editor_y: EditorY((state.r.editor_y.0 + 1) as usize),
                    ..state.r
                },
                gr: Layout { render_ys: state.gr.render_ys.update(y, None), ..state.gr },
                ..state
            }
        }
    }

    pub open spec fn step_fits(self, state: FrameState, y: int) -> bool {
        self.is_visible(state.gr, y) ==> {
            let entered = self.entered(state, y);
            &&& state.gr.heights[y] >= 1
            &&& state.r.render_y.0 + state.gr.heights[y] <= usize::MAX
            &&& self.editor_flags.has(y) ==> {
                let text = self.draw_text(entered, y);
                &&& self.text_fits(entered, y)
                &&& cursor_fits(text.r, text.gr, self.editor)
            }
        }
    }

    /// The first `n` lines gone through.
    pub open spec fn draw_lines(self, state: FrameState, n: int) -> FrameState
        decreases n,
    {
        if n <= 0 {
            state
        } else {
            self.step(self.draw_lines(state, n - 1), n - 1)
        }
    }

    pub open spec fn lines_fit(self, state: FrameState, n: int) -> bool {
        forall|y: int|
            #![trigger self.draw_lines(state, y)]
            0 <= y < n ==> self.step_fits(self.draw_lines(state, y), y)
    }

    pub open spec fn line_limit(self) -> int {
        smaller(self.lines.len() as int, MAX_LINE_COUNT as int)
    }
}

/// The widths of the screen can be summed up.
pub open spec fn layout_fits(gr: Layout) -> bool {
    &&& gr.render_ys.len() == MAX_LINE_COUNT
    &&& gr.heights.len() == MAX_LINE_COUNT
    &&& gr.result_gutter_x >= SCROLL_BAR_WIDTH
    &&& gr.result_gutter_x + RIGHT_GUTTER_WIDTH + MIN_RESULT_PANEL_WIDTH <= usize::MAX
    &&& gr.result_gutter_x + RIGHT_GUTTER_WIDTH + gr.current_result_panel_width <= usize::MAX
    &&& gr.current_result_panel_width + gr.current_editor_width + gr.left_gutter_width
        + SCROLL_BAR_WIDTH + RIGHT_GUTTER_WIDTH <= usize::MAX
    &&& gr.scroll_y + gr.client_height <= usize::MAX
}

/// How tall the handle of the scroll bar is.
pub open spec fn scroll_bar_height(client_height: int, line_count: int) -> int {
    client_height - smaller(line_count - client_height, client_height - 1)
}

/// The scroll bar, where not all lines are on the screen.
pub open spec fn scroll_bar_drawn(frame: Frame, gr: Layout, line_count: int) -> Frame {
    if gr.client_height < line_count {
        frame.set_color(Layer::BehindText, 0xFFCCCC_FF).draw_rect(
            Layer::BehindText,
            gr.result_gutter_x - SCROLL_BAR_WIDTH,
            gr.scroll_y as int,
            SCROLL_BAR_WIDTH as int,
            scroll_bar_height(gr.client_height as int, line_count),
        )
    } else {
        frame
    }
}

/// The first commands that clear: all of the scroll bar's place.
pub open spec fn scroll_bar_cleared(frame: Frame, gr: Layout) -> Frame {
    frame.clear_cmd(Cmd::SetColor(0xFFFFFF_FF)).clear_cmd(
        Cmd::Rect {
            x: gr.result_gutter_x - SCROLL_BAR_WIDTH,
            y: 0,
            w: SCROLL_BAR_WIDTH as int,
            h: gr.client_height as int,
        },
    )
}

/// Everything between the line numbers and the right edge.
pub open spec fn full_width(gr: Layout) -> int {
    gr.current_result_panel_width + gr.current_editor_width + gr.left_gutter_width
        + SCROLL_BAR_WIDTH + RIGHT_GUTTER_WIDTH
}

pub open spec fn target_x(gr: Layout, target: RedrawTarget) -> int {
    match target {
        RedrawTarget::Both => LEFT_GUTTER_WIDTH as int,
        RedrawTarget::EditorArea => LEFT_GUTTER_WIDTH as int,
        RedrawTarget::ResultArea => gr.result_gutter_x as int,
    }
}

pub open spec fn target_width(gr: Layout, target: RedrawTarget) -> int {
    match target {
        RedrawTarget::Both => full_width(gr),
        RedrawTarget::EditorArea => gr.current_editor_width as int,
        RedrawTarget::ResultArea => gr.current_result_panel_width + RIGHT_GUTTER_WIDTH,
    }
}

/// The lines that are drawn again are cleared before, and pulse after.
pub open spec fn pulses_drawn(
    frame: Frame,
    gr: Layout,
    lines: Seq<RerenderedLine>,
    n: int,
) -> Frame
    decreases n,
{
    if n <= 0 {
        frame
    } else {
        let line = lines[n - 1];
        let x = target_x(gr, line.target);
        let y = line.render_y.0 as int;
        let w = target_width(gr, line.target);
        let h = line.height as int;
        pulses_drawn(frame, gr, lines, n - 1).on(
            Layer::AboveText,
            Cmd::Pulse {
                x,
                y,
                w,
                h,
                start_color: 0xFF88FF_11,
                end_color: 0xFFFFFF_00,
                millis: 200,
            },
        ).clear_cmd(Cmd::Rect { x, y, w, h })
    }
}

/// The rows that lines which no longer exist still take on the screen: the
/// first of them, and how many there are. `at` is the line looked at, `found`
/// what the lines before it take.
pub open spec fn leftover_rows(gr: Layout, at: int, found: Option<(RenderPosY, int)>) -> Option<
    (RenderPosY, int),
>
    decreases MAX_LINE_COUNT - at,
{
    if at >= MAX_LINE_COUNT {
        found
    } else {
        match gr.render_ys[at] {
            Some(render_y) => leftover_rows(
                gr,
                at + 1,
                match found {
                    Some((y, h)) => Some((y, h + gr.heights[at])),
                    None => Some((render_y, gr.heights[at] as int)),
                },
            ),
            None => if found is Some {
                found
            } else {
                leftover_rows(gr, at + 1, found)
            },
        }
    }
}

/// The screen without the lines that no longer exist.
pub open spec fn leftover_removed(gr: Layout, at: int, found: bool) -> Layout
    decreases MAX_LINE_COUNT - at,
{
    if at >= MAX_LINE_COUNT {
        gr
    } else {
        match gr.render_ys[at] {
            Some(_) => leftover_removed(
                Layout { render_ys: gr.render_ys.update(at, None), ..gr },
                at + 1,
                true,
            ),
            None => if found {
                gr
            } else {
                leftover_removed(gr, at + 1, found)
            },
        }
    }
}

/// The rows of lines that no longer exist, cleared.
pub open spec fn leftover_cleared(
    frame: Frame,
    gr: Layout,
    leftover: Option<(RenderPosY, int)>,
) -> Frame {
    match leftover {
        Some((render_y, h)) => {
            let y = render_y.0 as int;
            frame.clear_cmd(
                Cmd::Rect { x: LEFT_GUTTER_WIDTH as int, y, w: full_width(gr), h },
            ).set_color(Layer::BehindText, 0xF2F2F2_FF).draw_rect(
                Layer::BehindText,
                0,
                y,
                gr.left_gutter_width as int,
                h,
            ).set_color(Layer::BehindText, 0xD2D2D2_FF).draw_rect(
                Layer::BehindText,
                gr.result_gutter_x as int,
                y,
                RIGHT_GUTTER_WIDTH as int,
                h,
            )
        },
        None => frame,
    }
}

impl<'a> FrameContext<'a> {
    pub open spec fn start(
        self,
        frame: Frame,
        gr: Layout,
        objects: Seq<Seq<EditorObject>>,
    ) -> FrameState {
        FrameState {
            frame: scroll_bar_drawn(frame, gr, self.lines.len() as int),
            r: PerLineRenderData {
                editor_x: 0,
                editor_y: EditorY(0),
                render_x: 0,
                render_y: RenderPosY(0),
                rendered_row_height: 0,
                vert_align_offset: 0,
                cursor_render_x_offset: 0,
            },
            gr,
            objects,
            rerendered: Seq::empty(),
        }
    }

    /// All lines gone through.
    pub open spec fn all_lines(
        self,
        frame: Frame,
        gr: Layout,
        objects: Seq<Seq<EditorObject>>,
    ) -> FrameState {
        self.draw_lines(self.start(frame, gr, objects), self.line_limit())
    }

    pub open spec fn selection_context(self, gr: Layout) -> SelectionContext {
        selection_context(self.editor, self.lines, gr)
    }

    pub open spec fn results_context(self, gr: Layout) -> ResultsContext {
        results_context(
            self.results,
            self.data,
            gr,
            gr.result_gutter_x,
            self.result_flags.rows(),
            Precision::Four,
        )
    }

    /// With the selection, after the lines.
    pub open spec fn with_selection(self, lines: FrameState) -> Frame {
        self.selection_context(lines.gr).draw(
            scroll_bar_cleared(lines.frame, lines.gr),
            self.selected,
        )
    }

    /// The whole frame, after the lines.
    pub open spec fn completed(self, lines: FrameState) -> Frame {
        let with_results = self.results_context(lines.gr).draw(self.with_selection(lines));
        let pulsing = pulses_drawn(
            with_results,
            lines.gr,
            lines.rerendered,
            lines.rerendered.len() as int,
        );
        leftover_cleared(
            pulsing,
            lines.gr,
            leftover_rows(lines.gr, self.lines.len() as int, None),
        )
    }

    /// What the drawing relies on: a text with its values, and numbers that fit.
    pub open spec fn fits(
        self,
        frame: Frame,
        gr: Layout,
        objects: Seq<Seq<EditorObject>>,
        buffer_len: int,
    ) -> bool {
        let lines = self.all_lines(frame, gr, objects);
        let results = self.results_context(lines.gr);
        &&& self.lines.len() >= 1
        &&& self.data.len() == self.lines.len()
        &&& self.tokens.len() == MAX_LINE_COUNT
        &&& objects.len() == MAX_LINE_COUNT
        &&& layout_fits(gr)
        &&& gr.client_height < self.lines.len() ==> gr.client_height >= 1
        &&& self.lines_fit(self.start(frame, gr, objects), self.line_limit())
        &&& self.selection_context(lines.gr).fits(self.selected)
        &&& results.wf()
        &&& results.fits(results.start(self.with_selection(lines)), 0, buffer_len)
        &&& leftover_rows(lines.gr, self.lines.len() as int, None) matches Some((y, h)) ==> h
            <= usize::MAX
    }
}

fn digit_to_char(digit: usize) -> (r: char)
    requires
        digit < 10,
    ensures
        r == digit_char(digit as int),
{
    let code: u8 = 48 + digit as u8;
    code as char
}

fn render_scroll_bar(render_buckets: &mut RenderBuckets, gr: &GlobalRenderData, line_count: usize)
    requires
        gr.result_gutter_x >= SCROLL_BAR_WIDTH,
        gr.client_height < line_count ==> gr.client_height >= 1,
    ensures
        final(render_buckets)@ == scroll_bar_drawn(
            old(render_buckets)@,
            gr@,
            line_count as int,
        ),
{
    if gr.client_height < line_count {
        let hidden: usize = line_count - gr.client_height;
        let scroll_bar_h: usize = gr.client_height - if hidden < gr.client_height - 1 {
            hidden
        } else {
            gr.client_height - 1
        };
        render_buckets.set_color(Layer::BehindText, 0xFFCCCC_FF);
        render_buckets.draw_rect(
            Layer::BehindText,
            gr.result_gutter_x - SCROLL_BAR_WIDTH,
            RenderPosY::new(gr.scroll_y),
            SCROLL_BAR_WIDTH,
            scroll_bar_h,
        );
    }
}

fn render_reference_marks(
    render_buckets: &mut RenderBuckets,
    objects: &Vec<EditorObject>,
    r: &PerLineRenderData,
    left_gutter_width: usize,
)
    requires
        reference_marks_fit(objects@, *r, left_gutter_width as int),
    ensures
        final(render_buckets)@ == reference_marks(
            old(render_buckets)@,
            objects@,
            *r,
            left_gutter_width as int,
            objects@.len() as int,
        ),
{
    let ghost before = render_buckets@;
    let mut i: usize = 0;
    while i < objects.len()
        invariant
            i <= objects@.len(),
            reference_marks_fit(objects@, *r, left_gutter_width as int),
            render_buckets@ == reference_marks(
                before,
                objects@,
                *r,
                left_gutter_width as int,
                i as int,
            ),
        decreases objects@.len() - i,
    {
        let editor_obj = objects[i];
        if editor_obj.typ == EditorObjectType::LineReference {
            let vert_align_offset = (r.rendered_row_height - editor_obj.rendered_h) / 2;
            render_buckets.set_color(Layer::BehindText, 0xFFCCCC_FF);
            render_buckets.draw_rect(
                Layer::BehindText,
                left_gutter_width + editor_obj.rendered_x,
                editor_obj.rendered_y.add(vert_align_offset),
                editor_obj.rendered_w,
                editor_obj.rendered_h,
            );
        }
        i += 1;
    }
}

/// Draws the text of a line, the marks around it, and its number.
fn render_editor_area<'a>(
    editor: &Editor,
    editor_content: &EditorContent<LineData>,
    matrix_editing: &Option<MatrixEditing>,
    line_reference_chooser: &Option<EditorY>,
    render_buckets: &mut RenderBuckets<'a>,
    r: &mut PerLineRenderData,
    gr: &mut GlobalRenderData,
    allocator: &'a Arena<char>,
    tokens: &AppTokens<'a>,
    vars: &[Variable],
    editor_objs: &mut EditorObjects,
    Ghost(context): Ghost<FrameContext<'a>>,
    Ghost(state): Ghost<FrameState>,
)
    requires
        context.editor == *editor,
        context.lines == editor_content.text_lines(),
        context.data == editor_content.data@,
        context.editing == *matrix_editing,
        context.chooser == *line_reference_chooser,
        context.tokens == tokens.0@,
        context.vars == vars@,
        editor_content.wf(),
        tokens.wf(),
        old(editor_objs).wf(),
        old(r).editor_y.0 < editor_content.lines@.len(),
        old(r).editor_y.0 < MAX_LINE_COUNT,
        state.frame == old(render_buckets)@,
        state.r == *old(r),
        state.gr == old(gr)@,
        state.objects == old(editor_objs)@,
        layout_fits(old(gr)@),
        old(r).rendered_row_height >= 1,
        old(r).render_y.0 + old(r).rendered_row_height <= usize::MAX,
        context.text_fits(state, old(r).editor_y.0 as int),
        ({
            let text = context.draw_text(state, old(r).editor_y.0 as int);
            cursor_fits(text.r, text.gr, *editor)
        }),
    ensures
        ({
            let done = context.draw_editor_area(state, old(r).editor_y.0 as int);
            &&& final(render_buckets)@ == done.frame
            &&& *final(r) == done.r
            &&& final(gr)@ == done.gr
            &&& final(editor_objs)@ == done.objects
        }),
        final(editor_objs).wf(),
        final(r).editor_y == old(r).editor_y,
        final(r).render_y == old(r).render_y,
        layout_fits(final(gr)@),
{
    let editor_y = r.editor_y;
    let ghost y = editor_y.0 as int;
    let y_index = editor_y.as_usize();
    NoteCalcApp::highlight_current_line(render_buckets, r, editor, gr.result_gutter_x);
    let ghost lit = render_buckets@;
    if let Some(tokens) = &tokens[editor_y] {
        let sel = editor.get_selection();
        let need_matrix_renderer = !sel.is_range() || {
            let first = sel.get_first();
            let second = sel.get_second();
            !(first.row <= y_index && y_index <= second.row)
        };
        let ghost line_state = context.line_start(lit, *r);
        proof {
            lemma_draw_stays_in_line(
                context.line_context(state.gr, y),
                line_state,
                tokens.tokens@,
                0,
            );
        }
        let mut line_objs: Vec<EditorObject> = Vec::new();
        NoteCalcApp::render_tokens(
            tokens.tokens.as_slice(),
            r,
            gr,
            render_buckets,
            &mut line_objs,
            editor,
            matrix_editing,
            vars,
            need_matrix_renderer,
            Precision::Four,
        );
        render_reference_marks(render_buckets, &line_objs, r, gr.left_gutter_width);
        *editor_objs.line_mut(editor_y) = line_objs;
    } else {
        let line = editor_content.get_line_valid_chars(y_index);
        NoteCalcApp::render_simple_text_line(line, r, gr, render_buckets, allocator);
    }
    NoteCalcApp::render_wrap_dots(render_buckets, r, gr);
    NoteCalcApp::draw_line_ref_chooser(
        render_buckets,
        r,
        gr,
        line_reference_chooser,
        gr.result_gutter_x,
    );
    NoteCalcApp::draw_cursor(render_buckets, r, gr, editor, matrix_editing);
    NoteCalcApp::draw_right_gutter_num_prefixes(
        render_buckets,
        gr.result_gutter_x,
        editor_content,
        r,
    );
    render_buckets.set_color(Layer::BehindText, 0xD2D2D2_FF);
    render_buckets.draw_rect(
        Layer::BehindText,
        gr.result_gutter_x,
        r.render_y,
        RIGHT_GUTTER_WIDTH,
        r.rendered_row_height,
    );
    render_buckets.set_color(Layer::BehindText, 0xF2F2F2_FF);
    render_buckets.draw_rect(
        Layer::BehindText,
        0,
        r.render_y,
        gr.left_gutter_width,
        r.rendered_row_height,
    );
    if y_index == editor.get_selection().get_cursor_pos().row {
        render_buckets.set_color(Layer::Text, 0x000000_FF);
    } else {
        render_buckets.set_color(Layer::Text, 0xADADAD_FF);
    }
    let vert_align_offset = (r.rendered_row_height - 1) / 2;
    let number: usize = y_index + 1;
    let number_chars: [char; 2] = [
        if number < 10 {
            ' '
        } else {
            digit_to_char(number / 10)
        },
        digit_to_char(number % 10),
    ];
    render_buckets.draw_text(
        Layer::Text,
        1,
        r.render_y.add(vert_align_offset),
        alloc_chars(allocator, &number_chars),
    );
}

/// Draws what has to be drawn again of a line, and goes on to the next one.
fn render_line<'a>(
    editor: &Editor,
    editor_content: &EditorContent<LineData>,
    matrix_editing: &Option<MatrixEditing>,
    line_reference_chooser: &Option<EditorY>,
    render_buckets: &mut RenderBuckets<'a>,
    redraw_editor_area: EditorRowFlags,
    redraw_result_area: EditorRowFlags,
    r: &mut PerLineRenderData,
    gr: &mut GlobalRenderData,
    allocator: &'a Arena<char>,
    tokens: &AppTokens<'a>,
    vars: &[Variable],
    editor_objs: &mut EditorObjects,
    rerendered_lines: &mut RerenderedLines,
    Ghost(context): Ghost<FrameContext<'a>>,
    Ghost(state): Ghost<FrameState>,
)
    requires
        context.editor == *editor,
        context.lines == editor_content.text_lines(),
        context.data == editor_content.data@,
        context.editing == *matrix_editing,
        context.chooser == *line_reference_chooser,
        context.editor_flags == redraw_editor_area,
        context.result_flags == redraw_result_area,
        context.tokens == tokens.0@,
        context.vars == vars@,
        editor_content.wf(),
        tokens.wf(),
        old(editor_objs).wf(),
        old(r).editor_y.0 < editor_content.lines@.len(),
        old(r).editor_y.0 < MAX_LINE_COUNT,
        state.frame == old(render_buckets)@,
        state.r == *old(r),
        state.gr == old(gr)@,
        state.objects == old(editor_objs)@,
        state.rerendered == rerendered_lines_items(*old(rerendered_lines)),
        state.rerendered.len() <= old(r).editor_y.0,
        layout_fits(old(gr)@),
        context.step_fits(state, old(r).editor_y.0 as int),
    ensures
        ({
            let done = context.step(state, old(r).editor_y.0 as int);
            &&& final(render_buckets)@ == done.frame
            &&& *final(r) == done.r
            &&& final(gr)@ == done.gr
            &&& final(editor_objs)@ == done.objects
            &&& rerendered_lines_items(*final(rerendered_lines)) == done.rerendered
        }),
        final(editor_objs).wf(),
        final(r).editor_y.0 == old(r).editor_y.0 + 1,
        rerendered_lines_items(*final(rerendered_lines)).len() <= final(r).editor_y.0,
        layout_fits(final(gr)@),
{
    r.new_line_started();
    let editor_y = r.editor_y;
    let ghost y = editor_y.0 as int;
    if gr.scroll_y > editor_y.as_usize() || editor_y.as_usize() >= gr.scroll_y
        + gr.client_height {
        gr.set_render_y(editor_y, None);
        r.inc_editor_y();
        return ;
    }
    let render_y = r.render_y;
    gr.set_render_y(editor_y, Some(render_y));
    r.rendered_row_height = gr.get_rendered_height(editor_y);
    r.vert_align_offset = (r.rendered_row_height - 1) / 2;
    let need_editor = redraw_editor_area.need(editor_y);
    let need_result = redraw_result_area.need(editor_y);
    let height = r.rendered_row_height;
    if need_editor && need_result {
        rerendered_lines.push(RerenderedLine { render_y, height, target: RedrawTarget::Both });
    } else if need_result {
        rerendered_lines.push(
            RerenderedLine { render_y, height, target: RedrawTarget::ResultArea },
        );
    } else if need_editor {
        rerendered_lines.push(
            RerenderedLine { render_y, height, target: RedrawTarget::EditorArea },
        );
    }
    let ghost entered = context.entered(state, y);
    if need_editor {
        render_editor_area(
            editor,
            editor_content,
            matrix_editing,
            line_reference_chooser,
            render_buckets,
            r,
            gr,
            allocator,
            tokens,
            vars,
            editor_objs,
            Ghost(context),
            Ghost(entered),
        );
    } else if need_result {
        NoteCalcApp::draw_right_gutter_num_prefixes(
            render_buckets,
            gr.result_gutter_x,
            editor_content,
            r,
        );
        render_buckets.set_color(Layer::BehindText, 0xF2F2F2_FF);
        render_buckets.draw_rect(
            Layer::BehindText,
            gr.result_gutter_x + RIGHT_GUTTER_WIDTH,
            render_y,
            gr.current_result_panel_width,
            r.rendered_row_height,
        );
        render_buckets.set_color(Layer::BehindText, 0xD2D2D2_FF);
        render_buckets.draw_rect(
            Layer::BehindText,
            gr.result_gutter_x,
            render_y,
            RIGHT_GUTTER_WIDTH,
            r.rendered_row_height,
        );
    }
    r.line_render_ended(gr.get_rendered_height(editor_y));
}

fn render_pulses(
    render_buckets: &mut RenderBuckets,
    gr: &GlobalRenderData,
    rerendered_lines: &RerenderedLines,
)
    requires
        layout_fits(gr@),
    ensures
        final(render_buckets)@ == pulses_drawn(
            old(render_buckets)@,
            gr@,
            rerendered_lines_items(*rerendered_lines),
            rerendered_lines_items(*rerendered_lines).len() as int,
        ),
{
    let ghost before = render_buckets@;
    let ghost lines = rerendered_lines_items(*rerendered_lines);
    let mut i: usize = 0;
    while i < rerendered_lines.len()
        invariant
            i <= lines.len(),
            lines == rerendered_lines_items(*rerendered_lines),
            layout_fits(gr@),
            render_buckets@ == pulses_drawn(before, gr@, lines, i as int),
        decreases lines.len() - i,
    {
        let line = rerendered_lines.get(i);
        let (x, w): (usize, usize) = match line.target {
            RedrawTarget::Both => (
                LEFT_GUTTER_WIDTH,
                gr.current_result_panel_width + gr.current_editor_width + gr.left_gutter_width
                    + SCROLL_BAR_WIDTH + RIGHT_GUTTER_WIDTH,
            ),
            RedrawTarget::EditorArea => (LEFT_GUTTER_WIDTH, gr.current_editor_width),
            RedrawTarget::ResultArea => (
                gr.result_gutter_x,
                gr.current_result_panel_width + RIGHT_GUTTER_WIDTH,
            ),
        };
        render_buckets.push_command(
            Layer::AboveText,
            OutputMessage::PulsingRectangle {
                x,
                y: line.render_y,
                w,
                h: line.height,
                start_color: 0xFF88FF_11,
                end_color: 0xFFFFFF_00,
                animation_time_ms: 200,
            },
        );
        render_buckets.push_clear_command(
            OutputMessage::RenderRectangle { x, y: line.render_y, w, h: line.height },
        );
        i += 1;
    }
}

/// Clears the rows of lines that no longer exist.
fn clear_leftover_rows(
    render_buckets: &mut RenderBuckets,
    gr: &mut GlobalRenderData,
    line_count: usize,
)
    requires
        layout_fits(old(gr)@),
        leftover_rows(old(gr)@, line_count as int, None) matches Some((y, h)) ==> h <= usize::MAX,
    ensures
        final(render_buckets)@ == leftover_cleared(
            old(render_buckets)@,
            old(gr)@,
            leftover_rows(old(gr)@, line_count as int, None),
        ),
        final(gr)@ == leftover_removed(old(gr)@, line_count as int, false),
{
    let ghost before = gr@;
    let ghost leftover = leftover_rows(before, line_count as int, None);
    let mut clear_box: Option<(RenderPosY, usize)> = None;
    let ghost mut found: Option<(RenderPosY, int)> = None;
    let mut i: usize = line_count;
    while i < MAX_LINE_COUNT
        invariant_except_break
            leftover == leftover_rows(before, i as int, found),
            leftover_removed(before, line_count as int, false) == leftover_removed(
                gr@,
                i as int,
                found is Some,
            ),
        invariant
            layout_fits(before),
            layout_fits(gr@),
            line_count <= i,
            leftover matches Some((y, h)) ==> h <= usize::MAX,
            gr@.heights == before.heights,
            forall|j: int| i <= j < MAX_LINE_COUNT ==> (#[trigger] gr@.render_ys[j])
                == before.render_ys[j],
            gr@ == (Layout { render_ys: gr@.render_ys, ..before }),
            found is Some == clear_box is Some,
            clear_box matches Some((y, h)) ==> found == Some((y, h as int)),
        ensures
            leftover == found,
            gr@ == leftover_removed(before, line_count as int, false),
        decreases MAX_LINE_COUNT - i,
    {
        let editor_y = EditorY::new(i);
        if let Some(render_y) = gr.get_render_y(editor_y) {
            let height = gr.get_rendered_height(editor_y);
            proof {
                found = match found {
                    Some((y, h)) => Some((y, h + before.heights[i as int])),
                    None => Some((render_y, before.heights[i as int] as int)),
                };
                lemma_leftover_grows(before, i + 1, found.unwrap().0, found.unwrap().1);
            }
            clear_box = match clear_box {
                Some((y, h)) => Some((y, h + height)),
                None => Some((render_y, height)),
            };
            gr.set_render_y(editor_y, None);
        } else if clear_box.is_some() {
            break ;
        }
        i += 1;
    }
    if let Some((clear_box_y, clear_box_h)) = clear_box {
        render_buckets.push_clear_command(
            OutputMessage::RenderRectangle {
                x: LEFT_GUTTER_WIDTH,
                y: clear_box_y,
                w: gr.current_result_panel_width + gr.current_editor_width + gr.left_gutter_width
                    + SCROLL_BAR_WIDTH + RIGHT_GUTTER_WIDTH,
                h: clear_box_h,
            },
        );
        render_buckets.set_color(Layer::BehindText, 0xF2F2F2_FF);
        render_buckets.draw_rect(
            Layer::BehindText,
            0,
            clear_box_y,
            gr.left_gutter_width,
            clear_box_h,
        );
        render_buckets.set_color(Layer::BehindText, 0xD2D2D2_FF);
        render_buckets.draw_rect(
            Layer::BehindText,
            gr.result_gutter_x,
            clear_box_y,
            RIGHT_GUTTER_WIDTH,
            clear_box_h,
        );
    }
}

proof fn lemma_leftover_grows(gr: Layout, at: int, y: RenderPosY, h: int)
    requires
        h >= 0,
    ensures
        leftover_rows(gr, at, Some((y, h))) matches Some((top, rows)) && rows >= h,
    decreases MAX_LINE_COUNT - at,
{
    if at < MAX_LINE_COUNT && gr.render_ys[at] is Some {
        lemma_leftover_grows(gr, at + 1, y, h + gr.heights[at]);
    }
}

/// The drawing of lines moves them, and leaves the widths of the screen alone.
proof fn lemma_lines_keep_widths<'a>(context: FrameContext<'a>, start: FrameState, n: int)
    ensures
        ({
            let after = context.draw_lines(start, n).gr;
            after == Layout { render_ys: after.render_ys, heights: after.heights, ..start.gr }
        }),
    decreases n,
{
    if n > 0 {
        lemma_lines_keep_widths(context, start, n - 1);
    }
}

proof fn lemma_leftover_keeps_widths(gr: Layout, at: int, found: bool)
    ensures
        ({
            let after = leftover_removed(gr, at, found);
            after == Layout { render_ys: after.render_ys, ..gr }
        }),
    decreases MAX_LINE_COUNT - at,
{
    if at < MAX_LINE_COUNT {
        if gr.render_ys[at] is Some {
            let removed = Layout { render_ys: gr.render_ys.update(at, None), ..gr };
            lemma_leftover_keeps_widths(removed, at + 1, true);
        } else if !found {
            lemma_leftover_keeps_widths(gr, at + 1, found);
        }
    }
}

pub open spec fn frame_context<'a>(
    editor: Editor,
    editor_content: EditorContent<LineData>,
    editing: Option<MatrixEditing>,
    chooser: Option<EditorY>,
    editor_flags: EditorRowFlags,
    result_flags: EditorRowFlags,
    tokens: AppTokens<'a>,
    results: Results,
    vars: Seq<Variable>,
    selected: Option<String>,
) -> FrameContext<'a> {
    FrameContext {
        editor,
        lines: editor_content.text_lines(),
        data: editor_content.data@,
        editing,
        chooser,
        editor_flags,
        result_flags,
        tokens: tokens.0@,
        vars,
        results: results.0@,
        selected: text_view(selected),
    }
}

impl NoteCalcApp {
    /// Draws a frame: of each line on the screen what has to be drawn again,
    /// then what is selected, the results, and what clears the old frame.
    pub fn renderr<'a>(
        editor: &Editor,
        editor_content: &EditorContent<LineData>,
        matrix_editing: &Option<MatrixEditing>,
        line_reference_chooser: &Option<EditorY>,
        render_buckets: &mut RenderBuckets<'a>,
        result_buffer: &'a mut [u8],
        redraw_editor_area: EditorRowFlags,
        redraw_result_area: EditorRowFlags,
        gr: &mut GlobalRenderData,
        allocator: &'a Arena<char>,
        tokens: &AppTokens<'a>,
        results: &Results,
        vars: &[Variable],
        editor_objs: &mut EditorObjects,
        partial_result: &Option<String>,
    )
        requires
            frame_context(
                *editor,
                *editor_content,
                *matrix_editing,
                *line_reference_chooser,
                redraw_editor_area,
                redraw_result_area,
                *tokens,
                *results,
                vars@,
                *partial_result,
            ).fits(
                old(render_buckets)@,
                old(gr)@,
                old(editor_objs)@,
                old(result_buffer)@.len() as int,
            ),
        ensures
            ({
                let context = frame_context(
                    *editor,
                    *editor_content,
                    *matrix_editing,
                    *line_reference_chooser,
                    redraw_editor_area,
                    redraw_result_area,
                    *tokens,
                    *results,
                    vars@,
                    *partial_result,
                );
                let lines = context.all_lines(
                    old(render_buckets)@,
                    old(gr)@,
                    old(editor_objs)@,
                );
                let texts = context.results_context(lines.gr).texts(
                    context.with_selection(lines),
                );
                &&& final(render_buckets)@ == context.completed(lines)
                &&& final(gr)@ == leftover_removed(
                    lines.gr,
                    editor_content.lines@.len() as int,
                    false,
                )
                &&& final(editor_objs)@ == lines.objects
                &&& final(result_buffer)@ == texts + old(result_buffer)@.skip(texts.len() as int)
            }),
    {
        let ghost context = frame_context(
            *editor,
            *editor_content,
            *matrix_editing,
            *line_reference_chooser,
            redraw_editor_area,
            redraw_result_area,
            *tokens,
            *results,
            vars@,
            *partial_result,
        );
        let ghost start = context.start(render_buckets@, gr@, editor_objs@);
        let line_count = editor_content.line_count();
        let mut rerendered_lines = RerenderedLines::new();
        render_scroll_bar(render_buckets, gr, line_count);
        let mut r = PerLineRenderData::new();
        let line_limit: usize = if line_count < MAX_LINE_COUNT {
            line_count
        } else {
            MAX_LINE_COUNT
        };
        let ghost mut state = start;
        while r.editor_y.as_usize() < line_limit
            invariant
                context == frame_context(
                    *editor,
                    *editor_content,
                    *matrix_editing,
                    *line_reference_chooser,
                    redraw_editor_area,
                    redraw_result_area,
                    *tokens,
                    *results,
                    vars@,
                    *partial_result,
                ),
                editor_content.wf(),
                tokens.wf(),
                editor_objs.wf(),
                line_limit == context.line_limit(),
                r.editor_y.0 <= line_limit,
                line_limit <= editor_content.lines@.len(),
                line_limit <= MAX_LINE_COUNT,
                context.lines_fit(start, line_limit as int),
                state == context.draw_lines(start, r.editor_y.0 as int),
                state.frame == render_buckets@,
                state.r == r,
                state.gr == gr@,
                state.objects == editor_objs@,
                state.rerendered == rerendered_lines_items(rerendered_lines),
                state.rerendered.len() <= r.editor_y.0,
                layout_fits(gr@),
            decreases line_limit - r.editor_y.0,
        {
            let ghost y = r.editor_y.0 as int;
            render_line(
                editor,
                editor_content,
                matrix_editing,
                line_reference_chooser,
                render_buckets,
                redraw_editor_area,
                redraw_result_area,
                &mut r,
                gr,
                allocator,
                tokens,
                vars,
                editor_objs,
                &mut rerendered_lines,
                Ghost(context),
                Ghost(state),
            );
            proof {
                state = context.step(state, y);
            }
        }
        render_buckets.push_clear_command(OutputMessage::SetColor(0xFFFFFF_FF));
        render_buckets.push_clear_command(
            OutputMessage::RenderRectangle {
                x: gr.result_gutter_x - SCROLL_BAR_WIDTH,
                y: RenderPosY::new(0),
                w: SCROLL_BAR_WIDTH,
                h: gr.client_height,
            },
        );
        NoteCalcApp::render_selection_and_its_sum(
            render_buckets,
            editor,
            editor_content,
            gr,
            partial_result,
        );
        NoteCalcApp::render_results(
            render_buckets,
            results.as_slice(),
            result_buffer,
            editor_content,
            gr,
            gr.result_gutter_x,
            redraw_result_area,
            Precision::Four,
        );
        render_pulses(render_buckets, gr, &rerendered_lines);
        clear_leftover_rows(render_buckets, gr, line_count);
    }

    /// Draws what has to be drawn again. After that nothing has to be.
    pub fn render<'a>(
        &mut self,
        render_buckets: &mut RenderBuckets<'a>,
        result_buffer: &'a mut [u8],
        allocator: &'a Arena<char>,
        tokens: &AppTokens<'a>,
        results: &Results,
        vars: &[Variable],
        editor_objs: &mut EditorObjects,
        partial_result: &Option<String>,
    )
        requires
            old(self).frame_context(*tokens, *results, vars@, *partial_result).fits(
                old(render_buckets)@,
                old(self).render_data@,
                old(editor_objs)@,
                old(result_buffer)@.len() as int,
            ),
        ensures
            old(self).layout_wf() ==> final(self).layout_wf(),
            ({
                let context = old(self).frame_context(*tokens, *results, vars@, *partial_result);
                let lines = context.all_lines(
                    old(render_buckets)@,
                    old(self).render_data@,
                    old(editor_objs)@,
                );
                let texts = context.results_context(lines.gr).texts(
                    context.with_selection(lines),
                );
                &&& final(render_buckets)@ == context.completed(lines)
                &&& final(self).render_data@ == leftover_removed(
                    lines.gr,
                    old(self).editor_content.lines@.len() as int,
                    false,
                )
                &&& final(editor_objs)@ == lines.objects
                &&& final(result_buffer)@ == texts + old(result_buffer)@.skip(texts.len() as int)
            }),
            final(self).editor_area_redraw.rows() == Set::<int>::empty(),
            final(self).result_area_redraw.rows() == Set::<int>::empty(),
            *final(self) == (NoteCalcApp {
                render_data: final(self).render_data,
                editor_area_redraw: final(self).editor_area_redraw,
                result_area_redraw: final(self).result_area_redraw,
                ..*old(self)
            }),
    {
        proof {
            let context = self.frame_context(*tokens, *results, vars@, *partial_result);
            let start = context.start(render_buckets@, self.render_data@, editor_objs@);
            let lines = context.draw_lines(start, context.line_limit());
            lemma_lines_keep_widths(context, start, context.line_limit());
            lemma_leftover_keeps_widths(
                lines.gr,
                self.editor_content.lines@.len() as int,
                false,
            );
        }
        NoteCalcApp::renderr(
            &self.editor,
            &self.editor_content,
            &self.matrix_editing,
            &self.line_reference_chooser,
            render_buckets,
            result_buffer,
            self.editor_area_redraw,
            self.result_area_redraw,
            &mut self.render_data,
            allocator,
            tokens,
            results,
            vars,
            editor_objs,
            partial_result,
        );
        self.editor_area_redraw.clear();
        self.result_area_redraw.clear();
    }

    /// What the drawing of the calculator depends on.
    pub open spec fn frame_context<'a>(
        self,
        tokens: AppTokens<'a>,
        results: Results,
        vars: Seq<Variable>,
        selected: Option<String>,
    ) -> FrameContext<'a> {
        frame_context(
            self.editor,
            self.editor_content,
            self.matrix_editing,
            self.line_reference_chooser,
            self.editor_area_redraw,
            self.result_area_redraw,
            tokens,
            results,
            vars,
            selected,
        )
    }
}

} // verus!
