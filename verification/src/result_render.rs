use vstd::prelude::*;
use vstd::slice::slice_subrange;
use vstd::utf8::{encode_utf8, is_ascii_chars_encode_utf8};

use crate::app::{NoteCalcApp, RIGHT_GUTTER_WIDTH};
use crate::buckets::{Frame, Layer, RenderBuckets};
use crate::content::{EditorContent, LineData};
use crate::coords::EditorY;
use crate::external::{result_ranges_items, ResultRanges, ResultTmp};
use crate::matrix_result_render::{
    leading_matrices_lengths, lemma_drawn_width_positive, result_matrix,
};
use crate::render_data::{GlobalRenderData, Layout};
use crate::results::{
    line_result_wf, CalcResult, LineResult, Precision, ResultLengths, ScalarResult,
};
use crate::row_flags::{EditorRowFlags, MAX_LINE_COUNT};

verus! {

/// What is written for a line whose evaluation failed.
pub open spec fn err_bytes() -> Seq<u8> {
    seq![69u8, 114u8, 114u8]
}

/// What the drawing of the results depends on.
pub struct ResultsContext {
    pub results: Seq<LineResult>,
    pub data: Seq<LineData>,
    pub gr: Layout,
    /// Where the gutter before the results stands.
    pub gutter_x: int,
    /// The lines that are drawn again.
    pub flags: Set<int>,
    pub precision: Precision,
}

/// The results that were gone through.
pub struct ResultsState {
    pub frame: Frame,
    /// What has been written into the result buffer.
    pub written: Seq<u8>,
    pub items: Seq<ResultTmp>,
    /// The largest parts among the written texts.
    pub longest: ResultLengths,
    /// The alignment of the matrices at hand, where the last result was one.
    pub aligned: Option<ResultLengths>,
}

impl ResultsContext {
    pub open spec fn render_y(self, y: int) -> int {
        self.gr.render_ys[y].unwrap().0 as int
    }

    pub open spec fn height(self, y: int) -> int {
        self.gr.heights[y] as int
    }

    pub open spec fn scalar_text(self, scalar: ScalarResult, y: int) -> Seq<u8> {
        encode_utf8(scalar.text_of(self.data[y].result_format, self.precision).text@)
    }

    pub open spec fn with_text(
        self,
        state: ResultsState,
        y: int,
        text: Seq<u8>,
        lengths: ResultLengths,
    ) -> ResultsState {
        let start = state.written.len();
        ResultsState {
            written: state.written + text,
            items: state.items.push(
                ResultTmp {
                    buffer_ptr: Some((start as usize, (start + text.len()) as usize)),
                    editor_y: EditorY(y as usize),
                    lengths,
                },
            ),
            longest: state.longest.max(lengths),
            aligned: None,
            ..state
        }
    }

    pub open spec fn without_text(self, state: ResultsState, y: int) -> ResultsState {
        ResultsState {
            items: state.items.push(
                ResultTmp {
                    buffer_ptr: None,
                    editor_y: EditorY(y as usize),
                    lengths: ResultLengths::zero(),
                },
            ),
            ..state
        }
    }

    /// How the matrix of line `y` is aligned: with the matrices of the lines
    /// around it.
    pub open spec fn alignment(self, state: ResultsState, y: int) -> Option<ResultLengths> {
        if state.aligned is None {
            leading_matrices_lengths(self.results.skip(y), 0, None)
        } else {
            state.aligned
        }
    }

    pub open spec fn step(self, state: ResultsState, y: int) -> ResultsState {
        match self.results[y] {
            Err(_) => self.with_text(state, y, err_bytes(), ResultLengths::zero()),
            Ok(Some(CalcResult::Matrix(mat))) => {
                let aligned = self.alignment(state, y);
                let frame = if self.flags.contains(y) {
                    result_matrix(mat, self.precision, aligned).draw(
                        state.frame,
                        self.gutter_x + RIGHT_GUTTER_WIDTH,
                        self.render_y(y),
                        self.height(y),
                    )
                } else {
                    state.frame
                };
                self.without_text(ResultsState { frame, aligned, ..state }, y)
            },
            Ok(Some(CalcResult::Scalar(scalar))) => self.with_text(
                state,
                y,
                self.scalar_text(scalar, y),
                scalar.text_of(self.data[y].result_format, self.precision).lengths,
            ),
            Ok(None) => self.without_text(ResultsState { aligned: None, ..state }, y),
        }
    }

    /// There is a row in the middle of the line's drawing that a text can stand in.
    pub open spec fn has_middle_row(self, y: int) -> bool {
        &&& self.height(y) >= 1
        &&& self.render_y(y) + (self.height(y) - 1) / 2 <= usize::MAX
    }

    pub open spec fn step_fits(self, state: ResultsState, y: int, buffer_len: int) -> bool {
        &&& self.results[y] is Err ==> {
            &&& self.has_middle_row(y)
            &&& state.written.len() + 3 <= buffer_len
        }
        &&& self.results[y] matches Ok(Some(CalcResult::Matrix(mat))) ==> self.flags.contains(
            y,
        ) ==> {
            &&& self.render_y(y) + self.height(y) <= usize::MAX
            &&& mat.row_count <= self.height(y)
            &&& self.gutter_x + RIGHT_GUTTER_WIDTH + result_matrix(
                mat,
                self.precision,
                self.alignment(state, y),
            ).drawn_width() <= usize::MAX
        }
        &&& self.results[y] matches Ok(Some(CalcResult::Scalar(scalar))) ==> {
            &&& self.has_middle_row(y)
            &&& state.written.len() + self.scalar_text(scalar, y).len() <= buffer_len
        }
    }

    pub open spec fn is_shown(self, y: int) -> bool {
        self.gr.render_ys[y] is Some
    }

    /// The results from line `y` on, gone through. Lines that are not on the
    /// screen are left out.
    pub open spec fn collect(self, state: ResultsState, y: int) -> ResultsState
        decreases self.results.len() - y,
    {
        if y < 0 || y >= self.results.len() {
            state
        } else if !self.is_shown(y) {
            self.collect(state, y + 1)
        } else if y >= self.data.len() {
            state
        } else {
            self.collect(self.step(state, y), y + 1)
        }
    }

    pub open spec fn fits(self, state: ResultsState, y: int, buffer_len: int) -> bool
        decreases self.results.len() - y,
    {
        if y < 0 || y >= self.results.len() {
            self.gutter_x + RIGHT_GUTTER_WIDTH + state.longest.int_part_len
                + state.longest.frac_part_len + 1 <= usize::MAX
        } else if !self.is_shown(y) {
            self.fits(state, y + 1, buffer_len)
        } else if y >= self.data.len() {
            self.gutter_x + RIGHT_GUTTER_WIDTH + state.longest.int_part_len
                + state.longest.frac_part_len + 1 <= usize::MAX
        } else {
            &&& self.step_fits(state, y, buffer_len)
            &&& self.fits(self.step(state, y), y + 1, buffer_len)
        }
    }

    pub open spec fn background(self, frame: Frame, y: int) -> Frame {
        frame.set_color(Layer::BehindText, 0xF2F2F2_FF).draw_rect(
            Layer::BehindText,
            self.gr.result_gutter_x + RIGHT_GUTTER_WIDTH,
            self.render_y(y),
            self.gr.current_result_panel_width as int,
            self.height(y),
        )
    }

    /// Where the text of a result starts: aligned to the right, up to its
    /// decimal point.
    pub open spec fn text_x(self, lengths: ResultLengths, longest: ResultLengths) -> int {
        self.gutter_x + RIGHT_GUTTER_WIDTH + if longest.int_part_len < lengths.int_part_len {
            0
        } else {
            longest.int_part_len - lengths.int_part_len
        }
    }

    /// One result: on its background, its text in up to three parts, so that
    /// the decimal points stand below each other.
    pub open spec fn draw_item(
        self,
        frame: Frame,
        item: ResultTmp,
        written: Seq<u8>,
        longest: ResultLengths,
    ) -> Frame {
        let y = item.editor_y.0 as int;
        match item.buffer_ptr {
            Some((start, end)) => {
                let text = written.subrange(start as int, end as int);
                let int_len = item.lengths.int_part_len as int;
                let frac_len = item.lengths.frac_part_len as int;
                let row = self.render_y(y) + (self.height(y) - 1) / 2;
                let x = self.text_x(item.lengths, longest);
                let with_int = self.background(frame, y).ascii_text(
                    text.subrange(0, int_len),
                    row,
                    x,
                );
                let with_frac = if frac_len > 0 {
                    with_int.ascii_text(
                        text.subrange(int_len, int_len + frac_len),
                        row,
                        x + int_len,
                    )
                } else {
                    with_int
                };
                if item.lengths.unit_part_len > 0 {
                    with_frac.ascii_text(
                        text.subrange(int_len + frac_len + 1, text.len() as int),
                        row,
                        x + int_len + frac_len + 1,
                    )
                } else {
                    with_frac
                }
            },
            None => if self.flags.contains(y) {
                self.background(frame, y)
            } else {
                frame
            },
        }
    }

    pub open spec fn draw_items(self, frame: Frame, state: ResultsState, n: int) -> Frame
        decreases n,
    {
        if n <= 0 {
            frame
        } else {
            self.draw_item(
                self.draw_items(frame, state, n - 1),
                state.items[n - 1],
                state.written,
                state.longest,
            )
        }
    }

    pub open spec fn start(self, frame: Frame) -> ResultsState {
        ResultsState {
            frame,
            written: Seq::empty(),
            items: Seq::empty(),
            longest: ResultLengths::zero(),
            aligned: None,
        }
    }

    /// All results drawn.
    pub open spec fn draw(self, frame: Frame) -> Frame {
        let state = self.collect(self.start(frame), 0);
        self.draw_items(state.frame, state, state.items.len() as int)
    }

    /// The texts of the results one after the other.
    pub open spec fn texts(self, frame: Frame) -> Seq<u8> {
        self.collect(self.start(frame), 0).written
    }

    pub open spec fn wf(self) -> bool {
        &&& self.results.len() <= MAX_LINE_COUNT
        &&& forall|i: int|
            0 <= i < self.results.len() ==> line_result_wf(#[trigger] self.results[i])
        &&& self.gr.result_gutter_x + RIGHT_GUTTER_WIDTH <= usize::MAX
    }

    /// What the items rely on when they are drawn.
    spec fn item_wf(self, item: ResultTmp, state: ResultsState) -> bool {
        let y = item.editor_y.0 as int;
        &&& y < MAX_LINE_COUNT
        &&& self.is_shown(y)
        &&& item.lengths.int_part_len <= state.longest.int_part_len
        &&& item.lengths.frac_part_len <= state.longest.frac_part_len
        &&& item.buffer_ptr matches Some((start, end)) ==> {
            &&& self.has_middle_row(y)
            &&& start + item.lengths.int_part_len + item.lengths.frac_part_len <= end
            &&& item.lengths.unit_part_len > 0 ==> start + item.lengths.int_part_len
                + item.lengths.frac_part_len + 1 <= end
            &&& end <= state.written.len()
        }
    }

    spec fn items_wf(self, state: ResultsState) -> bool {
        forall|i: int|
            0 <= i < state.items.len() ==> self.item_wf(#[trigger] state.items[i], state)
    }
}

pub open spec fn results_context(
    results: Seq<LineResult>,
    data: Seq<LineData>,
    gr: Layout,
    result_gutter_x: usize,
    flags: Set<int>,
    precision: Precision,
) -> ResultsContext {
    ResultsContext {
        results,
        data,
        gr,
        gutter_x: result_gutter_x as int,
        flags,
        precision,
    }
}

pub(crate) proof fn lemma_longest_is_longest(context: ResultsContext, state: ResultsState, y: int)
    requires
        0 <= y,
        forall|i: int|
            0 <= i < state.items.len() ==> (#[trigger] state.items[i]).lengths.int_part_len
                <= state.longest.int_part_len,
    ensures
        ({
            let after = context.collect(state, y);
            forall|i: int|
                0 <= i < after.items.len() ==> (#[trigger] after.items[i]).lengths.int_part_len
                    <= after.longest.int_part_len
        }),
    decreases context.results.len() - y,
{
    if y < context.results.len() {
        if !context.is_shown(y) {
            lemma_longest_is_longest(context, state, y + 1);
        } else if y < context.data.len() {
            lemma_longest_is_longest(context, context.step(state, y), y + 1);
        }
    }
}

/// The numbers are drawn with their decimal points below each other: what
/// stands before the point ends at the same column in all results.
pub proof fn law_decimal_points_stand_below_each_other(
    context: ResultsContext,
    frame: Frame,
    i: int,
)
    requires
        0 <= i < context.collect(context.start(frame), 0).items.len(),
    ensures
        ({
            let state = context.collect(context.start(frame), 0);
            let lengths = state.items[i].lengths;
            context.text_x(lengths, state.longest) + lengths.int_part_len == context.gutter_x
                + RIGHT_GUTTER_WIDTH + state.longest.int_part_len
        }),
{
    lemma_longest_is_longest(context, context.start(frame), 0);
}

/// Copies the bytes into the buffer, from place `at` on.
fn write_bytes(buffer: &mut [u8], at: usize, bytes: &[u8])
    requires
        at + bytes@.len() <= old(buffer)@.len(),
    ensures
        final(buffer)@ == old(buffer)@.take(at as int) + bytes@ + old(buffer)@.skip(
            at + bytes@.len(),
        ),
{
    let ghost before = buffer@;
    assert(buffer.len() == before.len());
    let mut i: usize = 0;
    while i < bytes.len()
        invariant
            i <= bytes@.len(),
            at + bytes@.len() <= before.len() <= usize::MAX,
            buffer@.len() == before.len(),
            buffer@ == before.take(at as int) + bytes@.take(i as int) + before.skip(at + i),
        decreases bytes@.len() - i,
    {
        buffer[at + i] = bytes[i];
        i += 1;
    }
}

fn draw_result_item<'a>(
    render_buckets: &mut RenderBuckets<'a>,
    item: ResultTmp,
    buffer: &'a [u8],
    max_lengths: ResultLengths,
    gr: &GlobalRenderData,
    result_gutter_x: usize,
    modif_type: EditorRowFlags,
    Ghost(context): Ghost<ResultsContext>,
    Ghost(state): Ghost<ResultsState>,
)
    requires
        context.gr == gr@,
        context.gutter_x == result_gutter_x,
        context.flags == modif_type.rows(),
        context.gr.result_gutter_x + RIGHT_GUTTER_WIDTH <= usize::MAX,
        state.longest == max_lengths,
        context.item_wf(item, state),
        result_gutter_x + RIGHT_GUTTER_WIDTH + max_lengths.int_part_len
            + max_lengths.frac_part_len + 1 <= usize::MAX,
        state.written.len() <= buffer@.len(),
        buffer@.take(state.written.len() as int) == state.written,
    ensures
        final(render_buckets)@ == context.draw_item(
            old(render_buckets)@,
            item,
            state.written,
            max_lengths,
        ),
{
    let rendered_row_height = gr.get_rendered_height(item.editor_y);
    if let Some(render_y) = gr.get_render_y(item.editor_y) {
        if let Some((start, end)) = item.buffer_ptr {
            render_buckets.set_color(Layer::BehindText, 0xF2F2F2_FF);
            render_buckets.draw_rect(
                Layer::BehindText,
                gr.result_gutter_x + RIGHT_GUTTER_WIDTH,
                render_y,
                gr.current_result_panel_width,
                rendered_row_height,
            );
            let lengths = item.lengths;
            let ghost text = state.written.subrange(start as int, end as int);
            let vert_align_offset = (rendered_row_height - 1) / 2;
            let row = render_y.add(vert_align_offset);
            let offset_x: usize = if max_lengths.int_part_len < lengths.int_part_len {
                0
            } else {
                max_lengths.int_part_len - lengths.int_part_len
            };
            let x: usize = result_gutter_x + RIGHT_GUTTER_WIDTH + offset_x;
            assert(buffer@.subrange(start + 0, start + lengths.int_part_len) == text.subrange(
                0,
                lengths.int_part_len as int,
            ));
            render_buckets.push_ascii_text(
                slice_subrange(buffer, start, start + lengths.int_part_len),
                row,
                x,
            );
            if lengths.frac_part_len > 0 {
                let from: usize = start + lengths.int_part_len;
                let ghost int_len = lengths.int_part_len as int;
                assert(buffer@.subrange(start + int_len, start + (int_len + lengths.frac_part_len))
                    == text.subrange(int_len, int_len + lengths.frac_part_len));
                render_buckets.push_ascii_text(
                    slice_subrange(buffer, from, from + lengths.frac_part_len),
                    row,
                    x + lengths.int_part_len,
                );
            }
            if lengths.unit_part_len > 0 {
                let from: usize = start + lengths.int_part_len + lengths.frac_part_len + 1;
                assert(buffer@.subrange(start + (from - start), start + text.len())
                    == text.subrange(from - start, text.len() as int));
                render_buckets.push_ascii_text(
                    slice_subrange(buffer, from, end),
                    row,
                    x + lengths.int_part_len + lengths.frac_part_len + 1,
                );
            }
        } else if modif_type.need(item.editor_y) {
            render_buckets.set_color(Layer::BehindText, 0xF2F2F2_FF);
            render_buckets.draw_rect(
                Layer::BehindText,
                gr.result_gutter_x + RIGHT_GUTTER_WIDTH,
                render_y,
                gr.current_result_panel_width,
                rendered_row_height,
            );
        }
    }
}

impl NoteCalcApp {
    /// Draws the results of the lines. Their texts are written into the buffer
    /// one after the other, and drawn from there.
    #[verifier::rlimit(40)]
    pub fn render_results<'text_ptr>(
        render_buckets: &mut RenderBuckets<'text_ptr>,
        results: &[LineResult],
        result_buffer: &'text_ptr mut [u8],
        editor_content: &EditorContent<LineData>,
        gr: &GlobalRenderData,
        result_gutter_x: usize,
        modif_type: EditorRowFlags,
        decimal_count: Precision,
    )
        requires
            editor_content.wf(),
            results_context(
                results@,
                editor_content.data@,
                gr@,
                result_gutter_x,
                modif_type.rows(),
                decimal_count,
            ).wf(),
            ({
                let context = results_context(
                    results@,
                    editor_content.data@,
                    gr@,
                    result_gutter_x,
                    modif_type.rows(),
                    decimal_count,
                );
                context.fits(
                    context.start(old(render_buckets)@),
                    0,
                    old(result_buffer)@.len() as int,
                )
            }),
        ensures
            final(render_buckets)@ == results_context(
                results@,
                editor_content.data@,
                gr@,
                result_gutter_x,
                modif_type.rows(),
                decimal_count,
            ).draw(old(render_buckets)@),
            ({
                let texts = results_context(
                    results@,
                    editor_content.data@,
                    gr@,
                    result_gutter_x,
                    modif_type.rows(),
                    decimal_count,
                ).texts(old(render_buckets)@);
                final(result_buffer)@ == texts + old(result_buffer)@.skip(texts.len() as int)
            }),
    {
        let ghost context = results_context(
            results@,
            editor_content.data@,
            gr@,
            result_gutter_x,
            modif_type.rows(),
            decimal_count,
        );
        let ghost buffer_before = result_buffer@;
        let ghost buffer_len = result_buffer@.len() as int;
        assert(result_buffer.len() == buffer_len);
        let ghost start = context.start(render_buckets@);
        let ghost mut state = start;
        let mut result_ranges = ResultRanges::new();
        let mut max_lengths = ResultLengths {
            int_part_len: 0,
            frac_part_len: 0,
            unit_part_len: 0,
        };
        let mut result_buffer_index: usize = 0;
        let mut prev_result_matrix_length: Option<ResultLengths> = None;
        let line_count = editor_content.line_count();
        let mut y: usize = 0;
        while y < results.len()
            invariant_except_break
                context.collect(start, 0) == context.collect(state, y as int),
                context.fits(state, y as int, buffer_len),
            invariant
                context == results_context(
                    results@,
                    editor_content.data@,
                    gr@,
                    result_gutter_x,
                    modif_type.rows(),
                    decimal_count,
                ),
                context.wf(),
                editor_content.wf(),
                line_count == editor_content.lines@.len(),
                buffer_len == buffer_before.len(),
                buffer_len <= usize::MAX,
                y <= results@.len(),
                render_buckets@ == state.frame,
                result_ranges_items(result_ranges) == state.items,
                max_lengths == state.longest,
                prev_result_matrix_length == state.aligned,
                result_buffer_index == state.written.len(),
                result_buffer@ == state.written + buffer_before.skip(state.written.len() as int),
                state.written.len() <= buffer_len,
                state.items.len() <= y,
                context.items_wf(state),
            ensures
                state == context.collect(start, 0),
                result_gutter_x + RIGHT_GUTTER_WIDTH + state.longest.int_part_len
                    + state.longest.frac_part_len + 1 <= usize::MAX,
            decreases results@.len() - y,
        {
            let editor_y = EditorY::new(y);
            let render_y = match gr.get_render_y(editor_y) {
                Some(render_y) => render_y,
                None => {
                    y += 1;
                    continue ;
                },
            };
            if y >= line_count {
                break ;
            }
            let ghost before = state;
            proof {
                state = context.step(before, y as int);
            }
            match &results[y] {
                Err(_) => {
                    let err: [u8; 3] = [69, 114, 114];
                    write_bytes(result_buffer, result_buffer_index, &err);
                    let lengths = ResultLengths {
                        int_part_len: 0,
                        frac_part_len: 0,
                        unit_part_len: 0,
                    };
                    result_ranges.push(
                        ResultTmp {
                            buffer_ptr: Some((result_buffer_index, result_buffer_index + 3)),
                            editor_y,
                            lengths,
                        },
                    );
                    max_lengths.set_max(&lengths);
                    result_buffer_index += 3;
                    prev_result_matrix_length = None;
                },
                Ok(Some(CalcResult::Matrix(mat))) => {
                    if prev_result_matrix_length.is_none() {
                        prev_result_matrix_length =
                        NoteCalcApp::calc_consecutive_matrices_max_lengths(
                            slice_subrange(results, y, results.len()),
                        );
                    }
                    if modif_type.need(editor_y) {
                        proof {
                            lemma_drawn_width_positive(
                                result_matrix(*mat, decimal_count, prev_result_matrix_length),
                            );
                        }
                        NoteCalcApp::render_matrix_result(
                            result_gutter_x + RIGHT_GUTTER_WIDTH,
                            render_y,
                            mat,
                            render_buckets,
                            prev_result_matrix_length.as_ref(),
                            gr.get_rendered_height(editor_y),
                            decimal_count,
                        );
                    }
                    result_ranges.push(
                        ResultTmp {
                            buffer_ptr: None,
                            editor_y,
                            lengths: ResultLengths {
                                int_part_len: 0,
                                frac_part_len: 0,
                                unit_part_len: 0,
                            },
                        },
                    );
                },
                Ok(Some(CalcResult::Scalar(scalar))) => {
                    prev_result_matrix_length = None;
                    let written = scalar.text(
                        editor_content.get_data(y).result_format,
                        decimal_count,
                    );
                    let bytes = written.text.as_str().as_bytes();
                    proof {
                        is_ascii_chars_encode_utf8(written.text@);
                    }
                    write_bytes(result_buffer, result_buffer_index, bytes);
                    let len = bytes.len();
                    let lens = written.lengths;
                    max_lengths.set_max(&lens);
                    result_ranges.push(
                        ResultTmp {
                            buffer_ptr: Some((result_buffer_index, result_buffer_index + len)),
                            editor_y,
                            lengths: lens,
                        },
                    );
                    result_buffer_index += len;
                },
                Ok(None) => {
                    prev_result_matrix_length = None;
                    result_ranges.push(
                        ResultTmp {
                            buffer_ptr: None,
                            editor_y,
                            lengths: ResultLengths {
                                int_part_len: 0,
                                frac_part_len: 0,
                                unit_part_len: 0,
                            },
                        },
                    );
                },
            }
            y += 1;
        }

        let buffer: &'text_ptr [u8] = result_buffer;
        let ghost collected = render_buckets@;
        let mut i: usize = 0;
        while i < result_ranges.len()
            invariant
                context == results_context(
                    results@,
                    editor_content.data@,
                    gr@,
                    result_gutter_x,
                    modif_type.rows(),
                    decimal_count,
                ),
                context.wf(),
                i <= state.items.len(),
                result_ranges_items(result_ranges) == state.items,
                max_lengths == state.longest,
                context.items_wf(state),
                result_gutter_x + RIGHT_GUTTER_WIDTH + state.longest.int_part_len
                    + state.longest.frac_part_len + 1 <= usize::MAX,
                state.written.len() <= buffer@.len(),
                buffer@.take(state.written.len() as int) == state.written,
                render_buckets@ == context.draw_items(collected, state, i as int),
            decreases state.items.len() - i,
        {
            draw_result_item(
                render_buckets,
                result_ranges.get(i),
                buffer,
                max_lengths,
                gr,
                result_gutter_x,
                modif_type,
                Ghost(context),
                Ghost(state),
            );
            i += 1;
        }
    }
}

} // verus!
