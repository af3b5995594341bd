use vstd::prelude::*;
use vstd::utf8::encode_utf8;

use crate::buckets::{AsciiCmd, Cmd, Frame};
use crate::matrix_result_render::{largest_lengths, leading_matrices_lengths, result_matrix};
use crate::result_render::{
    law_decimal_points_stand_below_each_other, lemma_longest_is_longest, ResultsContext,
    ResultsState,
};
use crate::results::{
    CalcResult, FormatTexts, LineResult, Precision, ResultFormat, ResultLengths, ScalarResult,
};

verus! {

/// A number has a text for each format and each precision, and the one that is
/// asked for is given.
pub proof fn law_texts_are_told_by_format_and_precision(scalar: ScalarResult, texts: FormatTexts)
    ensures
        texts.in_format(ResultFormat::Bin) == texts.bin,
        texts.in_format(ResultFormat::Dec) == texts.dec,
        texts.in_format(ResultFormat::Hex) == texts.hex,
        forall|format: ResultFormat| #[trigger]
            scalar.text_of(format, Precision::Full) == scalar.full.in_format(format),
        forall|format: ResultFormat| #[trigger]
            scalar.text_of(format, Precision::Two) == scalar.two.in_format(format),
        forall|format: ResultFormat| #[trigger]
            scalar.text_of(format, Precision::Four) == scalar.four.in_format(format),
{
}

/// What is written for the lines before `n`, one after the other: for a line
/// that is not on the screen, or has no text, nothing; for one that failed,
/// `Err`; for a number its text, in the format of its line.
pub open spec fn texts_of_lines(
    results: Seq<LineResult>,
    formats: Seq<ResultFormat>,
    on_screen: Seq<bool>,
    precision: Precision,
    n: int,
) -> Seq<u8>
    decreases n,
{
    if n <= 0 {
        Seq::empty()
    } else {
        let before = texts_of_lines(results, formats, on_screen, precision, n - 1);
        if !on_screen[n - 1] {
            before
        } else {
            match results[n - 1] {
                Err(_) => before + seq!['E' as u8, 'r' as u8, 'r' as u8],
                Ok(Some(CalcResult::Scalar(scalar))) => before + encode_utf8(
                    scalar.text_of(formats[n - 1], precision).text@,
                ),
                Ok(Some(CalcResult::Matrix(_))) => before,
                Ok(None) => before,
            }
        }
    }
}

pub open spec fn formats_of(context: ResultsContext) -> Seq<ResultFormat> {
    Seq::new(context.data.len(), |i: int| context.data[i].result_format)
}

pub open spec fn on_screen(context: ResultsContext) -> Seq<bool> {
    Seq::new(context.gr.render_ys.len(), |i: int| context.gr.render_ys[i] is Some)
}

proof fn lemma_written(context: ResultsContext, state: ResultsState, y: int)
    requires
        0 <= y <= context.results.len(),
        context.results.len() <= context.gr.render_ys.len(),
        context.results.len() <= context.data.len(),
        state.written == texts_of_lines(
            context.results,
            formats_of(context),
            on_screen(context),
            context.precision,
            y,
        ),
    ensures
        context.collect(state, y).written == texts_of_lines(
            context.results,
            formats_of(context),
            on_screen(context),
            context.precision,
            context.results.len() as int,
        ),
    decreases context.results.len() - y,
{
    if y < context.results.len() {
        if !context.is_shown(y) {
            lemma_written(context, state, y + 1);
        } else {
            let after = context.step(state, y);
            assert(after.written =~= texts_of_lines(
                context.results,
                formats_of(context),
                on_screen(context),
                context.precision,
                y + 1,
            ));
            lemma_written(context, after, y + 1);
        }
    }
}

/// The texts of the results on the screen are written one after the other, from
/// the first line to the last, each in the format of its line.
pub proof fn law_texts_are_written_line_by_line(context: ResultsContext, frame: Frame)
    requires
        context.results.len() <= context.gr.render_ys.len(),
        context.results.len() <= context.data.len(),
    ensures
        context.texts(frame) == texts_of_lines(
            context.results,
            formats_of(context),
            on_screen(context),
            context.precision,
            context.results.len() as int,
        ),
{
    lemma_written(context, context.start(frame), 0);
}

/// The number of line `y` is among what was gone through, with its text.
spec fn has_text_item(
    context: ResultsContext,
    state: ResultsState,
    y: int,
    scalar: ScalarResult,
    i: int,
) -> bool {
    let text = scalar.text_of(context.data[y].result_format, context.precision);
    &&& 0 <= i < state.items.len()
    &&& state.items[i].editor_y.0 == y
    &&& state.items[i].lengths == text.lengths
    &&& state.items[i].buffer_ptr matches Some((start, end)) && start <= end
        <= state.written.len() && state.written.subrange(start as int, end as int)
        == encode_utf8(text.text@)
}

proof fn lemma_item_stays(
    context: ResultsContext,
    state: ResultsState,
    y: int,
    scalar: ScalarResult,
    i: int,
    from: int,
)
    requires
        0 <= from,
        has_text_item(context, state, y, scalar, i),
    ensures
        has_text_item(context, context.collect(state, from), y, scalar, i),
    decreases context.results.len() - from,
{
    if from < context.results.len() {
        if !context.is_shown(from) {
            lemma_item_stays(context, state, y, scalar, i, from + 1);
        } else if from < context.data.len() {
            let after = context.step(state, from);
            let (start, end) = state.items[i].buffer_ptr->Some_0;
            assert(after.written.subrange(start as int, end as int) =~= state.written.subrange(
                start as int,
                end as int,
            ));
            lemma_item_stays(context, after, y, scalar, i, from + 1);
        }
    }
}

proof fn lemma_written_grows(context: ResultsContext, state: ResultsState, from: int)
    requires
        0 <= from,
    ensures
        context.collect(state, from).written.len() >= state.written.len(),
    decreases context.results.len() - from,
{
    if from < context.results.len() {
        if !context.is_shown(from) {
            lemma_written_grows(context, state, from + 1);
        } else if from < context.data.len() {
            lemma_written_grows(context, context.step(state, from), from + 1);
        }
    }
}

proof fn lemma_item_is_noted(
    context: ResultsContext,
    state: ResultsState,
    y: int,
    scalar: ScalarResult,
    from: int,
) -> (i: int)
    requires
        0 <= from <= y < context.results.len(),
        y < context.data.len(),
        y <= usize::MAX,
        context.is_shown(y),
        context.results[y] == Ok::<Option<CalcResult>, ()>(Some(CalcResult::Scalar(scalar))),
        context.collect(state, from).written.len() <= usize::MAX,
    ensures
        has_text_item(context, context.collect(state, from), y, scalar, i),
    decreases y - from,
{
    if from < y {
        if !context.is_shown(from) {
            lemma_item_is_noted(context, state, y, scalar, from + 1)
        } else {
            lemma_item_is_noted(context, context.step(state, from), y, scalar, from + 1)
        }
    } else {
        let after = context.step(state, y);
        let i = state.items.len() as int;
        lemma_written_grows(context, after, y + 1);
        let text = encode_utf8(
            scalar.text_of(context.data[y].result_format, context.precision).text@,
        );
        assert(after.written.subrange(state.written.len() as int, after.written.len() as int)
            =~= text);
        lemma_item_stays(context, after, y, scalar, i, y + 1);
        i
    }
}

/// The texts of a result are drawn behind those that were drawn before.
spec fn drawn_behind(frame: Frame, k: int, cmd: AsciiCmd) -> bool {
    0 <= k < frame.ascii_texts.len() && frame.ascii_texts[k] == cmd
}

proof fn lemma_texts_stay(
    context: ResultsContext,
    frame: Frame,
    state: ResultsState,
    n: int,
    m: int,
    k: int,
    cmd: AsciiCmd,
)
    requires
        0 <= n <= m,
        drawn_behind(context.draw_items(frame, state, n), k, cmd),
    ensures
        drawn_behind(context.draw_items(frame, state, m), k, cmd),
    decreases m - n,
{
    if n < m {
        lemma_texts_stay(context, frame, state, n, m - 1, k, cmd);
    }
}

/// A number is drawn in the middle of its line, in the format of the line: what
/// stands before its decimal point ends where that of the longest number ends,
/// two columns and as many more right of the gutter; the decimals follow, and
/// behind a blank the unit.
pub proof fn law_number_is_drawn_in_its_line(
    context: ResultsContext,
    frame: Frame,
    y: int,
    scalar: ScalarResult,
) -> (k: int)
    requires
        0 <= y < context.results.len(),
        y < context.data.len(),
        y <= usize::MAX,
        context.gr.render_ys[y] is Some,
        context.results[y] == Ok::<Option<CalcResult>, ()>(Some(CalcResult::Scalar(scalar))),
        context.texts(frame).len() <= usize::MAX,
    ensures
        ({
            let text = scalar.text_of(context.data[y].result_format, context.precision);
            let bytes = encode_utf8(text.text@);
            let int_len = text.lengths.int_part_len as int;
            let frac_len = text.lengths.frac_part_len as int;
            let longest = context.collect(context.start(frame), 0).longest;
            let point_x = context.gutter_x + 2 + longest.int_part_len;
            let row = context.gr.render_ys[y].unwrap().0 + (context.gr.heights[y] - 1) / 2;
            let drawn = context.draw(frame).ascii_texts;
            &&& int_len <= longest.int_part_len
            &&& 0 <= k < drawn.len()
            &&& drawn[k] == (AsciiCmd {
                text: bytes.subrange(0, int_len),
                row,
                column: point_x - int_len,
            })
            &&& frac_len > 0 ==> k + 1 < drawn.len() && drawn[k + 1] == (AsciiCmd {
                text: bytes.subrange(int_len, int_len + frac_len),
                row,
                column: point_x,
            })
            &&& text.lengths.unit_part_len > 0 ==> ({
                let u = if frac_len > 0 {
                    k + 2
                } else {
                    k + 1
                };
                u < drawn.len() && drawn[u] == (AsciiCmd {
                    text: bytes.subrange(int_len + frac_len + 1, bytes.len() as int),
                    row,
                    column: point_x + frac_len + 1,
                })
            })
        }),
{
    let state = context.collect(context.start(frame), 0);
    let i = lemma_item_is_noted(context, context.start(frame), y, scalar, 0);
    law_decimal_points_stand_below_each_other(context, frame, i);
    lemma_longest_is_longest(context, context.start(frame), 0);
    let before = context.draw_items(state.frame, state, i);
    let after = context.draw_items(state.frame, state, i + 1);
    let k = before.ascii_texts.len() as int;
    let m = state.items.len() as int;
    let text = scalar.text_of(context.data[y].result_format, context.precision);
    let frac_len = text.lengths.frac_part_len as int;
    assert(after == context.draw_item(before, state.items[i], state.written, state.longest));
    lemma_texts_stay(context, state.frame, state, i + 1, m, k, after.ascii_texts[k]);
    if frac_len > 0 {
        lemma_texts_stay(context, state.frame, state, i + 1, m, k + 1, after.ascii_texts[k + 1]);
    }
    if text.lengths.unit_part_len > 0 {
        let u = if frac_len > 0 {
            k + 2
        } else {
            k + 1
        };
        lemma_texts_stay(context, state.frame, state, i + 1, m, u, after.ascii_texts[u]);
    }
    k
}

/// How the matrix of the line is aligned.
spec fn lengths_of(result: LineResult) -> ResultLengths {
    match result {
        Ok(Some(CalcResult::Matrix(mat))) => largest_lengths(
            mat.cells@,
            Precision::Four,
            ResultLengths::zero(),
        ),
        _ => ResultLengths::zero(),
    }
}

pub open spec fn no_longer_than(a: ResultLengths, b: ResultLengths) -> bool {
    &&& a.int_part_len <= b.int_part_len
    &&& a.frac_part_len <= b.frac_part_len
    &&& a.unit_part_len <= b.unit_part_len
}

proof fn lemma_leading_matrices(
    results: Seq<LineResult>,
    at: int,
    so_far: Option<ResultLengths>,
    n: int,
)
    requires
        0 <= at <= n <= results.len(),
        forall|i: int|
            at <= i < n ==> (#[trigger] results[i] matches Ok(Some(CalcResult::Matrix(_)))),
    ensures
        so_far is Some || at < n ==> leading_matrices_lengths(results, at, so_far) is Some,
        so_far matches Some(lengths) ==> no_longer_than(
            lengths,
            leading_matrices_lengths(results, at, so_far)->0,
        ),
        forall|i: int|
            at <= i < n ==> no_longer_than(
                lengths_of(#[trigger] results[i]),
                leading_matrices_lengths(results, at, so_far)->0,
            ),
    decreases results.len() - at,
{
    if at < results.len() && (results[at] matches Ok(Some(CalcResult::Matrix(_)))) {
        let lengths = lengths_of(results[at]);
        let next = match so_far {
            Some(longest) => longest.max(lengths),
            None => lengths,
        };
        lemma_leading_matrices(
            results,
            at + 1,
            Some(next),
            if at < n {
                n
            } else {
                at + 1
            },
        );
    }
}

/// Matrices in consecutive lines are aligned with each other: the columns that
/// they are drawn with are at least as wide as each of them needs, with four
/// decimals.
pub proof fn law_consecutive_matrices_are_aligned(results: Seq<LineResult>, n: int, i: int)
    requires
        0 <= i < n <= results.len(),
        forall|j: int|
            0 <= j < n ==> (#[trigger] results[j] matches Ok(Some(CalcResult::Matrix(_)))),
    ensures
        leading_matrices_lengths(results, 0, None) is Some,
        results[i] matches Ok(Some(CalcResult::Matrix(mat))) && no_longer_than(
            result_matrix(mat, Precision::Four, None).longest,
            leading_matrices_lengths(results, 0, None)->0,
        ),
{
    lemma_leading_matrices(results, 0, None, n);
    assert(results[i] matches Ok(Some(CalcResult::Matrix(_))));
}

/// The matrices of consecutive lines are drawn with the same columns. A line with
/// anything else ends that: the matrices after it are aligned among themselves.
pub proof fn law_only_consecutive_matrices_are_aligned(
    context: ResultsContext,
    state: ResultsState,
    y: int,
)
    requires
        0 <= y,
        y + 1 < context.results.len(),
    ensures
        ({
            let next = context.alignment(context.step(state, y), y + 1);
            match context.results[y] {
                Ok(Some(CalcResult::Matrix(_))) => context.alignment(state, y) is Some ==> next
                    == context.alignment(state, y),
                _ => next == leading_matrices_lengths(context.results.skip(y + 1), 0, None),
            }
        }),
{
}

/// A matrix is drawn right of the gutter, in its own line, when its line is to be
/// drawn again, and else not; no text is written for it.
pub proof fn law_matrix_result_is_drawn_right_of_the_gutter(
    context: ResultsContext,
    state: ResultsState,
    y: int,
)
    requires
        0 <= y < context.results.len(),
        context.gr.render_ys[y] is Some,
        context.results[y] matches Ok(Some(CalcResult::Matrix(_))),
    ensures
        context.results[y] matches Ok(Some(CalcResult::Matrix(mat))) && ({
            let after = context.step(state, y);
            let top = context.gr.render_ys[y].unwrap().0 as int;
            &&& after.written == state.written
            &&& !context.flags.contains(y) ==> after.frame == state.frame
            &&& context.flags.contains(y) ==> after.frame == result_matrix(
                mat,
                context.precision,
                context.alignment(state, y),
            ).draw(state.frame, context.gutter_x + 2, top, context.gr.heights[y] as int)
        }),
{
}

/// The place of a result is made ready before it is drawn: the whole panel right
/// of the gutter, in all rows of its line. Lines without a text are made ready
/// only where they are to be drawn again.
pub proof fn law_result_stands_on_its_background(
    context: ResultsContext,
    frame: Frame,
    state: ResultsState,
    n: int,
)
    requires
        0 < n <= state.items.len(),
        context.gr.render_ys[state.items[n - 1].editor_y.0 as int] is Some,
    ensures
        ({
            let item = state.items[n - 1];
            let y = item.editor_y.0 as int;
            let before = context.draw_items(frame, state, n - 1);
            let after = context.draw_items(frame, state, n);
            let made_ready = before.behind_text + seq![
                Cmd::SetColor(0xF2F2F2_FF),
                Cmd::Rect {
                    x: context.gr.result_gutter_x + 2,
                    y: context.gr.render_ys[y].unwrap().0 as int,
                    w: context.gr.current_result_panel_width as int,
                    h: context.gr.heights[y] as int,
                },
            ];
            after.behind_text == (if item.buffer_ptr is Some || context.flags.contains(y) {
                made_ready
            } else {
                before.behind_text
            })
        }),
{
    let item = state.items[n - 1];
    let y = item.editor_y.0 as int;
    let before = context.draw_items(frame, state, n - 1);
    let after = context.draw_items(frame, state, n);
    if item.buffer_ptr is Some || context.flags.contains(y) {
        assert(after.behind_text =~= before.behind_text + seq![
            Cmd::SetColor(0xF2F2F2_FF),
            Cmd::Rect {
                x: context.gr.result_gutter_x + 2,
                y: context.gr.render_ys[y].unwrap().0 as int,
                w: context.gr.current_result_panel_width as int,
                h: context.gr.heights[y] as int,
            },
        ]);
    }
}

} // verus!
