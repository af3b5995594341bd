use vstd::prelude::*;

use crate::buckets::{AsciiCmd, Cmd, Frame, TextCmd};
use crate::canvas::{
    asciis_on, asciis_written, canvas_wf, cmd_on, cmds_on, cmds_written, frame_on, frame_written,
    place_on, texts_on, texts_written, CANVAS_WIDTH,
};
use crate::clipboard::{
    blank_canvas, canvas_text, trimmed, CopyContext, CopyState, RESULT_BAR,
};
use crate::line_render::lemma_draw_stays_in_line;
use crate::selection_render::column_drawn;

verus! {

/// Lines as one text, each ended by a line break.
pub open spec fn ended_lines(lines: Seq<Seq<char>>) -> Seq<char>
    decreases lines.len(),
{
    if lines.len() == 0 {
        Seq::empty()
    } else {
        (ended_lines(lines.drop_last()) + lines.last()).push('\n')
    }
}

impl<'a> CopyContext<'a> {
    /// How tall the first `n` selected lines are together.
    pub open spec fn height_of_rows(self, n: int) -> int
        decreases n,
    {
        if n <= 0 {
            0
        } else {
            self.height_of_rows(n - 1) + self.height_of(self.first_row() + n - 1)
        }
    }

    /// The lines of the copied text.
    pub open spec fn copied_lines(self, rows: CopyState) -> Seq<Seq<char>> {
        let canvas = frame_written(self.lines_canvas(rows), self.results_frame(rows));
        Seq::new(canvas.len(), |y: int| trimmed(canvas[y]))
    }
}

/// The canvas has this height, and its rows are whole.
spec fn canvas_shaped(canvas: Seq<Seq<char>>, height: int) -> bool {
    canvas_wf(canvas) && canvas.len() == height
}

proof fn lemma_texts_keep_shape(canvas: Seq<Seq<char>>, texts: Seq<TextCmd>, height: int)
    requires
        canvas_shaped(canvas, height),
        texts_on(texts, height),
    ensures
        canvas_shaped(texts_written(canvas, texts), height),
    decreases texts.len(),
{
    if texts.len() > 0 {
        assert(texts_on(texts.drop_last(), height));
        lemma_texts_keep_shape(canvas, texts.drop_last(), height);
        assert(texts.last() == texts[texts.len() - 1]);
    }
}

proof fn lemma_asciis_keep_shape(canvas: Seq<Seq<char>>, texts: Seq<AsciiCmd>, height: int)
    requires
        canvas_shaped(canvas, height),
        asciis_on(texts, height),
    ensures
        canvas_shaped(asciis_written(canvas, texts), height),
    decreases texts.len(),
{
    if texts.len() > 0 {
        assert(asciis_on(texts.drop_last(), height));
        lemma_asciis_keep_shape(canvas, texts.drop_last(), height);
        assert(texts.last() == texts[texts.len() - 1]);
    }
}

proof fn lemma_cmds_keep_shape(canvas: Seq<Seq<char>>, cmds: Seq<Cmd>, height: int)
    requires
        canvas_shaped(canvas, height),
        cmds_on(cmds, height),
    ensures
        canvas_shaped(cmds_written(canvas, cmds), height),
    decreases cmds.len(),
{
    if cmds.len() > 0 {
        assert(cmds_on(cmds.drop_last(), height));
        lemma_cmds_keep_shape(canvas, cmds.drop_last(), height);
        assert(cmd_on(cmds[cmds.len() - 1], height));
    }
}

/// The canvas before the topmost commands of a frame are written.
spec fn written_below(canvas: Seq<Seq<char>>, frame: Frame) -> Seq<Seq<char>> {
    let behind = cmds_written(canvas, frame.behind_text);
    let texts = asciis_written(texts_written(behind, frame.utf8_texts), frame.ascii_texts);
    let numbers = texts_written(texts_written(texts, frame.numbers), frame.units);
    let operators = texts_written(
        texts_written(numbers, frame.operators),
        frame.line_ref_results,
    );
    cmds_written(texts_written(operators, frame.variable), frame.text)
}

proof fn lemma_frame_keeps_shape(canvas: Seq<Seq<char>>, frame: Frame, height: int)
    requires
        canvas_shaped(canvas, height),
        frame_on(frame, height),
    ensures
        canvas_shaped(written_below(canvas, frame), height),
        canvas_shaped(frame_written(canvas, frame), height),
        frame_written(canvas, frame) == cmds_written(
            written_below(canvas, frame),
            frame.above_text,
        ),
{
    let behind = cmds_written(canvas, frame.behind_text);
    lemma_cmds_keep_shape(canvas, frame.behind_text, height);
    let utf8 = texts_written(behind, frame.utf8_texts);
    lemma_texts_keep_shape(behind, frame.utf8_texts, height);
    let texts = asciis_written(utf8, frame.ascii_texts);
    lemma_asciis_keep_shape(utf8, frame.ascii_texts, height);
    let numbers = texts_written(texts, frame.numbers);
    lemma_texts_keep_shape(texts, frame.numbers, height);
    let units = texts_written(numbers, frame.units);
    lemma_texts_keep_shape(numbers, frame.units, height);
    let operators = texts_written(units, frame.operators);
    lemma_texts_keep_shape(units, frame.operators, height);
    let references = texts_written(operators, frame.line_ref_results);
    lemma_texts_keep_shape(operators, frame.line_ref_results, height);
    let variable = texts_written(references, frame.variable);
    lemma_texts_keep_shape(references, frame.variable, height);
    lemma_cmds_keep_shape(variable, frame.text, height);
    lemma_cmds_keep_shape(written_below(canvas, frame), frame.above_text, height);
}

/// A column that is drawn last stands in every row that it was drawn in.
proof fn lemma_column_is_written(
    canvas: Seq<Seq<char>>,
    frame: Frame,
    x: int,
    ch: char,
    n: int,
    height: int,
)
    requires
        canvas_shaped(canvas, height),
        cmds_on(column_drawn(frame, x, 0, ch, n).above_text, height),
        0 <= n <= height,
    ensures
        ({
            let written = cmds_written(canvas, column_drawn(frame, x, 0, ch, n).above_text);
            &&& canvas_shaped(written, height)
            &&& forall|y: int| 0 <= y < n ==> (#[trigger] written[y])[x] == ch
            &&& n > 0 ==> 0 <= x < written[0].len()
        }),
    decreases n,
{
    let cmds = column_drawn(frame, x, 0, ch, n).above_text;
    lemma_cmds_keep_shape(canvas, cmds, height);
    if n > 0 {
        let shorter = column_drawn(frame, x, 0, ch, n - 1).above_text;
        assert(cmds.drop_last() =~= shorter);
        assert forall|i: int| 0 <= i < shorter.len() implies cmd_on(#[trigger] shorter[i], height) by {
            assert(cmd_on(cmds[i], height));
        }
        lemma_column_is_written(canvas, frame, x, ch, n - 1, height);
        assert(cmd_on(cmds[cmds.len() - 1], height));
    }
}

proof fn lemma_trimmed(row: Seq<char>, x: int)
    requires
        0 <= x < row.len(),
        row[x] != ' ',
    ensures
        x < trimmed(row).len(),
        trimmed(row)[x] == row[x],
        trimmed(row).last() != ' ',
    decreases row.len(),
{
    if row.last() == ' ' {
        lemma_trimmed(row.drop_last(), x);
    }
}

proof fn lemma_canvas_text_is_ended_lines(canvas: Seq<Seq<char>>)
    ensures
        canvas_text(canvas) == ended_lines(Seq::new(canvas.len(), |y: int| trimmed(canvas[y]))),
    decreases canvas.len(),
{
    let lines = Seq::new(canvas.len(), |y: int| trimmed(canvas[y]));
    if canvas.len() > 0 {
        let shorter = canvas.drop_last();
        lemma_canvas_text_is_ended_lines(shorter);
        assert(lines.drop_last() =~= Seq::new(shorter.len(), |y: int| trimmed(shorter[y])));
    }
}

proof fn lemma_height_of_rows(context: CopyContext, state: CopyState, n: int)
    requires
        0 <= n,
        context.rows_fit(state, n),
    ensures
        context.draw_rows(state, n).r.render_y.0 == state.r.render_y.0 + context.height_of_rows(n),
    decreases n,
{
    if n > 0 {
        assert(context.rows_fit(state, n - 1));
        lemma_height_of_rows(context, state, n - 1);
        let before = context.draw_rows(state, n - 1);
        let row = context.first_row() + n - 1;
        let entered = context.entered(before, row);
        assert(context.step_fits(before, row));
        lemma_draw_stays_in_line(
            context.line_context(entered.gr),
            context.line_start(entered),
            context.tokens[row],
            0,
        );
    }
}

/// The copied text is made of as many lines as the selected lines are tall
/// together, each ended by a line break and none with a blank at its end. On
/// every one of them the bar before the results stands in the same column, two
/// after the longest line.
pub proof fn law_copied_text_is_a_table(
    context: CopyContext,
    frame: Frame,
    client_width: int,
    result_gutter_x: int,
    buffer_len: int,
)
    requires
        context.fits(frame, client_width, result_gutter_x, buffer_len),
    ensures
        ({
            let rows = context.all_rows(frame, client_width, result_gutter_x);
            let lines = context.copied_lines(rows);
            let bar_x = context.gutter_x(rows);
            &&& context.text(rows) == ended_lines(lines)
            &&& lines.len() == context.height_of_rows(context.row_count())
            &&& forall|y: int|
                0 <= y < lines.len() ==> {
                    &&& 0 <= bar_x < (#[trigger] lines[y]).len()
                    &&& lines[y][bar_x] == RESULT_BAR
                    &&& lines[y].last() != ' '
                }
        }),
{
    let rows = context.all_rows(frame, client_width, result_gutter_x);
    let height = rows.r.render_y.0 as int;
    let bar_x = context.gutter_x(rows);
    let lines_canvas = context.lines_canvas(rows);
    let results_frame = context.results_frame(rows);
    let canvas = frame_written(lines_canvas, results_frame);
    let start = context.start(frame, client_width, result_gutter_x);
    if context.row_count() >= 0 {
        lemma_height_of_rows(context, start, context.row_count());
    }
    lemma_frame_keeps_shape(blank_canvas(height), rows.frame, height);
    lemma_frame_keeps_shape(lines_canvas, results_frame, height);
    lemma_column_is_written(
        written_below(lines_canvas, results_frame),
        context.results_context(rows).draw(Frame::empty()),
        bar_x,
        RESULT_BAR,
        height,
        height,
    );
    lemma_canvas_text_is_ended_lines(canvas);
    assert forall|y: int| 0 <= y < canvas.len() implies {
        &&& 0 <= bar_x < (#[trigger] trimmed(canvas[y])).len()
        &&& trimmed(canvas[y])[bar_x] == RESULT_BAR
        &&& trimmed(canvas[y]).last() != ' '
    } by {
        assert(canvas[y][bar_x] == RESULT_BAR);
        assert(canvas[0].len() == canvas[y].len());
        lemma_trimmed(canvas[y], bar_x);
    }
}

/// What is drawn last above the text is seen, whatever else is drawn there.
pub proof fn law_text_above_hides_what_is_below(
    canvas: Seq<Seq<char>>,
    frame: Frame,
    text: TextCmd,
    column: int,
)
    requires
        canvas_wf(canvas),
        frame_on(frame, canvas.len() as int),
        frame.above_text.len() > 0,
        frame.above_text.last() == Cmd::Str(text),
        text.column <= column < text.column + text.text.len(),
        column < CANVAS_WIDTH,
    ensures
        frame_written(canvas, frame)[text.row][column] == text.text[column - text.column],
{
    let height = canvas.len() as int;
    let below = written_below(canvas, frame);
    let above = frame.above_text;
    lemma_frame_keeps_shape(canvas, frame, height);
    assert(cmds_on(above.drop_last(), height));
    lemma_cmds_keep_shape(below, above.drop_last(), height);
    assert(cmd_on(above[above.len() - 1], height));
}

/// What is drawn with the text is seen over what is drawn behind it, where nothing
/// else is drawn.
pub proof fn law_text_hides_what_is_behind(
    canvas: Seq<Seq<char>>,
    frame: Frame,
    text: TextCmd,
    column: int,
)
    requires
        canvas_wf(canvas),
        frame_on(frame, canvas.len() as int),
        frame.utf8_texts == seq![text],
        frame.ascii_texts.len() == 0,
        frame.numbers.len() == 0,
        frame.units.len() == 0,
        frame.operators.len() == 0,
        frame.line_ref_results.len() == 0,
        frame.variable.len() == 0,
        frame.text.len() == 0,
        frame.above_text.len() == 0,
        text.column <= column < text.column + text.text.len(),
        column < CANVAS_WIDTH,
    ensures
        frame_written(canvas, frame)[text.row][column] == text.text[column - text.column],
{
    let height = canvas.len() as int;
    lemma_cmds_keep_shape(canvas, frame.behind_text, height);
    let behind = cmds_written(canvas, frame.behind_text);
    assert(place_on(frame.utf8_texts[0].row, frame.utf8_texts[0].column, height));
    assert(frame.utf8_texts.drop_last() =~= Seq::empty());
    assert(texts_written(behind, frame.utf8_texts.drop_last()) == behind);
}

} // verus!
