use vstd::prelude::*;

use crate::buckets::{Cmd, TextCmd};
use crate::canvas::{cmd_written, text_written};
use crate::clipboard::{longest_row, trimmed, CopyContext, CopyState};
use crate::results::Precision;

verus! {

/// A text that is written stands from its column on in its row, as far as the row
/// goes; everything else stays as it was.
pub proof fn law_written_text_stands_at_its_place(
    canvas: Seq<Seq<char>>,
    text: TextCmd,
    row: int,
    column: int,
)
    requires
        0 <= text.row < canvas.len(),
        0 <= row < canvas.len(),
        0 <= column < canvas[row].len(),
    ensures
        ({
            let there = row == text.row && text.column <= column < text.column + text.text.len();
            text_written(canvas, text)[row][column] == (if there {
                text.text[column - text.column]
            } else {
                canvas[row][column]
            })
        }),
        text_written(canvas, text).len() == canvas.len(),
        text_written(canvas, text)[row].len() == canvas[row].len(),
        cmd_written(canvas, Cmd::Text(text)) == text_written(canvas, text),
        cmd_written(canvas, Cmd::Str(text)) == text_written(canvas, text),
{
}

/// A character that is written stands at its place; everything else stays as it
/// was.
pub proof fn law_written_character_stands_at_its_place(
    canvas: Seq<Seq<char>>,
    x: int,
    y: int,
    ch: char,
    row: int,
    column: int,
)
    requires
        0 <= y < canvas.len(),
        0 <= x < canvas[y].len(),
        0 <= row < canvas.len(),
        0 <= column < canvas[row].len(),
    ensures
        cmd_written(canvas, Cmd::Char { x, y, ch })[row][column] == (if row == y && column == x {
            ch
        } else {
            canvas[row][column]
        }),
{
}

/// What is trimmed off a row is all the blanks at its end, and nothing else.
pub proof fn law_only_blanks_at_the_end_are_trimmed(row: Seq<char>)
    ensures
        trimmed(row).is_prefix_of(row),
        trimmed(row).len() > 0 ==> trimmed(row).last() != ' ',
        forall|i: int| trimmed(row).len() <= i < row.len() ==> (#[trigger] row[i]) == ' ',
    decreases row.len(),
{
    if row.len() > 0 && row.last() == ' ' {
        law_only_blanks_at_the_end_are_trimmed(row.drop_last());
        assert forall|i: int| trimmed(row).len() <= i < row.len() implies (#[trigger] row[i])
            == ' ' by {
            if i < row.len() - 1 {
                assert(row.drop_last()[i] == row[i]);
            }
        }
    }
}

proof fn lemma_longest_row(canvas: Seq<Seq<char>>, y: int)
    requires
        0 <= y < canvas.len(),
    ensures
        trimmed(canvas[y]).len() <= longest_row(canvas),
    decreases canvas.len(),
{
    if y < canvas.len() - 1 {
        lemma_longest_row(canvas.drop_last(), y);
    }
}

proof fn lemma_longest_row_exists(canvas: Seq<Seq<char>>) -> (y: int)
    requires
        canvas.len() > 0,
    ensures
        0 <= y < canvas.len(),
        trimmed(canvas[y]).len() == longest_row(canvas),
    decreases canvas.len(),
{
    let last = canvas.len() - 1;
    if canvas.len() == 1 {
        assert(longest_row(canvas.drop_last()) == 0);
        0
    } else {
        let before = lemma_longest_row_exists(canvas.drop_last());
        if trimmed(canvas[last]).len() > longest_row(canvas.drop_last()) {
            last
        } else {
            before
        }
    }
}

/// The bar before the results stands two columns behind the end of each copied
/// line, or further right, and right two columns behind the end of the longest.
pub proof fn law_bar_stands_behind_the_longest_line(context: CopyContext, rows: CopyState, y: int)
    requires
        0 <= y < context.lines_canvas(rows).len(),
    ensures
        trimmed(context.lines_canvas(rows)[y]).len() + 2 <= context.gutter_x(rows),
        exists|longest: int|
            0 <= longest < context.lines_canvas(rows).len() && trimmed(
                #[trigger] context.lines_canvas(rows)[longest],
            ).len() + 2 == context.gutter_x(rows),
{
    let canvas = context.lines_canvas(rows);
    lemma_longest_row(canvas, y);
    let longest = lemma_longest_row_exists(canvas);
    assert(trimmed(canvas[longest]).len() + 2 == context.gutter_x(rows));
}

/// The lines from the first to the last selected one are copied, each from the
/// first column on and below all rows of the one before, drawn as on the screen
/// but with all digits.
pub proof fn law_selected_lines_are_copied_below_each_other<'a>(
    context: CopyContext<'a>,
    start: CopyState,
    n: int,
)
    requires
        0 < n,
    ensures
        ({
            let selection = context.editor.selection;
            let first = match selection.end {
                Some(end) => if end.row < selection.start.row {
                    end.row as int
                } else {
                    selection.start.row as int
                },
                None => selection.start.row as int,
            };
            let last = match selection.end {
                Some(end) => if end.row > selection.start.row {
                    end.row as int
                } else {
                    selection.start.row as int
                },
                None => selection.start.row as int,
            };
            let row = first + n - 1;
            let before = context.draw_rows(start, n - 1);
            let entered = context.entered(before, row);
            let line = context.line_context(entered.gr);
            let drawn = line.draw(context.line_start(entered), context.tokens[row], 0);
            let after = context.draw_rows(start, n);
            &&& context.row_count() == last - first + 1
            &&& entered.frame == before.frame
            &&& entered.r.editor_x == 0
            &&& entered.r.render_x == 0
            &&& entered.r.render_y == before.r.render_y
            &&& after.frame == drawn.frame
            &&& after.r.render_y.0 == (drawn.r.render_y.0 + context.height_of(row)) as usize
            &&& line.precision == Precision::Full
            &&& line.left == before.gr.left_gutter_width
            &&& line.limit == before.gr.current_editor_width
        }),
{
}

/// Next to the copied lines stand their results, in the same order and with all
/// their digits.
pub proof fn law_results_of_the_copied_lines_are_copied<'a>(
    context: CopyContext<'a>,
    rows: CopyState,
    i: int,
)
    requires
        0 <= i < context.row_count(),
        context.first_row() + context.row_count() <= context.results.len(),
    ensures
        ({
            let selection = context.editor.selection;
            let first = match selection.end {
                Some(end) => if end.row < selection.start.row {
                    end.row as int
                } else {
                    selection.start.row as int
                },
                None => selection.start.row as int,
            };
            let results = context.results_context(rows);
            &&& results.results.len() == context.row_count()
            &&& results.results[i] == context.results[first + i]
            &&& results.precision == Precision::Full
            &&& results.gr == rows.gr
        }),
{
}

} // verus!
