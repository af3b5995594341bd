use vstd::prelude::*;

use crate::buckets::{Cmd, Frame, Layer, TextCmd};
use crate::coords::{Pos, Selection};
use crate::selection_render::{column_drawn, longest_line, SelectionContext};

verus! {

/// The place comes before the other one in reading order.
pub open spec fn reads_before(a: Pos, b: Pos) -> bool {
    a.row < b.row || a.row == b.row && a.column < b.column
}

/// A selection goes from the end that comes first in reading order to the other
/// one, whichever it was started at; the cursor stands where it was made to.
/// Without a second end both are the cursor.
pub proof fn law_selection_goes_in_reading_order(selection: Selection)
    ensures
        match selection.end {
            None => selection.cursor() == selection.start && selection.first() == selection.start
                && selection.second() == selection.start,
            Some(end) => {
                &&& selection.cursor() == end
                &&& reads_before(end, selection.start) ==> selection.first() == end
                    && selection.second() == selection.start
                &&& !reads_before(end, selection.start) ==> selection.first() == selection.start
                    && selection.second() == end
            },
        },
{
}

/// The mark over the selected part of a line, where the line is on the screen:
/// from the first selected column on, and in the last selected line up to the
/// last one, never wider than the text is seen. In a line whose end is selected
/// the mark is as long as the line.
pub open spec fn mark_of_row(
    context: SelectionContext,
    first: Pos,
    last: Pos,
    row: int,
) -> Seq<Cmd> {
    match context.gr.render_ys[row] {
        None => Seq::empty(),
        Some(y) => {
            let column = if row == first.row {
                first.column as int
            } else {
                0
            };
            let len = if row == last.row {
                last.column - column
            } else {
                context.lines[row].len() as int
            };
            seq![
                Cmd::Rect {
                    x: context.gr.left_gutter_width + column,
                    y: y.0 as int,
                    w: if len < context.gr.current_editor_width {
                        len
                    } else {
                        context.gr.current_editor_width as int
                    },
                    h: context.gr.heights[row] as int,
                },
            ]
        },
    }
}

/// The marks over the lines from `first` on, before line `end`.
pub open spec fn marks_of_rows(
    context: SelectionContext,
    first: Pos,
    last: Pos,
    end: int,
) -> Seq<Cmd>
    decreases end - first.row,
{
    if end <= first.row {
        Seq::empty()
    } else {
        marks_of_rows(context, first, last, end - 1) + mark_of_row(context, first, last, end - 1)
    }
}

proof fn lemma_marks(context: SelectionContext, frame: Frame, row: int, column: int, len: int)
    ensures
        context.mark(frame, row, column, len).behind_text == frame.behind_text + (
        match context.gr.render_ys[row] {
            None => Seq::empty(),
            Some(y) => seq![
                Cmd::Rect {
                    x: context.gr.left_gutter_width + column,
                    y: y.0 as int,
                    w: if len < context.gr.current_editor_width {
                        len
                    } else {
                        context.gr.current_editor_width as int
                    },
                    h: context.gr.heights[row] as int,
                },
            ],
        }),
        context.mark(frame, row, column, len).above_text == frame.above_text,
        context.mark(frame, row, column, len).text == frame.text,
{
    assert(context.mark(frame, row, column, len).behind_text =~= frame.behind_text + (
    match context.gr.render_ys[row] {
        None => Seq::empty(),
        Some(y) => seq![
            Cmd::Rect {
                x: context.gr.left_gutter_width + column,
                y: y.0 as int,
                w: if len < context.gr.current_editor_width {
                    len
                } else {
                    context.gr.current_editor_width as int
                },
                h: context.gr.heights[row] as int,
            },
        ],
    }));
}

proof fn lemma_line_marks(
    context: SelectionContext,
    frame: Frame,
    first: Pos,
    last: Pos,
    n: int,
    base: Seq<Cmd>,
)
    requires
        0 <= n,
        first.row + 1 + n <= last.row,
        frame.behind_text == base + marks_of_rows(context, first, last, first.row + 1),
    ensures
        context.mark_lines(frame, first.row + 1, n).behind_text == base + marks_of_rows(
            context,
            first,
            last,
            first.row + 1 + n,
        ),
        context.mark_lines(frame, first.row + 1, n).above_text == frame.above_text,
        context.mark_lines(frame, first.row + 1, n).text == frame.text,
    decreases n,
{
    if n > 0 {
        lemma_line_marks(context, frame, first, last, n - 1, base);
        let so_far = context.mark_lines(frame, first.row + 1, n - 1);
        let row = first.row + n;
        lemma_marks(context, so_far, row, 0, context.lines[row].len() as int);
        assert(marks_of_rows(context, first, last, row + 1) == marks_of_rows(
            context,
            first,
            last,
            row,
        ) + mark_of_row(context, first, last, row));
        assert(base + marks_of_rows(context, first, last, row) + mark_of_row(
            context,
            first,
            last,
            row,
        ) =~= base + marks_of_rows(context, first, last, row + 1));
    }
}

proof fn lemma_all_marks(context: SelectionContext, frame: Frame)
    requires
        context.selection.end is Some,
    ensures
        ({
            let first = context.selection.first();
            let last = context.selection.second();
            let marked = context.marks(frame);
            &&& marked.behind_text == frame.behind_text + marks_of_rows(
                context,
                first,
                last,
                last.row + 1,
            )
            &&& marked.above_text == frame.above_text
            &&& marked.text == frame.text
        }),
{
    let first = context.selection.first();
    let last = context.selection.second();
    let base = frame.behind_text;
    let nothing = marks_of_rows(context, first, last, first.row as int);
    assert(nothing =~= Seq::empty());
    assert(marks_of_rows(context, first, last, first.row + 1) =~= mark_of_row(
        context,
        first,
        last,
        first.row as int,
    ));
    if last.row > first.row {
        let one = context.mark(
            frame,
            first.row as int,
            first.column as int,
            context.lines[first.row as int].len() as int,
        );
        lemma_marks(
            context,
            frame,
            first.row as int,
            first.column as int,
            context.lines[first.row as int].len() as int,
        );
        lemma_line_marks(context, one, first, last, last.row - first.row - 1, base);
        let full = context.mark_lines(one, first.row + 1, last.row - first.row - 1);
        lemma_marks(context, full, last.row as int, 0, last.column as int);
        assert(base + marks_of_rows(context, first, last, last.row as int) + mark_of_row(
            context,
            first,
            last,
            last.row as int,
        ) =~= base + marks_of_rows(context, first, last, last.row + 1));
    } else {
        lemma_marks(
            context,
            frame,
            first.row as int,
            first.column as int,
            last.column - first.column,
        );
    }
}

/// Everything that is selected is marked, line by line, and nothing else. Without
/// a selection nothing is marked.
pub proof fn law_selected_text_is_marked(
    context: SelectionContext,
    frame: Frame,
    value: Option<Seq<char>>,
)
    ensures
        ({
            let drawn = context.draw(frame, value);
            let selection = context.selection;
            &&& selection.end is None ==> drawn.behind_text == frame.behind_text.push(
                Cmd::SetColor(0xA6D2FF_FF),
            ) && drawn.above_text == frame.above_text
            &&& selection.end matches Some(end) ==> {
                let first = if reads_before(end, selection.start) {
                    end
                } else {
                    selection.start
                };
                let last = if reads_before(end, selection.start) {
                    selection.start
                } else {
                    end
                };
                drawn.behind_text == frame.behind_text.push(Cmd::SetColor(0xA6D2FF_FF))
                    + marks_of_rows(context, first, last, last.row + 1)
            }
        }),
{
    if context.selection.end is Some {
        let colored = frame.set_color(Layer::BehindText, 0xA6D2FF_FF);
        lemma_all_marks(context, colored);
        if let Some(text) = value {
            lemma_column_stays_above(context, context.marks(colored), text);
        }
    }
}

proof fn lemma_column_behind(frame: Frame, x: int, y: int, ch: char, n: int)
    ensures
        column_drawn(frame, x, y, ch, n).behind_text == frame.behind_text,
        column_drawn(frame, x, y, ch, n).text == frame.text,
        column_drawn(frame, x, y, ch, n).above_text.len() == frame.above_text.len() + (if n > 0 {
            n
        } else {
            0
        }),
        forall|i: int|
            0 <= i < frame.above_text.len() ==> (#[trigger] column_drawn(
                frame,
                x,
                y,
                ch,
                n,
            ).above_text[i]) == frame.above_text[i],
        forall|i: int|
            frame.above_text.len() <= i < frame.above_text.len() + n ==> (#[trigger] column_drawn(
                frame,
                x,
                y,
                ch,
                n,
            ).above_text[i]) == (Cmd::Char { x, y: y + i - frame.above_text.len(), ch }),
    decreases n,
{
    if n > 0 {
        lemma_column_behind(frame, x, y, ch, n - 1);
    }
}

proof fn lemma_column_stays_above(context: SelectionContext, frame: Frame, text: Seq<char>)
    ensures
        context.value(frame, text).behind_text == frame.behind_text,
        context.sum(frame, text).behind_text == frame.behind_text,
{
    let x = context.sum_x();
    let top = context.render_y(context.first_visible());
    let bottom = context.render_y(context.last_visible());
    let shown = seq!['⎬', ' ', '∑', ' ', '=', ' '] + text;
    let with_ends = frame.set_color(Layer::AboveText, 0xAAFFAA_FF).draw_rect(
        Layer::AboveText,
        x,
        top,
        (shown.len() + 1) as int,
        bottom - top + 1,
    ).set_color(Layer::AboveText, 0x000000_FF).draw_char(
        Layer::AboveText,
        x,
        top,
        if context.first_visible() == context.selection.first().row {
            '⎫'
        } else {
            '⎪'
        },
    ).draw_char(
        Layer::AboveText,
        x,
        bottom,
        if context.last_visible() == context.selection.second().row {
            '⎭'
        } else {
            '⎪'
        },
    );
    lemma_column_behind(with_ends, x, top + 1, '⎪', bottom - top - 1);
}

/// The value of a selected part of a line is shown in the middle above it, in the
/// first line below it: an equals sign, a blank and the value, on a background.
pub proof fn law_value_is_shown_next_to_the_selection(
    context: SelectionContext,
    frame: Frame,
    text: Seq<char>,
)
    requires
        context.selection.end matches Some(end) && end.row == context.selection.start.row,
        context.gr.render_ys[context.selection.start.row as int] is Some,
    ensures
        ({
            let selection = context.selection;
            let end = selection.end.unwrap();
            let left = if end.column < selection.start.column {
                end.column as int
            } else {
                selection.start.column as int
            };
            let right = if end.column < selection.start.column {
                selection.start.column as int
            } else {
                end.column as int
            };
            let middle = left + (right - left) / 2;
            let half = (text.len() + 2) / 2;
            let x = context.gr.left_gutter_width + (if middle < half {
                0
            } else {
                middle - half
            });
            let line_y = context.gr.render_ys[selection.start.row as int].unwrap().0;
            let y = if selection.start.row == 0 {
                line_y + 1
            } else {
                line_y - 1
            };
            context.draw(frame, Some(text)).above_text == frame.above_text + seq![
                Cmd::SetColor(0xAAFFAA_FF),
                Cmd::Rect { x, y, w: (text.len() + 2) as int, h: 1 },
                Cmd::SetColor(0x000000_FF),
                Cmd::Str(TextCmd { text: seq!['=', ' '] + text, row: y, column: x }),
            ]
        }),
{
    let colored = frame.set_color(Layer::BehindText, 0xA6D2FF_FF);
    lemma_all_marks(context, colored);
    let marked = context.marks(colored);
    let shown = seq!['=', ' '] + text;
    let x = context.left() + context.value_x(shown.len() as int);
    let y = context.value_y();
    assert(context.value(marked, text).above_text =~= marked.above_text + seq![
        Cmd::SetColor(0xAAFFAA_FF),
        Cmd::Rect { x, y, w: shown.len() as int, h: 1 },
        Cmd::SetColor(0x000000_FF),
        Cmd::Str(TextCmd { text: shown, row: y, column: x }),
    ]);
}

proof fn lemma_longest_line(lines: Seq<Seq<char>>, first: int, n: int)
    requires
        n >= 1,
    ensures
        forall|row: int|
            first <= row < first + n ==> (#[trigger] lines[row]).len() <= longest_line(
                lines,
                first,
                n,
            ),
        exists|row: int|
            first <= row < first + n && (#[trigger] lines[row]).len() == longest_line(
                lines,
                first,
                n,
            ),
    decreases n,
{
    let last = lines[first + n - 1];
    if n > 1 {
        lemma_longest_line(lines, first, n - 1);
        let row = choose|row: int|
            first <= row < first + n - 1 && (#[trigger] lines[row]).len() == longest_line(
                lines,
                first,
                n - 1,
            );
        if last.len() > longest_line(lines, first, n - 1) {
            assert(lines[first + n - 1].len() == longest_line(lines, first, n));
        } else {
            assert(lines[row].len() == longest_line(lines, first, n));
        }
    } else {
        reveal_with_fuel(longest_line, 2);
        assert(lines[first].len() == longest_line(lines, first, n));
    }
}

/// The sum of selected lines is shown right of the longest of them, three columns
/// behind it, in the middle of those that are seen, behind a brace that encloses
/// them: its ends stand at the first and the last selected line, where those are
/// seen.
pub proof fn law_sum_is_shown_behind_a_brace(
    context: SelectionContext,
    frame: Frame,
    text: Seq<char>,
    upper: int,
    lower: int,
)
    requires
        context.selection.end matches Some(end) && end.row != context.selection.start.row,
        ({
            let start = context.selection.start.row;
            let end = context.selection.end.unwrap().row;
            let first = if start < end {
                start as int
            } else {
                end as int
            };
            let last = if start < end {
                end as int
            } else {
                start as int
            };
            let scrolled = context.gr.scroll_y as int;
            let screen_end = scrolled + context.gr.client_height - 1;
            &&& upper == (if first < scrolled {
                scrolled
            } else {
                first
            })
            &&& lower == (if last < screen_end {
                last
            } else {
                screen_end
            })
            &&& context.gr.render_ys[upper] is Some
            &&& context.gr.render_ys[lower] is Some
            &&& context.gr.render_ys[upper].unwrap().0 <= context.gr.render_ys[lower].unwrap().0
        }),
    ensures
        ({
            let start = context.selection.start.row;
            let end = context.selection.end.unwrap().row;
            let first = if start < end {
                start as int
            } else {
                end as int
            };
            let last = if start < end {
                end as int
            } else {
                start as int
            };
            let top = context.gr.render_ys[upper].unwrap().0 as int;
            let bottom = context.gr.render_ys[lower].unwrap().0 as int;
            let drawn = context.draw(frame, Some(text)).above_text;
            let n = frame.above_text.len() as int;
            let label = seq!['⎬', ' ', '∑', ' ', '=', ' '] + text;
            let x = drawn[n + 3]->Char_x;
            &&& exists|row: int|
                first <= row <= last && x == context.gr.left_gutter_width + (
                #[trigger] context.lines[row]).len() + 3
            &&& forall|row: int|
                first <= row <= last ==> x >= context.gr.left_gutter_width + (
                #[trigger] context.lines[row]).len() + 3
            &&& drawn[n] == Cmd::SetColor(0xAAFFAA_FF)
            &&& drawn[n + 1] == (Cmd::Rect {
                x,
                y: top,
                w: (text.len() + 7) as int,
                h: bottom - top + 1,
            })
            &&& drawn[n + 3] == (Cmd::Char {
                x,
                y: top,
                ch: if upper == first {
                    '⎫'
                } else {
                    '⎪'
                },
            })
            &&& drawn[n + 4] == (Cmd::Char {
                x,
                y: bottom,
                ch: if lower == last {
                    '⎭'
                } else {
                    '⎪'
                },
            })
            &&& forall|y: int|
                #![trigger drawn[n + 4 + (y - top)]]
                top < y < bottom ==> drawn[n + 4 + (y - top)] == (Cmd::Char { x, y, ch: '⎪' })
            &&& drawn.last() == Cmd::Str(
                TextCmd { text: label, row: top + (bottom - top) / 2, column: x },
            )
        }),
{
    let colored = frame.set_color(Layer::BehindText, 0xA6D2FF_FF);
    lemma_all_marks(context, colored);
    let marked = context.marks(colored);
    let first = context.selection.first().row as int;
    let last = context.selection.second().row as int;
    lemma_longest_line(context.lines, first, last - first + 1);
    let x = context.sum_x();
    let top = context.render_y(context.first_visible());
    let bottom = context.render_y(context.last_visible());
    let shown = seq!['⎬', ' ', '∑', ' ', '=', ' '] + text;
    let with_ends = marked.set_color(Layer::AboveText, 0xAAFFAA_FF).draw_rect(
        Layer::AboveText,
        x,
        top,
        (shown.len() + 1) as int,
        bottom - top + 1,
    ).set_color(Layer::AboveText, 0x000000_FF).draw_char(
        Layer::AboveText,
        x,
        top,
        if context.first_visible() == context.selection.first().row {
            '⎫'
        } else {
            '⎪'
        },
    ).draw_char(
        Layer::AboveText,
        x,
        bottom,
        if context.last_visible() == context.selection.second().row {
            '⎭'
        } else {
            '⎪'
        },
    );
    lemma_column_behind(with_ends, x, top + 1, '⎪', bottom - top - 1);
    let n = frame.above_text.len() as int;
    let braced = column_drawn(with_ends, x, top + 1, '⎪', bottom - top - 1);
    let drawn = context.draw(frame, Some(text)).above_text;
    assert(with_ends.above_text.len() == n + 5);
    assert(drawn =~= braced.above_text.push(
        Cmd::Str(TextCmd { text: shown, row: top + (bottom - top) / 2, column: x }),
    ));
    assert(drawn[n + 3] == with_ends.above_text[n + 3]);
    assert forall|y: int|
        #![trigger drawn[n + 4 + (y - top)]]
        top < y < bottom implies drawn[n + 4 + (y - top)] == (Cmd::Char { x, y, ch: '⎪' }) by {
        assert(braced.above_text[n + 4 + (y - top)] == (Cmd::Char { x, y, ch: '⎪' }));
    }
    let row = choose|row: int|
        first <= row < last + 1 && (#[trigger] context.lines[row]).len() == longest_line(
            context.lines,
            first,
            last - first + 1,
        );
    assert(x == context.gr.left_gutter_width + context.lines[row].len() + 3);
}

} // verus!
