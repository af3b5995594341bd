use vstd::prelude::*;

use crate::buckets::{Cmd, Frame, Layer, TextCmd};
use crate::coords::Pos;
use crate::matrix_edit_render::{byte_len, byte_prefix, MatrixArea};
use crate::matrix_editing::MatrixEditingView;
use crate::matrix_layout::{
    bracket, column_x, largest, lemma_largest_is_upper_bound, lemma_shown_columns_range,
    seen_len,
};
use crate::matrix_obj_render::MatrixTokens;
use crate::token_laws::lemma_shown_past;

verus! {

/// The layers of a frame only grow: what was drawn stays.
pub open spec fn only_grows(before: Frame, after: Frame) -> bool {
    &&& before.text.len() <= after.text.len()
    &&& after.text.take(before.text.len() as int) == before.text
    &&& before.behind_text.len() <= after.behind_text.len()
    &&& after.behind_text.take(before.behind_text.len() as int) == before.behind_text
    &&& after.operators == before.operators
}

proof fn lemma_grows_on(a: Frame, b: Frame, c: Frame)
    requires
        only_grows(a, b),
        only_grows(b, c),
    ensures
        only_grows(a, c),
{
    assert(c.text.take(a.text.len() as int) =~= c.text.take(b.text.len() as int).take(
        a.text.len() as int,
    ));
    assert(c.behind_text.take(a.behind_text.len() as int) =~= c.behind_text.take(
        b.behind_text.len() as int,
    ).take(a.behind_text.len() as int));
}

proof fn lemma_command_grows(frame: Frame, layer: Layer, cmd: Cmd)
    requires
        layer != Layer::AboveText,
    ensures
        only_grows(frame, frame.on(layer, cmd)),
{
    let after = frame.on(layer, cmd);
    assert(after.text.take(frame.text.len() as int) =~= frame.text);
    assert(after.behind_text.take(frame.behind_text.len() as int) =~= frame.behind_text);
}

proof fn lemma_char_grows(frame: Frame, x: int, y: int, ch: char)
    ensures
        ({
            let after = frame.draw_char(Layer::Text, x, y, ch);
            &&& only_grows(frame, after)
            &&& after.text.len() == frame.text.len() + 1
            &&& after.text.last() == (Cmd::Char { x, y, ch })
            &&& forall|i: int|
                0 <= i < frame.text.len() ==> (#[trigger] after.text[i]) == frame.text[i]
        }),
{
    lemma_command_grows(frame, Layer::Text, Cmd::Char { x, y, ch });
}

proof fn lemma_chars_grow(frame: Frame, x: int, y: int, line: Seq<char>)
    ensures
        ({
            let after = frame.draw_chars(Layer::Text, x, y, line);
            &&& only_grows(frame, after)
            &&& after.text.len() == frame.text.len() + line.len()
            &&& after.behind_text == frame.behind_text
            &&& forall|j: int|
                0 <= j < line.len() ==> (#[trigger] after.text[frame.text.len() + j])
                    == (Cmd::Char { x: x + j, y, ch: line[j] })
        }),
    decreases line.len(),
{
    let n = frame.text.len() as int;
    if line.len() > 0 {
        let shorter = line.drop_last();
        lemma_chars_grow(frame, x, y, shorter);
        let so_far = frame.draw_chars(Layer::Text, x, y, shorter);
        lemma_char_grows(so_far, x + line.len() - 1, y, line.last());
        lemma_grows_on(
            frame,
            so_far,
            so_far.draw_char(Layer::Text, x + line.len() - 1, y, line.last()),
        );
        let after = frame.draw_chars(Layer::Text, x, y, line);
        assert forall|j: int| 0 <= j < line.len() implies (#[trigger] after.text[n + j])
            == (Cmd::Char { x: x + j, y, ch: line[j] }) by {
            if j < shorter.len() {
                assert(so_far.text[n + j] == (Cmd::Char { x: x + j, y, ch: shorter[j] }));
            }
        }
    } else {
        assert(frame.text.take(n) =~= frame.text);
        assert(frame.behind_text.take(frame.behind_text.len() as int) =~= frame.behind_text);
    }
}

/// The cell that is edited is drawn as its editor holds it: the characters of its
/// first line next to each other, on a background as wide as is seen of them;
/// what is selected marked; and the cursor where it stands in the cell, where it
/// is shown.
pub proof fn law_current_cell_is_drawn_as_it_is_edited(
    edited: MatrixEditingView,
    frame: Frame,
    area: MatrixArea,
    text_x: int,
    row: int,
)
    requires
        edited.lines.len() >= 1,
    ensures
        ({
            let after = edited.draw_current_cell(frame, area, text_x, row);
            let line = edited.lines[0];
            let x = area.left + text_x;
            let y = area.top + row;
            let n = frame.text.len() as int;
            let b = frame.behind_text.len() as int;
            let selection = edited.editor.selection;
            let cursor = match selection.end {
                Some(end) => end,
                None => selection.start,
            };
            let seen = if area.limit <= text_x {
                0
            } else if line.len() <= area.limit - text_x {
                line.len() as int
            } else {
                area.limit - text_x
            };
            &&& only_grows(frame, after)
            &&& after.text.len() >= n + 1 + line.len()
            &&& forall|j: int|
                0 <= j < line.len() ==> (#[trigger] after.text[n + 1 + j])
                    == (Cmd::Char { x: x + j, y, ch: line[j] })
            &&& after.behind_text.len() >= b + 2
            &&& after.behind_text[b] == Cmd::SetColor(0xBBBBBB_55)
            &&& after.behind_text[b + 1] == (Cmd::Rect { x, y, w: seen, h: 1 })
            &&& selection.end is None ==> after.behind_text.len() == b + 2
            &&& selection.end is Some && selection.start.row == cursor.row ==> {
                let first = if cursor.column < selection.start.column {
                    cursor.column
                } else {
                    selection.start.column
                };
                let last = if cursor.column < selection.start.column {
                    selection.start.column
                } else {
                    cursor.column
                };
                &&& after.behind_text.len() == b + 4
                &&& after.behind_text[b + 2] == Cmd::SetColor(0xA6D2FF_FF)
                &&& after.behind_text[b + 3] == (Cmd::Rect { x: x + first, y, w: last - first, h: 1 })
            }
            &&& edited.editor.cursor_shown ==> after.text.last() == (Cmd::Char {
                x: x + cursor.column,
                y,
                ch: '▏',
            })
            &&& !edited.editor.cursor_shown ==> after.text.len() == n + 1 + line.len()
        }),
{
    let line = edited.lines[0];
    let x = text_x + area.left;
    let y = area.top + row;
    let n = frame.text.len() as int;
    let selection = edited.editor.selection;
    let seen = seen_len(line.len() as int, text_x, area.limit as int);
    let f1 = frame.on(Layer::BehindText, Cmd::SetColor(0xBBBBBB_55));
    let f2 = f1.on(Layer::BehindText, Cmd::Rect { x, y, w: seen, h: 1 });
    let f3 = f2.on(Layer::Text, Cmd::SetColor(0x000000_FF));
    lemma_command_grows(frame, Layer::BehindText, Cmd::SetColor(0xBBBBBB_55));
    lemma_command_grows(f1, Layer::BehindText, Cmd::Rect { x, y, w: seen, h: 1 });
    lemma_command_grows(f2, Layer::Text, Cmd::SetColor(0x000000_FF));
    lemma_grows_on(frame, f1, f2);
    lemma_grows_on(frame, f2, f3);
    lemma_chars_grow(f3, x, y, line);
    let f4 = f3.draw_chars(Layer::Text, x, y, line);
    lemma_grows_on(frame, f3, f4);
    let mark = Cmd::Rect {
        x: x + selection.first().column,
        y,
        w: selection.second().column - selection.first().column,
        h: 1,
    };
    let f5 = f4.on(Layer::BehindText, Cmd::SetColor(0xA6D2FF_FF));
    let f6 = f5.on(Layer::BehindText, mark);
    lemma_command_grows(f4, Layer::BehindText, Cmd::SetColor(0xA6D2FF_FF));
    lemma_command_grows(f5, Layer::BehindText, mark);
    lemma_grows_on(frame, f4, f5);
    lemma_grows_on(frame, f5, f6);
    let f7 = if selection.end is Some {
        f6
    } else {
        f4
    };
    assert(f7.text == f4.text);
    let f8 = f7.on(Layer::Text, Cmd::SetColor(0x000000_FF));
    let cursor_cmd = Cmd::Char { x: x + selection.cursor().column, y, ch: '▏' };
    lemma_command_grows(f7, Layer::Text, Cmd::SetColor(0x000000_FF));
    lemma_command_grows(f8, Layer::Text, cursor_cmd);
    lemma_grows_on(frame, f7, f8);
    lemma_grows_on(frame, f8, f8.on(Layer::Text, cursor_cmd));
    let after = edited.draw_current_cell(frame, area, text_x, row);
    assert(f3.text.len() == n + 1);
    assert forall|j: int| 0 <= j < line.len() implies (#[trigger] after.text[n + 1 + j])
        == (Cmd::Char { x: x + j, y, ch: line[j] }) by {
        assert(f4.text[f3.text.len() + j] == (Cmd::Char { x: x + j, y, ch: line[j] }));
    }
}

proof fn lemma_cell_grows(
    edited: MatrixEditingView,
    frame: Frame,
    area: MatrixArea,
    x: int,
    row: int,
    col: int,
)
    requires
        edited.lines.len() >= 1,
    ensures
        only_grows(frame, edited.draw_cell(frame, area, x, row, col)),
{
    let text_x = edited.text_x(x, row, col);
    if edited.is_current(row, col) {
        law_current_cell_is_drawn_as_it_is_edited(edited, frame, area, text_x, row);
    } else {
        let colored = frame.on(Layer::Text, Cmd::SetColor(0x000000_FF));
        let after = edited.draw_cell(frame, area, x, row, col);
        lemma_command_grows(frame, Layer::Text, Cmd::SetColor(0x000000_FF));
        lemma_command_grows(colored, Layer::Text, after.text.last());
        lemma_grows_on(frame, colored, after);
    }
}

/// What is drawn for the cell of row `r` and column `c`, at the end of the frame:
/// for the current cell what its editor shows, for another one its text.
spec fn cell_end(
    edited: MatrixEditingView,
    frame: Frame,
    area: MatrixArea,
    x: int,
    r: int,
    c: int,
    k: int,
) -> bool {
    let text_x = x + edited.widths()[c] - edited.cell_len(r, c);
    if edited.is_current(r, c) {
        &&& k + edited.lines[0].len() <= frame.text.len()
        &&& 0 <= k
        &&& forall|j: int|
            0 <= j < edited.lines[0].len() ==> (#[trigger] frame.text[k + j]) == (Cmd::Char {
                x: area.left + text_x + j,
                y: area.top + r,
                ch: edited.lines[0][j],
            })
    } else {
        let text = edited.cells[r * edited.col_count + c];
        &&& 0 <= k < frame.text.len()
        &&& frame.text[k] == Cmd::Str(
            TextCmd {
                text: byte_prefix(
                    text,
                    seen_len(byte_len(text), text_x, area.limit as int),
                ),
                row: area.top + r,
                column: area.left + text_x,
            },
        )
    }
}

proof fn lemma_end_stays(
    edited: MatrixEditingView,
    before: Frame,
    after: Frame,
    area: MatrixArea,
    x: int,
    r: int,
    c: int,
    k: int,
)
    requires
        only_grows(before, after),
        cell_end(edited, before, area, x, r, c, k),
    ensures
        cell_end(edited, after, area, x, r, c, k),
{
    assert forall|i: int| 0 <= i < before.text.len() implies #[trigger] after.text[i]
        == before.text[i] by {
        assert(after.text.take(before.text.len() as int)[i] == after.text[i]);
    }
    if edited.is_current(r, c) {
        let text_x = x + edited.widths()[c] - edited.cell_len(r, c);
        assert forall|j: int| 0 <= j < edited.lines[0].len() implies (
        #[trigger] after.text[k + j]) == (Cmd::Char {
            x: area.left + text_x + j,
            y: area.top + r,
            ch: edited.lines[0][j],
        }) by {
            assert(before.text[k + j] == (Cmd::Char {
                x: area.left + text_x + j,
                y: area.top + r,
                ch: edited.lines[0][j],
            }));
        }
    }
}

proof fn lemma_column_drawn(
    edited: MatrixEditingView,
    frame: Frame,
    area: MatrixArea,
    x: int,
    c: int,
    n: int,
    r: int,
) -> (k: int)
    requires
        edited.lines.len() >= 1,
        0 <= n,
    ensures
        only_grows(frame, edited.draw_column(frame, area, x, c, n)),
        0 <= r < n ==> cell_end(edited, edited.draw_column(frame, area, x, c, n), area, x, r, c, k),
    decreases n,
{
    if n > 0 {
        let k = lemma_column_drawn(edited, frame, area, x, c, n - 1, r);
        let so_far = edited.draw_column(frame, area, x, c, n - 1);
        let after = edited.draw_column(frame, area, x, c, n);
        lemma_cell_grows(edited, so_far, area, x, n - 1, c);
        lemma_grows_on(frame, so_far, after);
        if r < n - 1 {
            if 0 <= r {
                lemma_end_stays(edited, so_far, after, area, x, r, c, k);
            }
            k
        } else {
            let text_x = edited.text_x(x, n - 1, c);
            law_current_cell_is_drawn_as_it_is_edited(edited, so_far, area, text_x, n - 1);
            if edited.is_current(n - 1, c) {
                assert forall|j: int| 0 <= j < edited.lines[0].len() implies (
                #[trigger] after.text[so_far.text.len() + 1 + j]) == (Cmd::Char {
                    x: area.left + text_x + j,
                    y: area.top + (n - 1),
                    ch: edited.lines[0][j],
                }) by {}
            }
            so_far.text.len() as int + 1
        }
    } else {
        assert(frame.text.take(frame.text.len() as int) =~= frame.text);
        assert(frame.behind_text.take(frame.behind_text.len() as int) =~= frame.behind_text);
        0
    }
}

proof fn lemma_columns_drawn(
    edited: MatrixEditingView,
    frame: Frame,
    area: MatrixArea,
    start: int,
    n: int,
    r: int,
    c: int,
) -> (k: int)
    requires
        edited.lines.len() >= 1,
        edited.row_count >= 0,
        0 <= n,
        0 <= r < edited.row_count,
    ensures
        only_grows(frame, edited.draw_columns(frame, area, start, n)),
        0 <= c < n ==> cell_end(
            edited,
            edited.draw_columns(frame, area, start, n),
            area,
            column_x(start, edited.widths(), c),
            r,
            c,
            k,
        ),
    decreases n,
{
    if n > 0 {
        let k = lemma_columns_drawn(edited, frame, area, start, n - 1, r, c);
        let so_far = edited.draw_columns(frame, area, start, n - 1);
        let after = edited.draw_columns(frame, area, start, n);
        let x = column_x(start, edited.widths(), n - 1);
        let m = lemma_column_drawn(edited, so_far, area, x, n - 1, edited.row_count, r);
        lemma_grows_on(frame, so_far, after);
        if c < n - 1 {
            if 0 <= c {
                lemma_end_stays(
                    edited,
                    so_far,
                    after,
                    area,
                    column_x(start, edited.widths(), c),
                    r,
                    c,
                    k,
                );
            }
            k
        } else {
            m
        }
    } else {
        assert(frame.text.take(frame.text.len() as int) =~= frame.text);
        assert(frame.behind_text.take(frame.behind_text.len() as int) =~= frame.behind_text);
        0
    }
}

/// A matrix that is edited is drawn cell by cell: the cell of row `r` and column
/// `c`, which is the cell number `r` times the number of columns, plus `c`, stands
/// `r` rows below the first one, aligned to the right of its column, as far as it
/// is seen. The current cell shows what is typed into it, not what is stored.
pub proof fn law_edited_matrix_is_drawn_row_by_row(
    edited: MatrixEditingView,
    frame: Frame,
    area: MatrixArea,
    x: int,
    r: int,
    c: int,
) -> (k: int)
    requires
        edited.lines.len() >= 1,
        0 <= r < edited.row_count,
        0 <= c < edited.col_count,
        forall|i: int|
            0 <= i <= c ==> #[trigger] column_x(x + 1, edited.widths(), i) < area.limit,
    ensures
        ({
            let drawn = edited.draw(frame, area, x).text;
            let current = edited.current_cell == Pos { row: r as usize, column: c as usize };
            let text = edited.cells[r * edited.col_count + c];
            let len = if current {
                edited.lines[0].len() as int
            } else {
                byte_len(text)
            };
            let text_x = column_x(x + 1, edited.widths(), c) + edited.widths()[c] - len;
            let seen = if area.limit <= text_x {
                0
            } else if len <= area.limit - text_x {
                len
            } else {
                area.limit - text_x
            };
            &&& 0 <= k
            &&& r <= usize::MAX && c <= usize::MAX && current ==> {
                &&& k + len <= drawn.len()
                &&& forall|j: int|
                    0 <= j < len ==> (#[trigger] drawn[k + j]) == (Cmd::Char {
                        x: area.left + text_x + j,
                        y: area.top + r,
                        ch: edited.lines[0][j],
                    })
            }
            &&& r <= usize::MAX && c <= usize::MAX && !current ==> {
                &&& k < drawn.len()
                &&& drawn[k] == Cmd::Str(
                    TextCmd {
                        text: byte_prefix(text, seen),
                        row: area.top + r,
                        column: area.left + text_x,
                    },
                )
            }
        }),
{
    let n = edited.shown(x, area.limit as int);
    lemma_shown_past(x + 1, edited.widths(), area.limit as int, 0, c);
    let opened = frame.with_operators(
        bracket(true, edited.row_count, area.top as int, x + area.left),
    );
    lemma_columns_drawn(edited, opened, area, x + 1, n, r, c)
}

/// The columns of an edited matrix are as wide as their widest cell; the current
/// cell counts with what is typed into it.
pub proof fn law_edited_column_is_as_wide_as_its_widest_cell(
    edited: MatrixEditingView,
    r: int,
    c: int,
)
    requires
        0 <= r < edited.row_count,
        0 <= c < edited.col_count,
    ensures
        ({
            let current = edited.current_cell.row == r && edited.current_cell.column == c;
            edited.widths()[c] >= (if current {
                edited.lines[0].len() as int
            } else {
                byte_len(edited.cells[r * edited.col_count + c])
            })
        }),
        exists|row: int|
            0 <= row < edited.row_count && #[trigger] edited.cell_len(row, c)
                == edited.widths()[c],
{
    let lens = edited.lens_in_column(c);
    lemma_largest_is_upper_bound(lens, edited.row_count, r);
    lemma_some_cell_is_widest(edited, c, edited.row_count);
    let row = choose|row: int|
        0 <= row < edited.row_count && #[trigger] edited.cell_len(row, c) == largest(
            lens,
            edited.row_count,
        );
    assert(edited.cell_len(row, c) == edited.widths()[c]);
}

proof fn lemma_some_cell_is_widest(edited: MatrixEditingView, c: int, n: int)
    requires
        n >= 1,
    ensures
        exists|row: int|
            0 <= row < n && #[trigger] edited.cell_len(row, c) == largest(
                edited.lens_in_column(c),
                n,
            ),
    decreases n,
{
    let lens = edited.lens_in_column(c);
    assert(edited.cell_len(n - 1, c) >= 0);
    if n > 1 {
        lemma_some_cell_is_widest(edited, c, n - 1);
        let row = choose|row: int|
            0 <= row < n - 1 && #[trigger] edited.cell_len(row, c) == largest(lens, n - 1);
        assert(edited.cell_len(row, c) == largest(lens, n - 1));
        assert(lens(n - 1) == edited.cell_len(n - 1, c));
    } else {
        assert(largest(lens, 0) == 0);
        assert(lens(0) == edited.cell_len(0, c));
        assert(edited.cell_len(0, c) == largest(lens, n));
    }
}

/// Where all its columns are seen, a matrix in the text ends with its closing
/// bracket, right behind the last column; where not, it ends where the first
/// column would start that is not seen. The closing bracket of an edited matrix
/// of one row takes no column.
pub proof fn law_matrix_ends_with_its_bracket(
    matrix: MatrixTokens,
    edited: MatrixEditingView,
    x: int,
    limit: int,
)
    requires
        matrix.col_count >= 1,
        edited.col_count >= 1,
    ensures
        ({
            let cols = matrix.col_count as int;
            let start = x + 1;
            let end = column_x(start, matrix.widths(), cols);
            (forall|i: int| 0 <= i < cols ==> #[trigger] column_x(start, matrix.widths(), i) < limit)
                ==> matrix.end_x(x, limit) == end + 1
        }),
        ({
            let cols = edited.col_count;
            let start = x + 1;
            let end = column_x(start, edited.widths(), cols);
            (forall|i: int| 0 <= i < cols ==> #[trigger] column_x(start, edited.widths(), i) < limit)
                ==> edited.end_x(x, limit) == (if edited.row_count == 1 {
                end
            } else {
                end + 1
            })
        }),
{
    let start = x + 1;
    if forall|i: int|
        0 <= i < matrix.col_count ==> #[trigger] column_x(start, matrix.widths(), i) < limit {
        lemma_shown_past(start, matrix.widths(), limit, 0, matrix.col_count - 1);
        lemma_shown_columns_range(start, matrix.widths(), limit, 0);
    }
    if forall|i: int|
        0 <= i < edited.col_count ==> #[trigger] column_x(start, edited.widths(), i) < limit {
        lemma_shown_past(start, edited.widths(), limit, 0, edited.col_count - 1);
        lemma_shown_columns_range(start, edited.widths(), limit, 0);
    }
}

} // verus!
