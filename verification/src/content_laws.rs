use vstd::prelude::*;

use crate::app::{ten_line_breaks, NoteCalcApp};
use crate::content::{
    joined_lines, law_split_lines_join_again, lemma_split_lines_not_empty, split_lines,
};
use crate::coords::Pos;
use crate::editor::{EditorCommandView, RowModificationType};
use crate::event_laws::lemma_rows_are_had;
use crate::results::ResultFormat;

verus! {

/// Texts with a separator between them.
pub open spec fn joined_by(texts: Seq<Seq<char>>, separator: char) -> Seq<char>
    decreases texts.len(),
{
    if texts.len() == 0 {
        Seq::empty()
    } else if texts.len() == 1 {
        texts[0]
    } else {
        joined_by(texts.drop_last(), separator).push(separator) + texts.last()
    }
}

proof fn lemma_lines_are_joined_by_breaks(lines: Seq<Seq<char>>)
    ensures
        joined_lines(lines) == joined_by(lines, '\n'),
    decreases lines.len(),
{
    if lines.len() > 1 {
        lemma_lines_are_joined_by_breaks(lines.drop_last());
    }
}

proof fn lemma_lines_hold_no_breaks(text: Seq<char>)
    ensures
        forall|i: int, k: int|
            0 <= i < split_lines(text).len() && 0 <= k < split_lines(text)[i].len()
                ==> #[trigger] split_lines(text)[i][k] != '\n',
    decreases text.len(),
{
    if text.len() > 0 {
        let before = split_lines(text.drop_last());
        lemma_lines_hold_no_breaks(text.drop_last());
        lemma_split_lines_not_empty(text.drop_last());
        assert forall|i: int, k: int|
            0 <= i < split_lines(text).len() && 0 <= k < split_lines(text)[i].len() implies
            #[trigger] split_lines(text)[i][k] != '\n' by {
            if i < before.len() && k < before[i].len() {
                assert(before[i][k] != '\n');
            }
        }
    }
}

/// A text is cut at its line breaks, and nowhere else: the lines hold none, and
/// with line breaks between them they are the text.
pub proof fn law_text_is_cut_at_its_line_breaks(text: Seq<char>)
    ensures
        joined_by(split_lines(text), '\n') == text,
        split_lines(text).len() >= 1,
        forall|i: int, k: int|
            0 <= i < split_lines(text).len() && 0 <= k < split_lines(text)[i].len()
                ==> #[trigger] split_lines(text)[i][k] != '\n',
{
    lemma_lines_are_joined_by_breaks(split_lines(text));
    law_split_lines_join_again(text);
    lemma_split_lines_not_empty(text);
    lemma_lines_hold_no_breaks(text);
}

/// The lines of a text are given out with line breaks between them.
pub proof fn law_lines_are_given_out_with_breaks_between(lines: Seq<Seq<char>>)
    ensures
        joined_lines(lines) == joined_by(lines, '\n'),
{
    lemma_lines_are_joined_by_breaks(lines);
}

/// A text that was set stands in the lines as it is; an empty one leaves eleven
/// empty lines. The lines are numbered from one on and show decimal numbers, the
/// next line gets the next number, the screen starts at the first line, the
/// cursor is put there, and all lines are to be updated.
pub proof fn law_set_text_stands_in_the_lines(
    app: NoteCalcApp,
    text: Seq<char>,
    after: NoteCalcApp,
    commands: Seq<EditorCommandView>,
    effect: RowModificationType,
)
    requires
        app.content_set(text, after, commands, effect),
    ensures
        ({
            let lines = after.editor_content.text_lines();
            let data = after.editor_content.data@;
            &&& text.len() > 0 ==> joined_by(lines, '\n') == text
            &&& text.len() == 0 ==> lines.len() == 11 && forall|i: int|
                0 <= i < 11 ==> (#[trigger] lines[i]).len() == 0
            &&& data.len() == lines.len()
            &&& forall|i: int|
                0 <= i < data.len() && i < usize::MAX ==> (#[trigger] data[i]).line_id == i + 1
                    && data[i].result_format == ResultFormat::Dec
            &&& after.line_id_generator == lines.len() + 1
            &&& after.render_data@.scroll_y == 0
            &&& after.render_data@.client_height == app.render_data@.client_height
            &&& commands == seq![EditorCommandView::SetCursor(Pos { row: 0, column: 0 })]
            &&& effect == RowModificationType::AllLinesFrom(0)
            &&& after.matrix_editing == app.matrix_editing
            &&& after.editor == app.editor
        }),
{
    law_text_is_cut_at_its_line_breaks(text);
    if text.len() == 0 {
        lemma_breaks_leave_empty_lines(ten_line_breaks());
    }
}

proof fn lemma_breaks_leave_empty_lines(text: Seq<char>)
    requires
        forall|i: int| 0 <= i < text.len() ==> (#[trigger] text[i]) == '\n',
    ensures
        split_lines(text).len() == text.len() + 1,
        forall|i: int|
            0 <= i < split_lines(text).len() ==> (#[trigger] split_lines(text)[i]).len() == 0,
    decreases text.len(),
{
    if text.len() > 0 {
        lemma_breaks_leave_empty_lines(text.drop_last());
        assert(text.last() == '\n');
    }
}

/// A new width of the screen moves the gutter before the results only where they
/// would have less than thirty columns; the text takes what is left of it, and
/// everything is drawn again.
pub proof fn law_resized_screen_keeps_the_gutter(
    app: NoteCalcApp,
    new_client_width: usize,
    after: NoteCalcApp,
)
    requires
        app.resized(new_client_width, after),
        app.layout_wf(),
        new_client_width >= 36,
    ensures
        after.client_width == new_client_width,
        ({
            let gutter = after.render_data@.result_gutter_x;
            &&& app.render_data.result_gutter_x + 32 <= new_client_width ==> gutter
                == app.render_data.result_gutter_x
            &&& app.render_data.result_gutter_x + 32 > new_client_width ==> gutter + 32
                == new_client_width
            &&& after.render_data@.current_editor_width == gutter - 4
            &&& after.render_data@.scroll_y == app.render_data@.scroll_y
        }),
        forall|row: int|
            0 <= row < 64 ==> #[trigger] after.editor_area_redraw.has(row)
                && after.result_area_redraw.has(row),
{
    lemma_rows_are_had(after.editor_area_redraw);
    lemma_rows_are_had(after.result_area_redraw);
}

} // verus!
