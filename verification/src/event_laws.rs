use vstd::prelude::*;

use crate::app::NoteCalcApp;
use crate::editor::{EditorCommandView, EditorInputEvent, RowModificationType};
use crate::normalize::reference_text;
use crate::results::{ResultFormat, Results};
use crate::row_flags::EditorRowFlags;

verus! {

/// The lines of the first set, and those between two lines.
pub open spec fn has_with(
    after: EditorRowFlags,
    before: EditorRowFlags,
    first: int,
    last: int,
) -> bool {
    forall|row: int| #[trigger]
        after.has(row) == (before.has(row) || first <= row <= last)
}

/// The line of the cursor: where the selection ends, or, without one, starts.
pub open spec fn cursor_row(app: NoteCalcApp) -> int {
    match app.editor.selection.end {
        Some(end) => end.row as int,
        None => app.editor.selection.start.row as int,
    }
}

/// The upper one of the lines in which the selection starts and ends.
pub open spec fn upper_row(app: NoteCalcApp) -> int {
    let start = app.editor.selection.start.row as int;
    if cursor_row(app) < start {
        cursor_row(app)
    } else {
        start
    }
}

/// The lower one of the lines in which the selection starts and ends.
pub open spec fn lower_row(app: NoteCalcApp) -> int {
    let start = app.editor.selection.start.row as int;
    if cursor_row(app) > start {
        cursor_row(app)
    } else {
        start
    }
}

pub(crate) proof fn lemma_rows_are_had(flags: EditorRowFlags)
    ensures
        forall|row: int| #[trigger] flags.has(row) == flags.rows().contains(row),
{
}

/// Releasing the alt key inserts a reference to the chosen line, whatever its
/// result is, a number or a matrix. Nothing is inserted exactly where no line
/// is chosen, the chosen one is that of the cursor, or it failed or has no
/// result. After it no line is chosen, and the one that was is drawn again.
pub proof fn law_reference_is_inserted_to_any_result(
    app: NoteCalcApp,
    results: Results,
    after: NoteCalcApp,
    answer: Option<(Seq<EditorCommandView>, RowModificationType)>,
)
    requires
        app.alt_released(results, after, answer),
    ensures
        after.line_reference_chooser is None,
        after.editor == app.editor,
        after.editor_content == app.editor_content,
        match app.line_reference_chooser {
            None => answer is None && after.editor_area_redraw == app.editor_area_redraw
                && after.result_area_redraw == app.result_area_redraw,
            Some(chosen) => {
                let row = chosen.0 as int;
                let inserted = cursor_row(app) != row && match results.0@[row] {
                    Ok(Some(_)) => true,
                    Ok(None) => false,
                    Err(_) => false,
                };
                &&& !inserted ==> answer is None
                &&& inserted ==> answer == Some(
                    (
                        seq![
                            EditorCommandView::InsertText(
                                reference_text(app.editor_content.data@[row].line_id as nat),
                            ),
                        ],
                        RowModificationType::SingleLine(cursor_row(app) as usize),
                    ),
                )
                &&& has_with(after.editor_area_redraw, app.editor_area_redraw, row, row)
                &&& has_with(after.result_area_redraw, app.result_area_redraw, row, row)
            },
        },
{
    lemma_rows_are_had(after.editor_area_redraw);
    lemma_rows_are_had(after.result_area_redraw);
    lemma_rows_are_had(app.editor_area_redraw);
    lemma_rows_are_had(app.result_area_redraw);
}

/// When the cursor appears or disappears, the selected lines of the text are
/// drawn again, and nothing else.
pub proof fn law_blinking_draws_the_selected_lines(
    app: NoteCalcApp,
    need_rerender: bool,
    after: NoteCalcApp,
)
    requires
        app.time_passed(need_rerender, after),
    ensures
        !need_rerender ==> after == app,
        need_rerender ==> {
            &&& has_with(
                after.editor_area_redraw,
                app.editor_area_redraw,
                upper_row(app),
                lower_row(app),
            )
            &&& forall|row: int| #[trigger]
                after.result_area_redraw.has(row) == app.result_area_redraw.has(row)
        },
{
    lemma_rows_are_had(after.editor_area_redraw);
    lemma_rows_are_had(after.result_area_redraw);
    lemma_rows_are_had(app.editor_area_redraw);
    lemma_rows_are_had(app.result_area_redraw);
}

/// The formats go around in the order binary, decimal, hexadecimal: the next
/// one to the right.
pub open spec fn right_of(format: ResultFormat) -> ResultFormat {
    match format {
        ResultFormat::Bin => ResultFormat::Dec,
        ResultFormat::Dec => ResultFormat::Hex,
        ResultFormat::Hex => ResultFormat::Bin,
    }
}

/// Left and right with the alt key turn the formats of all selected lines, and
/// of no other: right by one step in their order, left by one step back. Only
/// the results of these lines are drawn again.
pub proof fn law_formats_of_selected_lines_turn(
    app: NoteCalcApp,
    input: EditorInputEvent,
    after: NoteCalcApp,
)
    requires
        app.alt_handled(input, after),
        input == EditorInputEvent::Left || input == EditorInputEvent::Right,
    ensures
        ({
            let had = app.editor_content.data@;
            let has = after.editor_content.data@;
            &&& has.len() == had.len()
            &&& forall|i: int|
                #![trigger has[i]]
                0 <= i < had.len() ==> {
                    &&& has[i].line_id == had[i].line_id
                    &&& if upper_row(app) <= i <= lower_row(app) {
                        if input == EditorInputEvent::Right {
                            has[i].result_format == right_of(had[i].result_format)
                        } else {
                            had[i].result_format == right_of(has[i].result_format)
                        }
                    } else {
                        has[i].result_format == had[i].result_format
                    }
                }
        }),
        after.editor_content.lines == app.editor_content.lines,
        after.line_reference_chooser == app.line_reference_chooser,
        has_with(
            after.result_area_redraw,
            app.result_area_redraw,
            upper_row(app),
            lower_row(app),
        ),
        forall|row: int| #[trigger]
            after.editor_area_redraw.has(row) == app.editor_area_redraw.has(row),
{
    lemma_rows_are_had(after.editor_area_redraw);
    lemma_rows_are_had(after.result_area_redraw);
    lemma_rows_are_had(app.editor_area_redraw);
    lemma_rows_are_had(app.result_area_redraw);
}

/// Up and down with the alt key choose a line to refer to: the first step up
/// the one above the cursor, then one line further up each time, as far as
/// there are lines, and down again, as far as the line above the cursor. The
/// line that was chosen and the one that is are drawn again.
pub proof fn law_line_to_refer_to_is_chosen(
    app: NoteCalcApp,
    input: EditorInputEvent,
    after: NoteCalcApp,
)
    requires
        app.alt_handled(input, after),
        app.line_reference_chooser matches Some(row) ==> row.0 < cursor_row(app),
    ensures
        input != EditorInputEvent::Left && input != EditorInputEvent::Right
            ==> after.editor_content.data@ == app.editor_content.data@,
        input == EditorInputEvent::Up ==> match app.line_reference_chooser {
            None => if cursor_row(app) == 0 {
                after.line_reference_chooser is None
            } else {
                after.line_reference_chooser matches Some(row) && row.0 == cursor_row(app) - 1
            },
            Some(chosen) => after.line_reference_chooser matches Some(row) && row.0 == (
            if chosen.0 == 0 {
                0
            } else {
                chosen.0 - 1
            }) && has_with(
                after.editor_area_redraw,
                app.editor_area_redraw,
                row.0 as int,
                chosen.0 as int,
            ) && has_with(
                after.result_area_redraw,
                app.result_area_redraw,
                row.0 as int,
                chosen.0 as int,
            ),
        },
        input == EditorInputEvent::Down ==> match app.line_reference_chooser {
            None => after.line_reference_chooser is None,
            Some(chosen) => after.line_reference_chooser matches Some(row) && row.0 == (
            if chosen.0 + 1 == cursor_row(app) {
                chosen.0 as int
            } else {
                chosen.0 + 1
            }) && has_with(
                after.editor_area_redraw,
                app.editor_area_redraw,
                chosen.0 as int,
                row.0 as int,
            ) && has_with(
                after.result_area_redraw,
                app.result_area_redraw,
                chosen.0 as int,
                row.0 as int,
            ),
        },
        input != EditorInputEvent::Up && input != EditorInputEvent::Down
            ==> after.line_reference_chooser == app.line_reference_chooser,
        input == EditorInputEvent::Up && app.line_reference_chooser is None && cursor_row(app) > 0
            ==> has_with(
            after.editor_area_redraw,
            app.editor_area_redraw,
            cursor_row(app) - 1,
            cursor_row(app) - 1,
        ) && has_with(
            after.result_area_redraw,
            app.result_area_redraw,
            cursor_row(app) - 1,
            cursor_row(app) - 1,
        ),
{
    lemma_rows_are_had(after.editor_area_redraw);
    lemma_rows_are_had(after.result_area_redraw);
    lemma_rows_are_had(app.editor_area_redraw);
    lemma_rows_are_had(app.result_area_redraw);
}

/// A pasted text is inserted once and as it is, with all its characters.
pub proof fn law_pasted_text_is_inserted_as_it_is(
    app: NoteCalcApp,
    text: Seq<char>,
    commands: Seq<EditorCommandView>,
)
    requires
        app.pasted(text, commands),
    ensures
        commands.len() == 1,
        commands[0] matches EditorCommandView::InsertText(inserted) && inserted.len() == text.len()
            && (forall|i: int| 0 <= i < text.len() ==> (#[trigger] inserted[i]) == text[i]),
{
}

} // verus!
