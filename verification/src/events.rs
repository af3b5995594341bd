use vstd::prelude::*;

use crate::app::{NoteCalcApp, RedrawTarget};
use crate::editor::{commands_view, EditorCommand, EditorCommandView, RowModificationType};
use crate::normalize::{reference_string, reference_text};
use crate::results::Results;
use crate::row_flags::{EditorRowFlags, MAX_LINE_COUNT};

verus! {

/// Which editor has the cursor.
#[derive(Clone, Copy, PartialEq, Eq, Structural, Debug)]
pub enum FocusedEditor {
    Text,
    MatrixCell,
}

/// The contents of an answer to the released alt key.
pub open spec fn released_view(
    answer: Option<(Vec<EditorCommand>, RowModificationType)>,
) -> Option<(Seq<EditorCommandView>, RowModificationType)> {
    match answer {
        Some((commands, effect)) => Some((commands_view(commands@), effect)),
        None => None,
    }
}

impl NoteCalcApp {
    /// The editor that has the cursor: that of the matrix cell while a matrix is
    /// edited. It is the one that time passes for.
    pub fn focused_editor(&self) -> (r: FocusedEditor)
        ensures
            r == (if self.matrix_editing is Some {
                FocusedEditor::MatrixCell
            } else {
                FocusedEditor::Text
            }),
    {
        if self.matrix_editing.is_some() {
            FocusedEditor::MatrixCell
        } else {
            FocusedEditor::Text
        }
    }

    /// What the passing of time does.
    pub open spec fn time_passed(self, need_rerender: bool, after: NoteCalcApp) -> bool {
        if need_rerender {
            after.redraws(self, self.selected_rows(), RedrawTarget::EditorArea)
                && after.same_but_redraws(self)
        } else {
            after == self
        }
    }

    /// Some time has passed. `need_rerender` tells whether it made the cursor of
    /// the focused editor appear or disappear; then the selected lines are to be
    /// drawn again.
    pub fn handle_time(&mut self, need_rerender: bool) -> (r: bool)
        requires
            need_rerender ==> old(self).editor.selection.second().row < MAX_LINE_COUNT,
        ensures
            old(self).layout_wf() ==> final(self).layout_wf(),
            r == need_rerender,
            old(self).time_passed(need_rerender, *final(self)),
    {
        if need_rerender {
            let (from, to) = self.editor.get_selection().get_range();
            let flags = EditorRowFlags::range(from.row, to.row);
            assert(flags.rows() =~= self.selected_rows());
            self.set_redraw_flag(flags, RedrawTarget::EditorArea);
        }
        need_rerender
    }

    /// The line, if any, that a reference is inserted to when the alt key is
    /// released: the chosen one, if it has a result and the cursor is elsewhere.
    pub open spec fn inserted_reference(self, results: Results) -> Option<int> {
        match self.line_reference_chooser {
            Some(row) => {
                let has_result = results.0@[row.0 as int] matches Ok(result) && result is Some;
                if self.editor.selection.cursor().row != row.0 && has_result {
                    Some(row.0 as int)
                } else {
                    None
                }
            },
            None => None,
        }
    }

    /// What releasing the alt key does, and what it answers.
    pub open spec fn alt_released(
        self,
        results: Results,
        after: NoteCalcApp,
        answer: Option<(Seq<EditorCommandView>, RowModificationType)>,
    ) -> bool {
        &&& match self.inserted_reference(results) {
            Some(row) => {
                &&& answer is Some
                &&& answer.unwrap().0 == seq![
                    EditorCommandView::InsertText(
                        reference_text(self.editor_content.data@[row].line_id as nat),
                    ),
                ]
                &&& answer.unwrap().1 == RowModificationType::SingleLine(
                    self.editor.selection.cursor().row,
                )
            },
            None => answer is None,
        }
        &&& match self.line_reference_chooser {
            Some(row) => after.redraws(self, set![row.0 as int], RedrawTarget::Both),
            None => after.result_area_redraw == self.result_area_redraw
                && after.editor_area_redraw == self.editor_area_redraw,
        }
        &&& after == NoteCalcApp {
            line_reference_chooser: None,
            result_area_redraw: after.result_area_redraw,
            editor_area_redraw: after.editor_area_redraw,
            ..self
        }
    }

    /// The alt key was released. The line that was chosen is no longer; a
    /// reference to it is inserted, which edits the line of the cursor.
    pub fn alt_key_released(&mut self, results: &Results) -> (r: Option<
        (Vec<EditorCommand>, RowModificationType),
    >)
        requires
            results.wf(),
            old(self).line_reference_chooser matches Some(row) ==> row.0 < MAX_LINE_COUNT,
            old(self).inserted_reference(*results) matches Some(row) ==> row
                < old(self).editor_content.data@.len(),
        ensures
            old(self).layout_wf() ==> final(self).layout_wf(),
            old(self).alt_released(*results, *final(self), released_view(r)),
    {
        let line_ref_row = match self.line_reference_chooser {
            Some(row) => row,
            None => {
                return None;
            },
        };
        let cursor_row = self.editor.get_selection().get_cursor_pos().row;
        let flags = EditorRowFlags::single_row(line_ref_row.as_usize());
        assert(flags.rows() =~= set![line_ref_row.0 as int]);
        self.set_redraw_flag(flags, RedrawTarget::Both);
        self.line_reference_chooser = None;
        if cursor_row == line_ref_row.as_usize() {
            return None;
        }
        match &results[line_ref_row] {
            Ok(Some(_)) => {},
            _ => {
                return None;
            },
        }
        let line_id = self.editor_content.get_data(line_ref_row.as_usize()).line_id;
        let mut commands: Vec<EditorCommand> = Vec::new();
        commands.push(EditorCommand::InsertText(reference_string(line_id)));
        assert(commands_view(commands@) =~= seq![
            EditorCommandView::InsertText(reference_text(line_id as nat)),
        ]);
        Some((commands, RowModificationType::SingleLine(cursor_row)))
    }

    /// What pasting a text asks of the editor.
    pub open spec fn pasted(self, text: Seq<char>, commands: Seq<EditorCommandView>) -> bool {
        commands == seq![EditorCommandView::InsertText(text)]
    }

    /// A text is pasted: the editor inserts it. What that edits has to be
    /// updated.
    pub fn handle_paste(&self, text: String) -> (r: Vec<EditorCommand>)
        ensures
            self.pasted(text@, commands_view(r@)),
    {
        let mut commands: Vec<EditorCommand> = Vec::new();
        let ghost pasted = text@;
        commands.push(EditorCommand::InsertText(text));
        assert(commands_view(commands@) =~= seq![EditorCommandView::InsertText(pasted)]);
        commands
    }
}

} // verus!
