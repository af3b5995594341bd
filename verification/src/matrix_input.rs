use vstd::prelude::*;

use crate::app::NoteCalcApp;
use crate::coords::{Pos, Selection};
use crate::editor::{
    commands_view, EditorCommand, EditorCommandView, EditorInputEvent, InputModifiers,
};
use crate::line_render::editing_view;
use crate::matrix_editing::{MatrixEditing, MatrixEditingView};

verus! {

/// What a key means while a matrix is edited.
pub enum MatrixKey {
    MoveTo { row: int, column: int },
    /// Where the cursor of the text goes, and the key, where the editor of the
    /// text has to take it.
    Leave { cursor: Option<Pos>, passed_on: Option<(EditorInputEvent, InputModifiers)> },
    AddColumn,
    RemoveColumn,
    AddRow,
    RemoveRow,
    /// The key is for the editor of the cell.
    ToCell,
}

impl MatrixEditingView {
    /// The cursor stands before the first character of the cell.
    pub open spec fn cursor_at_start(self) -> bool {
        self.editor.selection.cursor() == Pos { row: 0, column: 0 }
    }

    /// The cursor stands after the last character of its line in the cell.
    pub open spec fn cursor_at_end(self) -> bool {
        let cursor = self.editor.selection.cursor();
        cursor.column == self.lines[cursor.row as int].len()
    }

    pub open spec fn cell_at(self, row: int, column: int) -> MatrixEditingView {
        self.moved_to(Pos { row: row as usize, column: column as usize })
    }

    /// What the editor has to do when the matrix is left, and the key is passed
    /// on to it or not.
    pub open spec fn leaving(
        self,
        new_cursor_pos: Option<Pos>,
        passed_on: Option<(EditorInputEvent, InputModifiers)>,
    ) -> Seq<EditorCommandView> {
        match passed_on {
            Some((input, modifiers)) => self.ending(new_cursor_pos).push(
                EditorCommandView::Input(input, modifiers),
            ),
            None => self.ending(new_cursor_pos),
        }
    }

    /// What a key means while the matrix is edited. `cursor` is where the cursor
    /// of the text stands.
    pub open spec fn key_meaning(
        self,
        cursor: Pos,
        input: EditorInputEvent,
        modifiers: InputModifiers,
    ) -> MatrixKey {
        let row = self.current_cell.row as int;
        let column = self.current_cell.column as int;
        let last_column = self.col_count - 1;
        let simple = !modifiers.shift && !modifiers.alt;
        let before = Some(Pos { row: cursor.row, column: self.start_text_index });
        let after = Some(Pos { row: cursor.row, column: self.end_text_index });
        let pass_on = Some((input, modifiers));
        if input == EditorInputEvent::Esc || input == EditorInputEvent::Enter {
            MatrixKey::Leave { cursor: None, passed_on: None }
        } else if input == EditorInputEvent::Tab {
            if column < last_column {
                MatrixKey::MoveTo { row, column: column + 1 }
            } else if row + 1 < self.row_count {
                MatrixKey::MoveTo { row: row + 1, column: 0 }
            } else {
                MatrixKey::Leave { cursor: after, passed_on: None }
            }
        } else if modifiers.alt && input == EditorInputEvent::Right {
            MatrixKey::AddColumn
        } else if modifiers.alt && input == EditorInputEvent::Left && self.col_count > 1 {
            MatrixKey::RemoveColumn
        } else if modifiers.alt && input == EditorInputEvent::Down {
            MatrixKey::AddRow
        } else if modifiers.alt && input == EditorInputEvent::Up && self.row_count > 1 {
            MatrixKey::RemoveRow
        } else if simple && input == EditorInputEvent::Left && self.cursor_at_start() {
            if column > 0 {
                MatrixKey::MoveTo { row, column: column - 1 }
            } else {
                MatrixKey::Leave { cursor: before, passed_on: None }
            }
        } else if simple && input == EditorInputEvent::Right && self.cursor_at_end() {
            if column < last_column {
                MatrixKey::MoveTo { row, column: column + 1 }
            } else {
                MatrixKey::Leave { cursor: after, passed_on: None }
            }
        } else if simple && input == EditorInputEvent::Up {
            if row > 0 {
                MatrixKey::MoveTo { row: row - 1, column }
            } else {
                MatrixKey::Leave { cursor: None, passed_on: pass_on }
            }
        } else if simple && input == EditorInputEvent::Down {
            if row + 1 < self.row_count {
                MatrixKey::MoveTo { row: row + 1, column }
            } else {
                MatrixKey::Leave { cursor: None, passed_on: pass_on }
            }
        } else if simple && input == EditorInputEvent::End {
            if column != last_column {
                MatrixKey::MoveTo { row, column: last_column }
            } else {
                MatrixKey::Leave { cursor: after, passed_on: pass_on }
            }
        } else if simple && input == EditorInputEvent::Home {
            if column != 0 {
                MatrixKey::MoveTo { row, column: 0 }
            } else {
                MatrixKey::Leave { cursor: before, passed_on: pass_on }
            }
        } else {
            MatrixKey::ToCell
        }
    }

    /// What a key does to a matrix that is being edited: the matrix after it, if
    /// it is still edited, and what the editor has to do. `cursor` is where the
    /// cursor of the text stands.
    pub open spec fn key_pressed(
        self,
        cursor: Pos,
        input: EditorInputEvent,
        modifiers: InputModifiers,
    ) -> (Option<MatrixEditingView>, Seq<EditorCommandView>) {
        let nothing = Seq::<EditorCommandView>::empty();
        match self.key_meaning(cursor, input, modifiers) {
            MatrixKey::MoveTo { row, column } => (Some(self.cell_at(row, column)), nothing),
            MatrixKey::Leave { cursor, passed_on } => (None, self.leaving(cursor, passed_on)),
            MatrixKey::AddColumn => (Some(self.with_column_added()), nothing),
            MatrixKey::RemoveColumn => (Some(self.with_column_removed()), nothing),
            MatrixKey::AddRow => (Some(self.with_row_added()), nothing),
            MatrixKey::RemoveRow => (Some(self.with_row_removed()), nothing),
            MatrixKey::ToCell => (
                Some(self),
                seq![EditorCommandView::CellInput(input, modifiers)],
            ),
        }
    }

    /// The current cell, and the one to go to, are among the cells.
    pub open spec fn can_go_to(self, row: int, column: int) -> bool {
        &&& self.index_of(self.current_cell) < self.cells.len()
        &&& row * self.col_count + column < self.cells.len()
    }

    /// The matrix has what the key needs. To go to another cell, the two cells
    /// have to be there; to leave the matrix or to change its size, all of them.
    /// A key that goes to the editor of the cell needs neither.
    pub open spec fn key_possible(
        self,
        cursor: Pos,
        input: EditorInputEvent,
        modifiers: InputModifiers,
    ) -> bool {
        let simple = !modifiers.shift && !modifiers.alt;
        &&& simple && input == EditorInputEvent::Right
            ==> self.editor.selection.cursor().row < self.lines.len()
        &&& simple && input == EditorInputEvent::End ==> self.col_count >= 1
        &&& match self.key_meaning(cursor, input, modifiers) {
            MatrixKey::MoveTo { row, column } => self.can_go_to(row, column),
            MatrixKey::ToCell => true,
            _ => self.wf(),
        }
    }
}

fn leave_matrix(
    matrix_editing: &mut Option<MatrixEditing>,
    new_cursor_pos: Option<Pos>,
    passed_on: Option<(EditorInputEvent, InputModifiers)>,
) -> (r: Vec<EditorCommand>)
    requires
        old(matrix_editing).is_some(),
        old(matrix_editing).unwrap()@.wf(),
    ensures
        final(matrix_editing).is_none(),
        commands_view(r@) == old(matrix_editing).unwrap()@.leaving(new_cursor_pos, passed_on),
{
    let mut commands = NoteCalcApp::end_matrix_editing(matrix_editing, new_cursor_pos);
    if let Some((input, modifiers)) = passed_on {
        commands.push(EditorCommand::Input(input, modifiers));
    }
    commands
}

impl NoteCalcApp {
    /// Takes a key while a matrix is edited. It moves within the matrix, changes
    /// its size, leaves it, or goes to the editor of the cell.
    pub fn handle_matrix_editor_input(
        matrix_editing: &mut Option<MatrixEditing>,
        editor_selection: Selection,
        input: EditorInputEvent,
        modifiers: InputModifiers,
    ) -> (r: Vec<EditorCommand>)
        requires
            old(matrix_editing).is_some(),
            old(matrix_editing).unwrap()@.key_possible(
                editor_selection.cursor(),
                input,
                modifiers,
            ),
        ensures
            ({
                let after = old(matrix_editing).unwrap()@.key_pressed(
                    editor_selection.cursor(),
                    input,
                    modifiers,
                );
                &&& editing_view(*final(matrix_editing)) == after.0
                &&& commands_view(r@) == after.1
            }),
    {
        let cur_pos = editor_selection.get_cursor_pos();
        let simple = !modifiers.shift && !modifiers.alt;
        let alt = modifiers.alt;
        let mut mat_edit = matrix_editing.take().unwrap();
        let row = mat_edit.current_cell.row;
        let column = mat_edit.current_cell.column;
        let before = cur_pos.with_column(mat_edit.start_text_index);
        let after = cur_pos.with_column(mat_edit.end_text_index);
        let pass_on = Some((input, modifiers));
        let at_beginning = mat_edit.editor.is_cursor_at_beginning();
        let at_eol = simple && input == EditorInputEvent::Right
            && mat_edit.editor.is_cursor_at_eol(&mat_edit.editor_content);
        let has_next_column = column < mat_edit.col_count && column + 1 < mat_edit.col_count;
        let has_next_row = row < mat_edit.row_count && row + 1 < mat_edit.row_count;
        let mut commands: Vec<EditorCommand> = Vec::new();
        if input == EditorInputEvent::Esc || input == EditorInputEvent::Enter {
            *matrix_editing = Some(mat_edit);
            return leave_matrix(matrix_editing, None, None);
        } else if input == EditorInputEvent::Tab {
            if has_next_column {
                mat_edit.change_cell(Pos::from_row_column(row, column + 1));
            } else if has_next_row {
                mat_edit.change_cell(Pos::from_row_column(row + 1, 0));
            } else {
                *matrix_editing = Some(mat_edit);
                return leave_matrix(matrix_editing, Some(after), None);
            }
        } else if alt && input == EditorInputEvent::Right {
            mat_edit.add_column();
        } else if alt && input == EditorInputEvent::Left && mat_edit.col_count > 1 {
            mat_edit.remove_column();
        } else if alt && input == EditorInputEvent::Down {
            mat_edit.add_row();
        } else if alt && input == EditorInputEvent::Up && mat_edit.row_count > 1 {
            mat_edit.remove_row();
        } else if simple && input == EditorInputEvent::Left && at_beginning {
            if column > 0 {
                mat_edit.change_cell(Pos::from_row_column(row, column - 1));
            } else {
                *matrix_editing = Some(mat_edit);
                return leave_matrix(matrix_editing, Some(before), None);
            }
        } else if at_eol {
            if has_next_column {
                mat_edit.change_cell(Pos::from_row_column(row, column + 1));
            } else {
                *matrix_editing = Some(mat_edit);
                return leave_matrix(matrix_editing, Some(after), None);
            }
        } else if simple && input == EditorInputEvent::Up {
            if row > 0 {
                mat_edit.change_cell(Pos::from_row_column(row - 1, column));
            } else {
                *matrix_editing = Some(mat_edit);
                return leave_matrix(matrix_editing, None, pass_on);
            }
        } else if simple && input == EditorInputEvent::Down {
            if has_next_row {
                mat_edit.change_cell(Pos::from_row_column(row + 1, column));
            } else {
                *matrix_editing = Some(mat_edit);
                return leave_matrix(matrix_editing, None, pass_on);
            }
        } else if simple && input == EditorInputEvent::End {
            let last_column: usize = mat_edit.col_count - 1;
            if column != last_column {
                mat_edit.change_cell(Pos::from_row_column(row, last_column));
            } else {
                *matrix_editing = Some(mat_edit);
                return leave_matrix(matrix_editing, Some(after), pass_on);
            }
        } else if simple && input == EditorInputEvent::Home {
            if column != 0 {
                mat_edit.change_cell(Pos::from_row_column(row, 0));
            } else {
                *matrix_editing = Some(mat_edit);
                return leave_matrix(matrix_editing, Some(before), pass_on);
            }
        } else {
            commands.push(EditorCommand::CellInput(input, modifiers));
        }
        *matrix_editing = Some(mat_edit);
        commands
    }
}

} // verus!
