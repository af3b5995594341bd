use vstd::prelude::*;

use crate::coords::{Pos, Selection};
use crate::editor::{EditorCommandView, EditorInputEvent, InputModifiers};
use crate::matrix_editing::MatrixEditingView;

verus! {

/// Where there is a row below, the down key goes to the cell in the next row of
/// the same column, and the up key from there goes back. Likewise up and down,
/// where there is a row above.
pub proof fn law_up_and_down_keep_the_column(
    edited: MatrixEditingView,
    cursor: Pos,
    modifiers: InputModifiers,
)
    requires
        edited.wf(),
        !modifiers.shift,
        !modifiers.alt,
    ensures
        edited.current_cell.row + 1 < edited.row_count ==> {
            let below = edited.key_pressed(cursor, EditorInputEvent::Down, modifiers);
            &&& below.1.len() == 0
            &&& below.0 is Some
            &&& below.0->0.current_cell.row == edited.current_cell.row + 1
            &&& below.0->0.current_cell.column == edited.current_cell.column
            &&& below.0->0.row_count == edited.row_count
            &&& below.0->0.col_count == edited.col_count
            &&& ({
                let back = below.0->0.key_pressed(cursor, EditorInputEvent::Up, modifiers);
                back.0 is Some && back.0->0.current_cell == edited.current_cell
            })
        },
        edited.current_cell.row > 0 ==> {
            let above = edited.key_pressed(cursor, EditorInputEvent::Up, modifiers);
            &&& above.1.len() == 0
            &&& above.0 is Some
            &&& above.0->0.current_cell.row == edited.current_cell.row - 1
            &&& above.0->0.current_cell.column == edited.current_cell.column
            &&& above.0->0.row_count == edited.row_count
            &&& above.0->0.col_count == edited.col_count
            &&& ({
                let back = above.0->0.key_pressed(cursor, EditorInputEvent::Down, modifiers);
                back.0 is Some && back.0->0.current_cell == edited.current_cell
            })
        },
{
}

/// The up key in the first row and the down key in the last one leave the
/// matrix, and the editor of the text takes the key.
pub proof fn law_matrix_is_left_up_and_down(
    edited: MatrixEditingView,
    cursor: Pos,
    modifiers: InputModifiers,
)
    requires
        edited.wf(),
        !modifiers.shift,
        !modifiers.alt,
    ensures
        edited.current_cell.row == 0 ==> {
            let pressed = edited.key_pressed(cursor, EditorInputEvent::Up, modifiers);
            &&& pressed.0 is None
            &&& pressed.1 == edited.ending(None).push(
                EditorCommandView::Input(EditorInputEvent::Up, modifiers),
            )
        },
        edited.current_cell.row == edited.row_count - 1 ==> {
            let pressed = edited.key_pressed(cursor, EditorInputEvent::Down, modifiers);
            &&& pressed.0 is None
            &&& pressed.1 == edited.ending(None).push(
                EditorCommandView::Input(EditorInputEvent::Down, modifiers),
            )
        },
{
}

/// With the cursor at the start of a cell, the left key goes to the cell before
/// it in its row, or, from the first one, out of the matrix: the cursor of the
/// text then stands before the matrix. Within the cell the key is for its editor.
pub proof fn law_left_key(edited: MatrixEditingView, cursor: Pos, modifiers: InputModifiers)
    requires
        edited.wf(),
        !modifiers.shift,
        !modifiers.alt,
    ensures
        ({
            let pressed = edited.key_pressed(cursor, EditorInputEvent::Left, modifiers);
            let cell_cursor = match edited.editor.selection.end {
                Some(end) => end,
                None => edited.editor.selection.start,
            };
            if cell_cursor.row != 0 || cell_cursor.column != 0 {
                &&& pressed.0 == Some(edited)
                &&& pressed.1 == seq![
                    EditorCommandView::CellInput(EditorInputEvent::Left, modifiers),
                ]
            } else if edited.current_cell.column > 0 {
                &&& pressed.0 is Some
                &&& pressed.0->0.current_cell.row == edited.current_cell.row
                &&& pressed.0->0.current_cell.column == edited.current_cell.column - 1
                &&& pressed.1.len() == 0
            } else {
                &&& pressed.0 is None
                &&& pressed.1 == edited.ending(
                    Some(Pos { row: cursor.row, column: edited.start_text_index }),
                )
            }
        }),
{
}

/// With the cursor at the end of a cell's line, the right key goes to the cell
/// after it in its row, or, from the last one, out of the matrix: the cursor of
/// the text then stands behind the matrix. Within the cell the key is for its
/// editor.
pub proof fn law_right_key(edited: MatrixEditingView, cursor: Pos, modifiers: InputModifiers)
    requires
        edited.wf(),
        !modifiers.shift,
        !modifiers.alt,
    ensures
        ({
            let pressed = edited.key_pressed(cursor, EditorInputEvent::Right, modifiers);
            let cell_cursor = match edited.editor.selection.end {
                Some(end) => end,
                None => edited.editor.selection.start,
            };
            if cell_cursor.column != edited.lines[cell_cursor.row as int].len() {
                &&& pressed.0 == Some(edited)
                &&& pressed.1 == seq![
                    EditorCommandView::CellInput(EditorInputEvent::Right, modifiers),
                ]
            } else if edited.current_cell.column + 1 < edited.col_count {
                &&& pressed.0 is Some
                &&& pressed.0->0.current_cell.row == edited.current_cell.row
                &&& pressed.0->0.current_cell.column == edited.current_cell.column + 1
                &&& pressed.1.len() == 0
            } else {
                &&& pressed.0 is None
                &&& pressed.1 == edited.ending(
                    Some(Pos { row: cursor.row, column: edited.end_text_index }),
                )
            }
        }),
{
}

/// The tabulator goes through the cells in reading order, and from the last one
/// out of the matrix, with the cursor behind it.
pub proof fn law_tabulator_goes_in_reading_order(
    edited: MatrixEditingView,
    cursor: Pos,
    modifiers: InputModifiers,
)
    requires
        edited.wf(),
    ensures
        ({
            let pressed = edited.key_pressed(cursor, EditorInputEvent::Tab, modifiers);
            let here = edited.current_cell;
            let number = here.row * edited.col_count + here.column;
            if number + 1 < edited.row_count * edited.col_count {
                let there = pressed.0->0.current_cell;
                &&& pressed.0 is Some
                &&& there.row * edited.col_count + there.column == number + 1
                &&& there.row < edited.row_count
                &&& there.column < edited.col_count
                &&& pressed.1.len() == 0
            } else {
                &&& pressed.0 is None
                &&& pressed.1 == edited.ending(
                    Some(Pos { row: cursor.row, column: edited.end_text_index }),
                )
            }
        }),
{
    let row = edited.current_cell.row as int;
    let column = edited.current_cell.column as int;
    let rows = edited.row_count;
    let cols = edited.col_count;
    assert((row + 1) * cols == row * cols + cols) by (nonlinear_arith);
    if row + 1 < rows {
        assert((row + 2) * cols <= rows * cols) by (nonlinear_arith)
            requires
                row + 2 <= rows,
                cols >= 0,
        ;
        assert((row + 2) * cols == row * cols + 2 * cols) by (nonlinear_arith);
    } else {
        assert(rows * cols == row * cols + cols) by (nonlinear_arith)
            requires
                rows == row + 1,
        ;
    }
}

/// The home key goes to the first cell of the row and the end key to the last
/// one; pressed there again, they leave the matrix, and the editor of the text
/// takes the key, before or behind the matrix.
pub proof fn law_home_and_end_keys(
    edited: MatrixEditingView,
    cursor: Pos,
    modifiers: InputModifiers,
)
    requires
        edited.wf(),
        !modifiers.shift,
        !modifiers.alt,
    ensures
        ({
            let home = edited.key_pressed(cursor, EditorInputEvent::Home, modifiers);
            if edited.current_cell.column > 0 {
                &&& home.0 is Some
                &&& home.0->0.current_cell == Pos { row: edited.current_cell.row, column: 0 }
                &&& home.1.len() == 0
            } else {
                &&& home.0 is None
                &&& home.1 == edited.ending(
                    Some(Pos { row: cursor.row, column: edited.start_text_index }),
                ).push(EditorCommandView::Input(EditorInputEvent::Home, modifiers))
            }
        }),
        ({
            let end = edited.key_pressed(cursor, EditorInputEvent::End, modifiers);
            if edited.current_cell.column + 1 < edited.col_count {
                &&& end.0 is Some
                &&& end.0->0.current_cell.row == edited.current_cell.row
                &&& end.0->0.current_cell.column + 1 == edited.col_count
                &&& end.1.len() == 0
            } else {
                &&& end.0 is None
                &&& end.1 == edited.ending(
                    Some(Pos { row: cursor.row, column: edited.end_text_index }),
                ).push(EditorCommandView::Input(EditorInputEvent::End, modifiers))
            }
        }),
{
}

/// Escape and enter leave the matrix wherever the cursor stands in it.
pub proof fn law_escape_and_enter_leave_the_matrix(
    edited: MatrixEditingView,
    cursor: Pos,
    modifiers: InputModifiers,
)
    requires
        edited.wf(),
    ensures
        edited.key_pressed(cursor, EditorInputEvent::Esc, modifiers).0 is None,
        edited.key_pressed(cursor, EditorInputEvent::Esc, modifiers).1 == edited.ending(None),
        edited.key_pressed(cursor, EditorInputEvent::Enter, modifiers).0 is None,
        edited.key_pressed(cursor, EditorInputEvent::Enter, modifiers).1 == edited.ending(None),
{
}

/// With the alt key, right and down make the matrix one column or one row
/// larger, up to six, and left and up one smaller, down to one.
pub proof fn law_alt_key_changes_the_size(
    edited: MatrixEditingView,
    cursor: Pos,
    modifiers: InputModifiers,
)
    requires
        edited.wf(),
        modifiers.alt,
    ensures
        ({
            let wider = edited.key_pressed(cursor, EditorInputEvent::Right, modifiers);
            &&& wider.0 is Some
            &&& wider.1.len() == 0
            &&& wider.0->0.row_count == edited.row_count
            &&& wider.0->0.col_count == (if edited.col_count == 6 {
                6
            } else {
                edited.col_count + 1
            })
            &&& wider.0->0.current_cell == edited.current_cell
            &&& wider.0->0.lines == edited.lines
        }),
        ({
            let taller = edited.key_pressed(cursor, EditorInputEvent::Down, modifiers);
            &&& taller.0 is Some
            &&& taller.1.len() == 0
            &&& taller.0->0.col_count == edited.col_count
            &&& taller.0->0.row_count == (if edited.row_count == 6 {
                6
            } else {
                edited.row_count + 1
            })
            &&& taller.0->0.current_cell == edited.current_cell
            &&& taller.0->0.lines == edited.lines
        }),
        ({
            let narrower = edited.key_pressed(cursor, EditorInputEvent::Left, modifiers);
            &&& narrower.0 is Some
            &&& narrower.0->0.row_count == edited.row_count
            &&& edited.col_count > 1 ==> {
                &&& narrower.1.len() == 0
                &&& narrower.0->0.col_count == edited.col_count - 1
                &&& narrower.0->0.current_cell.row == edited.current_cell.row
                &&& narrower.0->0.current_cell.column == (if edited.current_cell.column
                    == edited.col_count - 1 {
                    edited.col_count - 2
                } else {
                    edited.current_cell.column as int
                })
            }
            &&& edited.col_count == 1 ==> narrower.0 == Some(edited)
        }),
        ({
            let lower = edited.key_pressed(cursor, EditorInputEvent::Up, modifiers);
            &&& lower.0 is Some
            &&& lower.0->0.col_count == edited.col_count
            &&& edited.row_count > 1 ==> {
                &&& lower.1.len() == 0
                &&& lower.0->0.row_count == edited.row_count - 1
                &&& lower.0->0.current_cell.column == edited.current_cell.column
                &&& lower.0->0.current_cell.row == (if edited.current_cell.row
                    == edited.row_count - 1 {
                    edited.row_count - 2
                } else {
                    edited.current_cell.row as int
                })
            }
            &&& edited.row_count == 1 ==> lower.0 == Some(edited)
        }),
{
}

/// Characters, and all keys that have no meaning for the matrix, go to the
/// editor of the cell and leave the matrix as it is.
pub proof fn law_other_keys_are_for_the_cell(
    edited: MatrixEditingView,
    cursor: Pos,
    input: EditorInputEvent,
    modifiers: InputModifiers,
)
    requires
        match input {
            EditorInputEvent::Char(_) => true,
            EditorInputEvent::Backspace => true,
            EditorInputEvent::Del => true,
            EditorInputEvent::PageUp => true,
            EditorInputEvent::PageDown => true,
            EditorInputEvent::Home => modifiers.shift || modifiers.alt,
            EditorInputEvent::End => modifiers.shift || modifiers.alt,
            EditorInputEvent::Left => modifiers.shift && !modifiers.alt,
            EditorInputEvent::Right => modifiers.shift && !modifiers.alt,
            EditorInputEvent::Up => modifiers.shift && !modifiers.alt,
            EditorInputEvent::Down => modifiers.shift && !modifiers.alt,
            _ => false,
        },
    ensures
        edited.key_pressed(cursor, input, modifiers).0 == Some(edited),
        edited.key_pressed(cursor, input, modifiers).1 == seq![
            EditorCommandView::CellInput(input, modifiers),
        ],
{
}

/// A matrix that is left is put in place of its old text: the old text is
/// selected and deleted, the new one inserted, the cursor put where it is
/// wanted, and it starts to blink anew.
pub proof fn law_left_matrix_replaces_its_text(
    edited: MatrixEditingView,
    new_cursor_pos: Option<Pos>,
)
    ensures
        ({
            let commands = edited.ending(new_cursor_pos);
            let row = edited.row_index.0;
            &&& commands[0] == EditorCommandView::Select(
                Selection {
                    start: Pos { row, column: edited.start_text_index },
                    end: Some(Pos { row, column: edited.end_text_index }),
                },
            )
            &&& commands[1] == EditorCommandView::Input(
                EditorInputEvent::Del,
                InputModifiers { shift: false, ctrl: false, alt: false },
            )
            &&& commands[2] == EditorCommandView::InsertText(edited.text())
            &&& commands.last() == EditorCommandView::BlinkCursor
            &&& match new_cursor_pos {
                Some(pos) => commands.len() == 5 && commands[3] == EditorCommandView::Select(
                    Selection { start: pos, end: None },
                ),
                None => commands.len() == 4,
            }
        }),
{
}

} // verus!
