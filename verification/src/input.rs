use vstd::prelude::*;

use crate::app::{all_rows, NoteCalcApp, RedrawTarget};
use crate::content::LineData;
use crate::coords::{EditorY, Pos, Selection};
use crate::editor::{
    commands_view, EditorCommand, EditorCommandView, EditorInputEvent, InputModifiers,
    RowModificationType,
};
use crate::input_keys::typed_matrix;
use crate::line_render::editing_view;
use crate::matrix_layout::{larger, smaller};
use crate::objects::{EditorObject, EditorObjects};
use crate::render_data::{references_exist, Layout};
use crate::results::{ResultFormat, Results, Variable};
use crate::row_flags::{EditorRowFlags, MAX_LINE_COUNT};
use crate::tokens::AppTokens;
use crate::update::{edited_height, line_height};

verus! {

/// The format that comes after another one, going left or right.
pub open spec fn turned_format(format: ResultFormat, left: bool) -> ResultFormat {
    match format {
        ResultFormat::Bin => if left {
            ResultFormat::Hex
        } else {
            ResultFormat::Dec
        },
        ResultFormat::Dec => if left {
            ResultFormat::Bin
        } else {
            ResultFormat::Hex
        },
        ResultFormat::Hex => if left {
            ResultFormat::Dec
        } else {
            ResultFormat::Bin
        },
    }
}

/// Going left and right, or right and left, gives the format back. Three turns
/// in one direction do, too.
pub proof fn law_turning_formats(format: ResultFormat, left: bool)
    ensures
        turned_format(turned_format(format, left), !left) == format,
        turned_format(turned_format(turned_format(format, left), left), left) == format,
        turned_format(format, left) != format,
{
}

/// The values of the lines, with the formats of some lines turned.
pub open spec fn formats_turned(
    data: Seq<LineData>,
    first: int,
    last: int,
    left: bool,
) -> Seq<LineData> {
    Seq::new(
        data.len(),
        |i: int| if first <= i <= last {
            LineData { result_format: turned_format(data[i].result_format, left), ..data[i] }
        } else {
            data[i]
        },
    )
}

pub open spec fn rows_between(first: int, last: int) -> Set<int> {
    Set::new(|row: int| first <= row <= last)
}

/// The line that is chosen to be referred to, after a step up.
pub open spec fn chosen_above(chooser: Option<EditorY>, cursor_row: int) -> Option<int> {
    match chooser {
        Some(row) => if row.0 > 0 {
            Some(row.0 - 1)
        } else {
            Some(row.0 as int)
        },
        None => if cursor_row > 0 {
            Some(cursor_row - 1)
        } else {
            None
        },
    }
}

/// The line that is chosen to be referred to, after a step down.
pub open spec fn chosen_below(chooser: Option<EditorY>, cursor_row: int) -> Option<int> {
    match chooser {
        Some(row) => if row.0 < cursor_row - 1 {
            Some(row.0 + 1)
        } else {
            Some(row.0 as int)
        },
        None => None,
    }
}

/// A line above the cursor stays chosen: a line never comes to refer to itself
/// or to one below.
pub proof fn law_chosen_line_is_above(chooser: Option<EditorY>, cursor_row: int)
    requires
        chooser matches Some(row) ==> row.0 < cursor_row,
    ensures
        chosen_above(chooser, cursor_row) matches Some(row) ==> 0 <= row < cursor_row,
        chosen_below(chooser, cursor_row) matches Some(row) ==> 0 <= row < cursor_row,
{
}

/// How the handling of a key goes on after the editor did what it was asked to.
#[derive(Clone, Copy, PartialEq, Eq, Structural, Debug)]
pub enum InputNext {
    /// It is done; this is what was edited.
    Done(Option<RowModificationType>),
    /// The cursor was put into a new matrix in this line.
    StepIntoMatrix { row: usize },
    /// The editor took the key; this was selected before.
    Navigated { prev_selection: Selection },
}

pub struct InputOutcome {
    pub commands: Vec<EditorCommand>,
    pub next: InputNext,
}

impl NoteCalcApp {
    pub open spec fn selected_rows(self) -> Set<int> {
        rows_between(
            self.editor.selection.first().row as int,
            self.editor.selection.second().row as int,
        )
    }

    /// The line that is chosen after a key that is held with the alt key.
    pub open spec fn chosen_after(self, input: EditorInputEvent) -> Option<int> {
        let row = self.editor.selection.cursor().row as int;
        if input == EditorInputEvent::Up {
            chosen_above(self.line_reference_chooser, row)
        } else if input == EditorInputEvent::Down {
            chosen_below(self.line_reference_chooser, row)
        } else {
            None
        }
    }

    /// The line that was chosen before, or becomes the first one.
    pub open spec fn chosen_before(self, input: EditorInputEvent) -> int {
        match self.line_reference_chooser {
            Some(row) => row.0 as int,
            None => self.chosen_after(input).unwrap(),
        }
    }

    pub open spec fn alt_fits(self, input: EditorInputEvent) -> bool {
        let last = self.editor.selection.second().row;
        &&& input == EditorInputEvent::Left || input == EditorInputEvent::Right ==> {
            &&& self.editor_content.wf()
            &&& last < self.editor_content.lines@.len()
            &&& last < MAX_LINE_COUNT
        }
        &&& self.line_reference_chooser matches Some(row) ==> {
            &&& row.0 < MAX_LINE_COUNT
            &&& input == EditorInputEvent::Down ==> self.editor.selection.cursor().row >= 1
        }
        &&& self.editor.selection.cursor().row <= MAX_LINE_COUNT
    }

    /// What a key does that is held with the alt key, outside of matrices: left
    /// and right turn the formats of the selected lines, up and down choose a
    /// line to refer to.
    pub open spec fn alt_handled(self, input: EditorInputEvent, after: NoteCalcApp) -> bool {
        let turns = input == EditorInputEvent::Left || input == EditorInputEvent::Right;
        let first = self.editor.selection.first().row as int;
        let last = self.editor.selection.second().row as int;
        &&& after.editor_content.lines == self.editor_content.lines
        &&& after.editor_content.data@ == (if turns {
            formats_turned(
                self.editor_content.data@,
                first,
                last,
                input == EditorInputEvent::Left,
            )
        } else {
            self.editor_content.data@
        })
        &&& after.line_reference_chooser == (match self.chosen_after(input) {
            Some(row) => Some(EditorY(row as usize)),
            None => self.line_reference_chooser,
        })
        &&& if turns {
            after.redraws(self, self.selected_rows(), RedrawTarget::ResultArea)
        } else {
            match self.chosen_after(input) {
                Some(row) => {
                    let before = self.chosen_before(input);
                    after.redraws(
                        self,
                        rows_between(smaller(row, before), larger(row, before)),
                        RedrawTarget::Both,
                    )
                },
                None => after.result_area_redraw == self.result_area_redraw
                    && after.editor_area_redraw == self.editor_area_redraw,
            }
        }
        &&& after == NoteCalcApp {
            editor_content: after.editor_content,
            line_reference_chooser: after.line_reference_chooser,
            result_area_redraw: after.result_area_redraw,
            editor_area_redraw: after.editor_area_redraw,
            ..self
        }
    }

    fn turn_formats(&mut self, first: usize, last: usize, left: bool)
        requires
            first <= last < old(self).editor_content.data@.len(),
        ensures
            final(self).editor_content.lines == old(self).editor_content.lines,
            final(self).editor_content.data@ == formats_turned(
                old(self).editor_content.data@,
                first as int,
                last as int,
                left,
            ),
            *final(self) == (NoteCalcApp {
                editor_content: final(self).editor_content,
                ..*old(self)
            }),
    {
        let ghost before = *self;
        let ghost data = self.editor_content.data@;
        let ghost turned = formats_turned(data, first as int, last as int, left);
        let mut row_i: usize = first;
        assert(last < self.editor_content.data.len());
        while row_i <= last
            invariant
                first <= row_i <= last + 1,
                last < data.len(),
                last < usize::MAX,
                data == before.editor_content.data@,
                turned == formats_turned(data, first as int, last as int, left),
                *self == (NoteCalcApp { editor_content: self.editor_content, ..before }),
                self.editor_content.lines == before.editor_content.lines,
                self.editor_content.data@ == turned.take(row_i as int) + data.skip(row_i as int),
            decreases last + 1 - row_i,
        {
            let line_data = *self.editor_content.get_data(row_i);
            let new_format = match line_data.result_format {
                ResultFormat::Bin => if left {
                    ResultFormat::Hex
                } else {
                    ResultFormat::Dec
                },
                ResultFormat::Dec => if left {
                    ResultFormat::Bin
                } else {
                    ResultFormat::Hex
                },
                ResultFormat::Hex => if left {
                    ResultFormat::Dec
                } else {
                    ResultFormat::Bin
                },
            };
            self.editor_content.set_data(
                row_i,
                LineData { line_id: line_data.line_id, result_format: new_format },
            );
            row_i += 1;
        }
    }

    fn handle_alt_input(&mut self, input: EditorInputEvent)
        requires
            old(self).alt_fits(input),
        ensures
            old(self).alt_handled(input, *final(self)),
    {
        let ghost before = *self;
        let selection = self.editor.get_selection();
        let (start, end) = selection.get_range();
        if input == EditorInputEvent::Left || input == EditorInputEvent::Right {
            self.turn_formats(start.row, end.row, input == EditorInputEvent::Left);
            let flags = EditorRowFlags::range(start.row, end.row);
            assert(flags.rows() =~= before.selected_rows());
            self.set_redraw_flag(flags, RedrawTarget::ResultArea);
        } else if input == EditorInputEvent::Up {
            let cur_row = selection.get_cursor_pos().row;
            let rows: Option<(usize, usize)> = match self.line_reference_chooser {
                Some(selector_row) => {
                    let row = selector_row.as_usize();
                    if row > 0 {
                        Some((row, row - 1))
                    } else {
                        Some((row, row))
                    }
                },
                None => if cur_row > 0 {
                    Some((cur_row - 1, cur_row - 1))
                } else {
                    None
                },
            };
            if let Some((prev_selected_row, new_selected_row)) = rows {
                self.line_reference_chooser = Some(EditorY::new(new_selected_row));
                let flags = EditorRowFlags::range(new_selected_row, prev_selected_row);
                assert(flags.rows() =~= rows_between(
                    new_selected_row as int,
                    prev_selected_row as int,
                ));
                self.set_redraw_flag(flags, RedrawTarget::Both);
            }
        } else if input == EditorInputEvent::Down {
            let cur_row = selection.get_cursor_pos().row;
            if let Some(selector_row) = self.line_reference_chooser {
                let row = selector_row.as_usize();
                let new_selected_row: usize = if row < cur_row - 1 {
                    row + 1
                } else {
                    row
                };
                self.line_reference_chooser = Some(EditorY::new(new_selected_row));
                let flags = EditorRowFlags::range(row, new_selected_row);
                assert(flags.rows() =~= rows_between(row as int, new_selected_row as int));
                self.set_redraw_flag(flags, RedrawTarget::Both);
            }
        }
    }

    /// What a key does while a matrix is edited. Leaving the matrix edits the
    /// line; a change of its size changes the height of the line.
    pub open spec fn matrix_key_handled(
        self,
        input: EditorInputEvent,
        modifiers: InputModifiers,
        tokens: AppTokens,
        results: Results,
        vars: Seq<Variable>,
        after: NoteCalcApp,
        commands: Seq<EditorCommandView>,
        next: InputNext,
    ) -> bool {
        let row = self.editor.selection.cursor().row;
        let pressed = self.matrix_editing.unwrap()@.key_pressed(
            self.editor.selection.cursor(),
            input,
            modifiers,
        );
        &&& editing_view(after.matrix_editing) == pressed.0
        &&& commands == pressed.1
        &&& next == InputNext::Done(
            if pressed.0 is None {
                Some(RowModificationType::SingleLine(row))
            } else {
                None
            },
        )
        &&& after.render_data@ == (if pressed.0 is Some && modifiers.alt {
            Layout {
                heights: self.render_data@.heights.update(
                    row as int,
                    line_height(
                        tokens.0@[row as int],
                        results.0@[row as int],
                        vars,
                        edited_height(after.matrix_editing, EditorY(row)),
                    ),
                ),
                ..self.render_data@
            }
        } else {
            self.render_data@
        })
        &&& after.redraws(self, set![row as int], RedrawTarget::Both)
        &&& after == NoteCalcApp {
            matrix_editing: after.matrix_editing,
            render_data: after.render_data,
            result_area_redraw: after.result_area_redraw,
            editor_area_redraw: after.editor_area_redraw,
            ..self
        }
    }

    /// What a key does in the text: it completes, deletes an object as a whole,
    /// jumps over a reference, or goes to the editor.
    pub open spec fn text_key_handled(
        self,
        input: EditorInputEvent,
        modifiers: InputModifiers,
        vars: Seq<Variable>,
        objects: Seq<Seq<EditorObject>>,
        after: NoteCalcApp,
        objects_after: Seq<Seq<EditorObject>>,
        commands: Seq<EditorCommandView>,
        next: InputNext,
    ) -> bool {
        let cursor = self.editor.selection.cursor();
        let row = cursor.row as int;
        match self.completion(input, vars) {
            Some(completion) => {
                &&& commands == self.completion_commands(completion)
                &&& after == self
                &&& objects_after == (if completion is Matrix {
                    objects.update(row, objects[row].push(typed_matrix(cursor)))
                } else {
                    objects
                })
                &&& next == (if completion is Matrix {
                    InputNext::StepIntoMatrix { row: cursor.row }
                } else {
                    InputNext::Done(Some(RowModificationType::SingleLine(cursor.row)))
                })
            },
            None => match self.deleted_object(input, objects) {
                Some(i) => {
                    let object = objects[row][i];
                    &&& commands == self.deletion_commands(input, object)
                    &&& after == self
                    &&& objects_after == objects.update(row, objects[row].remove(i))
                    &&& next == InputNext::Done(Some(self.deletion_effect(object)))
                },
                None => {
                    &&& objects_after == objects
                    &&& match self.jump_target(input, modifiers, objects) {
                        Some(pos) => {
                            &&& commands == seq![EditorCommandView::SetCursor(pos)]
                            &&& next == InputNext::Done(None)
                            &&& after.redraws(self, set![row], RedrawTarget::EditorArea)
                            &&& after.same_but_redraws(self)
                        },
                        None => {
                            &&& commands == seq![EditorCommandView::Input(input, modifiers)]
                            &&& next == InputNext::Navigated {
                                prev_selection: self.editor.selection,
                            }
                            &&& after == self
                        },
                    }
                },
            },
        }
    }

    /// Takes a key. The editor has to do what the answer says; then
    /// `finish_input` is due.
    pub fn handle_input_and_update_tokens_plus_redraw_requirements(
        &mut self,
        input: EditorInputEvent,
        modifiers: InputModifiers,
        tokens: &AppTokens,
        results: &Results,
        vars: &Vec<Variable>,
        editor_objs: &mut EditorObjects,
    ) -> (r: InputOutcome)
        requires
            old(self).cursor_in_text(),
            old(self).cursor().column + 2 <= usize::MAX,
            old(editor_objs).wf(),
            tokens.wf(),
            results.wf(),
            old(self).matrix_editing is None && modifiers.alt ==> old(self).alt_fits(input),
            old(self).matrix_editing matches Some(edited) ==> {
                &&& edited@.key_possible(old(self).cursor(), input, modifiers)
                &&& tokens.0@[old(self).cursor().row as int] matches Some(line_tokens)
                    ==> references_exist(line_tokens.tokens@, vars@.len() as int)
            },
        ensures
            old(self).layout_wf() ==> final(self).layout_wf(),
            if old(self).matrix_editing is Some {
                &&& old(self).matrix_key_handled(
                    input,
                    modifiers,
                    *tokens,
                    *results,
                    vars@,
                    *final(self),
                    commands_view(r.commands@),
                    r.next,
                )
                &&& final(editor_objs)@ == old(editor_objs)@
            } else if modifiers.alt {
                &&& old(self).alt_handled(input, *final(self))
                &&& r.commands@.len() == 0
                &&& r.next == InputNext::Done(None)
                &&& final(editor_objs)@ == old(editor_objs)@
            } else {
                old(self).text_key_handled(
                    input,
                    modifiers,
                    vars@,
                    old(editor_objs)@,
                    *final(self),
                    final(editor_objs)@,
                    commands_view(r.commands@),
                    r.next,
                )
            },
            final(editor_objs).wf(),
    {
        let cursor_pos = self.editor.get_selection().get_cursor_pos();
        let cur_row = cursor_pos.row;
        if self.matrix_editing.is_none() && modifiers.alt {
            self.handle_alt_input(input);
            return InputOutcome { commands: Vec::new(), next: InputNext::Done(None) };
        }
        if self.matrix_editing.is_some() {
            let commands = NoteCalcApp::handle_matrix_editor_input(
                &mut self.matrix_editing,
                self.editor.get_selection(),
                input,
                modifiers,
            );
            let flags = EditorRowFlags::single_row(cur_row);
            assert(flags.rows() =~= set![cur_row as int]);
            let next = if self.matrix_editing.is_none() {
                InputNext::Done(Some(RowModificationType::SingleLine(cur_row)))
            } else {
                if modifiers.alt {
                    NoteCalcApp::update_rendered_height(
                        EditorY::new(cur_row),
                        &mut self.render_data,
                        &self.matrix_editing,
                        tokens,
                        results,
                        vars,
                    );
                }
                InputNext::Done(None)
            };
            self.set_redraw_flag(flags, RedrawTarget::Both);
            return InputOutcome { commands, next };
        }
        let completed = self.handle_completion(&input, editor_objs, vars.as_slice());
        if let Some(commands) = completed {
            let is_matrix = self.is_completed_to_matrix();
            let next = if is_matrix {
                InputNext::StepIntoMatrix { row: cur_row }
            } else {
                InputNext::Done(Some(RowModificationType::SingleLine(cur_row)))
            };
            return InputOutcome { commands, next };
        }
        let deleted = self.handle_obj_deletion(&input, editor_objs);
        if let Some((commands, effect)) = deleted {
            return InputOutcome { commands, next: InputNext::Done(Some(effect)) };
        }
        let mut commands: Vec<EditorCommand> = Vec::new();
        if let Some(pos) = self.handle_obj_jump_over(&input, modifiers, editor_objs) {
            commands.push(EditorCommand::SetCursor(pos));
            assert(commands_view(commands@) =~= seq![EditorCommandView::SetCursor(pos)]);
            let flags = EditorRowFlags::single_row(cur_row);
            assert(flags.rows() =~= set![cur_row as int]);
            self.set_redraw_flag(flags, RedrawTarget::EditorArea);
            return InputOutcome { commands, next: InputNext::Done(None) };
        }
        commands.push(EditorCommand::Input(input, modifiers));
        assert(commands_view(commands@) =~= seq![EditorCommandView::Input(input, modifiers)]);
        InputOutcome {
            commands,
            next: InputNext::Navigated { prev_selection: self.editor.get_selection() },
        }
    }

    /// The scroll position after the cursor moved to another line: the line of
    /// the cursor comes into view.
    pub open spec fn scroll_after_move(self, prev_row: int) -> int {
        let row = self.editor.selection.cursor().row as int;
        let height = self.render_data.client_height as int;
        let scroll_y = self.render_data.scroll_y as int;
        if !self.scrolls_after_move(prev_row) {
            scroll_y
        } else if row < scroll_y {
            row
        } else {
            smaller(row - (height - 1), height - 1)
        }
    }

    pub open spec fn scrolls_after_move(self, prev_row: int) -> bool {
        let row = self.editor.selection.cursor().row as int;
        let height = self.render_data.client_height as int;
        let scroll_y = self.render_data.scroll_y as int;
        row != prev_row && (row < scroll_y || row - scroll_y >= height)
    }

    /// The lines that a move of the cursor, or a change of the selection, makes
    /// necessary to draw again.
    pub open spec fn rows_after_move(self, prev: Selection) -> Option<Set<int>> {
        let selection = self.editor.selection;
        let row = selection.cursor().row as int;
        let prev_row = prev.cursor().row as int;
        if prev.end is Some {
            Some(
                rows_between(
                    smaller(prev.first().row as int, row),
                    larger(prev.second().row as int, row),
                ),
            )
        } else if selection.end is Some {
            Some(
                rows_between(
                    smaller(selection.first().row as int, row),
                    larger(selection.second().row as int, row),
                ),
            )
        } else if prev_row != row {
            Some(rows_between(smaller(prev_row, row), larger(prev_row, row)))
        } else if prev.cursor().column != selection.cursor().column {
            Some(rows_between(row, row))
        } else {
            None
        }
    }

    /// What is to be drawn again after the editor took a key.
    pub open spec fn redraw_after_key(
        self,
        prev: Selection,
        modif: Option<RowModificationType>,
    ) -> Option<Set<int>> {
        if self.scrolls_after_move(prev.cursor().row as int) {
            Some(all_rows())
        } else if modif is None {
            self.rows_after_move(prev)
        } else {
            None
        }
    }

    pub open spec fn finish_fits(
        self,
        next: InputNext,
        modif: Option<RowModificationType>,
        objects: Seq<Seq<EditorObject>>,
    ) -> bool {
        match next {
            InputNext::Done(_) => true,
            InputNext::StepIntoMatrix { row } => self.step_fits(
                Pos { row: 0, column: 0 },
                objects,
            ),
            InputNext::Navigated { prev_selection } => {
                &&& modif is None ==> self.step_fits(prev_selection.cursor(), objects)
                &&& prev_selection.second().row < MAX_LINE_COUNT
                &&& self.editor.selection.second().row < MAX_LINE_COUNT
                &&& self.scrolls_after_move(prev_selection.cursor().row as int)
                    ==> self.render_data.client_height >= 1
            },
        }
    }

    /// What is done after the editor did what it was asked to, and what is
    /// answered.
    pub open spec fn input_finished(
        self,
        next: InputNext,
        modif: Option<RowModificationType>,
        objects: Seq<Seq<EditorObject>>,
        after: NoteCalcApp,
        answer: Option<RowModificationType>,
    ) -> bool {
        match next {
            InputNext::Done(effect) => answer == effect && after == self,
            InputNext::StepIntoMatrix { row } => {
                &&& answer == Some(RowModificationType::SingleLine(row))
                &&& editing_view(after.matrix_editing) == self.editing_after_step(
                    Pos { row: 0, column: 0 },
                    objects,
                )
                &&& after == NoteCalcApp { matrix_editing: after.matrix_editing, ..self }
            },
            InputNext::Navigated { prev_selection } => {
                &&& answer == modif
                &&& editing_view(after.matrix_editing) == (if modif is None {
                    self.editing_after_step(prev_selection.cursor(), objects)
                } else {
                    editing_view(self.matrix_editing)
                })
                &&& after.render_data@ == Layout {
                    scroll_y: self.scroll_after_move(
                        prev_selection.cursor().row as int,
                    ) as usize,
                    ..self.render_data@
                }
                &&& match self.redraw_after_key(prev_selection, modif) {
                    Some(rows) => after.redraws(self, rows, RedrawTarget::Both),
                    None => after.result_area_redraw == self.result_area_redraw
                        && after.editor_area_redraw == self.editor_area_redraw,
                }
                &&& after == NoteCalcApp {
                    matrix_editing: after.matrix_editing,
                    render_data: after.render_data,
                    result_area_redraw: after.result_area_redraw,
                    editor_area_redraw: after.editor_area_redraw,
                    ..self
                }
            },
        }
    }

    /// After the editor did what it was asked to: `modif` is what it edited,
    /// taking the last key. The answer is what has to be updated.
    pub fn finish_input(
        &mut self,
        next: InputNext,
        modif: Option<RowModificationType>,
        editor_objs: &EditorObjects,
    ) -> (r: Option<RowModificationType>)
        requires
            old(self).finish_fits(next, modif, editor_objs@),
        ensures
            old(self).layout_wf() ==> final(self).layout_wf(),
            old(self).input_finished(next, modif, editor_objs@, *final(self), r),
    {
        let prev_selection = match next {
            InputNext::Done(effect) => {
                return effect;
            },
            InputNext::StepIntoMatrix { row } => {
                self.check_stepping_into_matrix(Pos::from_row_column(0, 0), editor_objs);
                return Some(RowModificationType::SingleLine(row));
            },
            InputNext::Navigated { prev_selection } => prev_selection,
        };
        let prev_cursor_pos = prev_selection.get_cursor_pos();
        if modif.is_none() {
            self.check_stepping_into_matrix(prev_cursor_pos, editor_objs);
        }
        let selection = self.editor.get_selection();
        let cursor_pos = selection.get_cursor_pos();
        let row = cursor_pos.row;
        let prev_row = prev_cursor_pos.row;
        let scroll_y = self.render_data.scroll_y;
        let client_height = self.render_data.client_height;
        let mut scrolled = false;
        if prev_row != row {
            if row < scroll_y {
                self.render_data.scroll_y = row;
                scrolled = true;
            } else if row - scroll_y >= client_height {
                let wanted: usize = row - (client_height - 1);
                self.render_data.scroll_y =
                if wanted < client_height - 1 {
                    wanted
                } else {
                    client_height - 1
                };
                scrolled = true;
            }
        }
        if scrolled {
            self.redraw_all();
            return modif;
        }
        if modif.is_some() {
            return modif;
        }
        let rows: Option<(usize, usize)> = if prev_selection.is_range() {
            let first = prev_selection.get_first().row;
            let second = prev_selection.get_second().row;
            Some(
                (
                    if first < row {
                        first
                    } else {
                        row
                    },
                    if second < row {
                        row
                    } else {
                        second
                    },
                ),
            )
        } else if selection.is_range() {
            Some((selection.get_first().row, selection.get_second().row))
        } else if prev_row > row {
            Some((row, prev_row))
        } else if prev_row < row {
            Some((prev_row, row))
        } else if prev_cursor_pos.column != cursor_pos.column {
            Some((row, row))
        } else {
            None
        };
        if let Some((from, to)) = rows {
            let flags = EditorRowFlags::range(from, to);
            assert(flags.rows() =~= rows_between(from as int, to as int));
            self.set_redraw_flag(flags, RedrawTarget::Both);
        }
        modif
    }
}

/// After the cursor moved to another line, that line is on the screen. Lines
/// that are further down than two screens are not reached in one move.
pub proof fn law_cursor_line_comes_into_view(app: NoteCalcApp, prev_row: int)
    requires
        app.render_data.client_height >= 1,
        app.editor.selection.cursor().row != prev_row,
        ({
            let row = app.editor.selection.cursor().row as int;
            let height = app.render_data.client_height as int;
            row < app.render_data.scroll_y + height || row <= 2 * (height - 1)
        }),
    ensures
        ({
            let scroll_y = app.scroll_after_move(prev_row);
            let row = app.editor.selection.cursor().row as int;
            0 <= scroll_y <= row < scroll_y + app.render_data.client_height
        }),
{
}

} // verus!
