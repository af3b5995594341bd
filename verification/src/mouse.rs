use vstd::prelude::*;
use vstd::slice::slice_subrange;

use crate::app::{
    all_rows, result_gutter, MouseState, NoteCalcApp, RedrawTarget, LEFT_GUTTER_WIDTH,
    MIN_RESULT_PANEL_WIDTH, RIGHT_GUTTER_WIDTH, SCROLL_BAR_WIDTH,
};
use crate::coords::{EditorY, Pos, RenderPosY, Selection};
use crate::editor::{commands_view, EditorCommand, EditorCommandView};
use crate::line_render::editing_view;
use crate::matrix_editing::{
    matrix_can_be_opened, opened_matrix, MatrixEditing, MatrixEditingView,
};
use crate::matrix_layout::larger;
use crate::objects::{
    deref_found, first_object, found, law_first_object, object_drawn_at, EditorObject,
    EditorObjectType, EditorObjects,
};
use crate::render_data::Layout;
use crate::row_flags::{EditorRowFlags, MAX_LINE_COUNT};

verus! {

/// The line that the screen row belongs to, looked for from line `from` on: the
/// one that starts there, or the one before the first that starts below.
pub open spec fn line_at(render_ys: Seq<Option<RenderPosY>>, y: int, from: int) -> Option<int>
    decreases render_ys.len() - from,
{
    if from < 0 || from >= render_ys.len() {
        None
    } else {
        match render_ys[from] {
            Some(render_y) => if render_y.0 == y {
                Some(from)
            } else if render_y.0 > y {
                Some(from - 1)
            } else {
                line_at(render_ys, y, from + 1)
            },
            None => line_at(render_ys, y, from + 1),
        }
    }
}

/// The first line does not start below the screen row.
pub open spec fn no_line_before(render_ys: Seq<Option<RenderPosY>>, y: int) -> bool {
    render_ys[0] matches Some(first) ==> first.0 <= y
}

pub open spec fn editor_y_at(render_ys: Seq<Option<RenderPosY>>, y: int) -> Option<EditorY> {
    match line_at(render_ys, y, 0) {
        Some(row) => Some(EditorY(row as usize)),
        None => None,
    }
}

proof fn lemma_line_at_range(render_ys: Seq<Option<RenderPosY>>, y: int, from: int)
    requires
        0 <= from <= render_ys.len(),
        from == 0 ==> no_line_before(render_ys, y),
    ensures
        line_at(render_ys, y, from) matches Some(row) ==> 0 <= row < render_ys.len(),
    decreases render_ys.len() - from,
{
    if from < render_ys.len() {
        lemma_line_at_range(render_ys, y, from + 1);
    }
}

/// A screen row at which a line starts belongs to that line, if no line starts
/// at or below it before.
pub proof fn law_line_starts_at_its_row(render_ys: Seq<Option<RenderPosY>>, row: int)
    requires
        0 <= row < render_ys.len(),
        render_ys[row] is Some,
        forall|i: int|
            0 <= i < row ==> ((#[trigger] render_ys[i]) matches Some(before) ==> before.0
                < render_ys[row].unwrap().0),
    ensures
        line_at(render_ys, render_ys[row].unwrap().0 as int, 0) == Some(row),
{
    lemma_line_found_from(render_ys, row, 0);
}

proof fn lemma_line_found_from(render_ys: Seq<Option<RenderPosY>>, row: int, from: int)
    requires
        0 <= from <= row < render_ys.len(),
        render_ys[row] is Some,
        forall|i: int|
            0 <= i < row ==> ((#[trigger] render_ys[i]) matches Some(before) ==> before.0
                < render_ys[row].unwrap().0),
    ensures
        line_at(render_ys, render_ys[row].unwrap().0 as int, from) == Some(row),
    decreases row - from,
{
    if from < row {
        lemma_line_found_from(render_ys, row, from + 1);
    }
}

/// What the editor has to do after a click, and, where the text was clicked,
/// what was selected before.
pub struct ClickOutcome {
    pub commands: Vec<EditorCommand>,
    pub clicked_from: Option<Selection>,
}

impl NoteCalcApp {
    /// The object of the text, if any, that is drawn at the place.
    pub open spec fn object_under(
        self,
        objects: Seq<Seq<EditorObject>>,
        x: int,
        y: int,
    ) -> Option<EditorObject> {
        match line_at(self.render_data@.render_ys, y, 0) {
            Some(row) => found(objects[row], object_drawn_at(objects[row], x, y)),
            None => None,
        }
    }

    /// The place in the text that a click there means: within an object that is
    /// drawn as text the character itself, after a reference to another line,
    /// and none in a matrix.
    pub open spec fn clicked_pos(
        self,
        objects: Seq<Seq<EditorObject>>,
        x: int,
        y: int,
    ) -> Option<Pos> {
        match self.object_under(objects, x, y) {
            Some(object) => match object.typ {
                EditorObjectType::LineReference => Some(
                    Pos { row: object.row.0, column: object.end_x },
                ),
                EditorObjectType::Matrix { .. } => None,
                EditorObjectType::SimpleTokens => Some(
                    Pos {
                        row: object.row.0,
                        column: (object.start_x + (x - object.rendered_x)) as usize,
                    },
                ),
            },
            None => match line_at(self.render_data@.render_ys, y, 0) {
                Some(row) => Some(Pos { row: row as usize, column: x as usize }),
                None => None,
            },
        }
    }

    /// The matrix, if any, that is drawn at the place.
    pub open spec fn clicked_matrix(
        self,
        objects: Seq<Seq<EditorObject>>,
        x: int,
        y: int,
    ) -> Option<EditorObject> {
        match self.object_under(objects, x, y) {
            Some(object) => if object.typ is Matrix {
                Some(object)
            } else {
                None
            },
            None => None,
        }
    }

    /// What ends the editing of a matrix, if one is edited.
    pub open spec fn ending_commands(self) -> Seq<EditorCommandView> {
        match self.matrix_editing {
            Some(edited) => edited@.ending(None),
            None => Seq::empty(),
        }
    }

    /// The text of an object.
    pub open spec fn object_text(self, object: EditorObject) -> Seq<char> {
        self.editor_content.lines@[object.row.0 as int]@.subrange(
            object.start_x as int,
            object.end_x as int,
        )
    }

    /// What the editor has to do after a click into the text.
    pub open spec fn click_commands(
        self,
        objects: Seq<Seq<EditorObject>>,
        x: int,
        y: int,
    ) -> Seq<EditorCommandView> {
        match self.clicked_pos(objects, x, y) {
            Some(pos) => self.ending_commands() + seq![
                EditorCommandView::Click(pos),
                EditorCommandView::BlinkCursor,
            ],
            None => if self.clicked_matrix(objects, x, y) is Some {
                self.ending_commands()
            } else {
                Seq::empty()
            },
        }
    }

    /// The matrix that is edited after a click into the text: a click into a
    /// matrix starts its editing, or ends the editing at hand; any other click
    /// ends it.
    pub open spec fn editing_after_click(
        self,
        objects: Seq<Seq<EditorObject>>,
        x: int,
        y: int,
    ) -> Option<MatrixEditingView> {
        match self.clicked_matrix(objects, x, y) {
            Some(object) => if self.matrix_editing is Some {
                None
            } else {
                Some(
                    opened_matrix(
                        object.typ->row_count,
                        object.typ->col_count,
                        self.object_text(object),
                        object.row,
                        object.start_x,
                        object.end_x,
                        Pos { row: 0, column: 0 },
                    ),
                )
            },
            None => if self.clicked_pos(objects, x, y) is Some {
                None
            } else {
                editing_view(self.matrix_editing)
            },
        }
    }

    /// The objects at the place of the click are in order.
    pub open spec fn click_fits(
        self,
        objects: Seq<Seq<EditorObject>>,
        x: int,
        y: int,
    ) -> bool {
        &&& objects.len() == MAX_LINE_COUNT
        &&& no_line_before(self.render_data@.render_ys, y)
        &&& self.matrix_editing matches Some(edited) ==> edited@.wf()
        &&& self.object_under(objects, x, y) matches Some(object) ==> {
            &&& object.typ == EditorObjectType::SimpleTokens ==> object.start_x + (x
                - object.rendered_x) <= usize::MAX
            &&& object.typ matches EditorObjectType::Matrix { row_count, col_count } ==> {
                self.matrix_editing is None ==> {
                    &&& object.row.0 < self.editor_content.lines@.len()
                    &&& object.start_x <= object.end_x
                        <= self.editor_content.lines@[object.row.0 as int]@.len()
                    &&& matrix_can_be_opened(
                        row_count,
                        col_count,
                        self.object_text(object),
                        object.row,
                        object.start_x,
                        Pos { row: 0, column: 0 },
                    )
                }
            }
        }
    }

    /// What the mouse does after it was pressed at column `x`.
    pub open spec fn mouse_state_after_click(self, x: int, y: RenderPosY) -> Option<MouseState> {
        let gutter = self.render_data.result_gutter_x as int;
        if x < LEFT_GUTTER_WIDTH || self.mouse_state is Some {
            self.mouse_state
        } else if x < gutter - SCROLL_BAR_WIDTH {
            Some(MouseState::ClickedInEditor)
        } else if x < gutter {
            Some(
                MouseState::ClickedInScrollBar {
                    original_click_y: y,
                    original_scroll_y: self.render_data.scroll_y,
                },
            )
        } else if x < gutter + RIGHT_GUTTER_WIDTH {
            Some(MouseState::RightGutterIsDragged)
        } else {
            None
        }
    }

    /// The click goes into the text.
    pub open spec fn is_editor_click(self, x: int) -> bool {
        LEFT_GUTTER_WIDTH <= x < self.render_data.result_gutter_x - SCROLL_BAR_WIDTH
    }

    /// What a click does: what the mouse does from then on, what the editor has
    /// to do, what was selected before, where the text was clicked, and the
    /// matrix that is edited after it.
    pub open spec fn click_handled(
        self,
        x: int,
        clicked_y: RenderPosY,
        objects: Seq<Seq<EditorObject>>,
        after: NoteCalcApp,
        commands: Seq<EditorCommandView>,
        clicked_from: Option<Selection>,
    ) -> bool {
        &&& after.mouse_state == self.mouse_state_after_click(x, clicked_y)
        &&& self.is_editor_click(x) ==> {
            let text_x = x - LEFT_GUTTER_WIDTH;
            let y = clicked_y.0 as int;
            &&& commands == self.click_commands(objects, text_x, y)
            &&& clicked_from == (if self.clicked_pos(objects, text_x, y) is Some {
                Some(self.editor.selection)
            } else {
                None
            })
            &&& editing_view(after.matrix_editing) == self.editing_after_click(
                objects,
                text_x,
                y,
            )
        }
        &&& !self.is_editor_click(x) ==> commands.len() == 0 && clicked_from is None
            && after.matrix_editing == self.matrix_editing
        &&& after == NoteCalcApp {
            mouse_state: after.mouse_state,
            matrix_editing: after.matrix_editing,
            ..self
        }
    }

    /// What releasing the mouse does.
    pub open spec fn mouse_released(self, after: NoteCalcApp) -> bool {
        after == NoteCalcApp { mouse_state: None, ..self }
    }

    pub fn handle_mouse_up(&mut self, _x: usize, _y: usize)
        ensures
            old(self).mouse_released(*final(self)),
    {
        self.mouse_state = None;
    }

    /// What the wheel does.
    pub open spec fn wheel_turned(self, dir: int, after: NoteCalcApp) -> bool {
        let scroll_y = scrolled_by_wheel(
            self.render_data.scroll_y as int,
            self.render_data.client_height as int,
            self.editor_content.lines@.len() as int,
            dir,
        );
        &&& after.render_data@ == Layout { scroll_y: scroll_y as usize, ..self.render_data@ }
        &&& if scroll_y == self.render_data.scroll_y {
            after == self
        } else {
            after.redraws(self, all_rows(), RedrawTarget::Both)
        }
        &&& after == NoteCalcApp {
            render_data: after.render_data,
            result_area_redraw: after.result_area_redraw,
            editor_area_redraw: after.editor_area_redraw,
            ..self
        }
    }

    /// Scrolls by one line: up for `0`, down for `1`, as far as there are lines.
    pub fn handle_wheel(&mut self, dir: usize)
        requires
            old(self).render_data.scroll_y + old(self).render_data.client_height <= usize::MAX,
        ensures
            old(self).layout_wf() ==> final(self).layout_wf(),
            old(self).wheel_turned(dir as int, *final(self)),
    {
        if dir == 0 && self.render_data.scroll_y > 0 {
            self.render_data.scroll_y -= 1;
            self.redraw_all();
        } else if dir == 1 && self.render_data.scroll_y + self.render_data.client_height
            < self.editor_content.line_count() {
            self.render_data.scroll_y += 1;
            self.redraw_all();
        }
    }

    pub fn rendered_y_to_editor_y(&self, clicked_y: RenderPosY) -> (r: Option<EditorY>)
        requires
            no_line_before(self.render_data@.render_ys, clicked_y.0 as int),
        ensures
            r == editor_y_at(self.render_data@.render_ys, clicked_y.0 as int),
            r matches Some(row) ==> row.0 < MAX_LINE_COUNT,
    {
        let render_ys = self.render_data.editor_y_to_render_y();
        let ghost ys = self.render_data@.render_ys;
        let mut ed_y: usize = 0;
        while ed_y < render_ys.len()
            invariant
                ed_y <= ys.len(),
                ys.len() == MAX_LINE_COUNT,
                render_ys@ == ys,
                ys == self.render_data@.render_ys,
                no_line_before(ys, clicked_y.0 as int),
                line_at(ys, clicked_y.0 as int, 0) == line_at(
                    ys,
                    clicked_y.0 as int,
                    ed_y as int,
                ),
            decreases ys.len() - ed_y,
        {
            if let Some(r_y) = render_ys[ed_y] {
                if r_y.as_usize() == clicked_y.as_usize() {
                    return Some(EditorY::new(ed_y));
                } else if r_y.as_usize() > clicked_y.as_usize() {
                    return Some(EditorY::new(ed_y - 1));
                }
            }
            ed_y += 1;
        }
        None
    }

    pub fn get_obj_at_rendered_pos<'a>(
        &self,
        x: usize,
        render_y: RenderPosY,
        editor_objects: &'a EditorObjects,
    ) -> (r: Option<&'a EditorObject>)
        requires
            editor_objects.wf(),
            no_line_before(self.render_data@.render_ys, render_y.0 as int),
        ensures
            deref_found(r) == self.object_under(
                editor_objects@,
                x as int,
                render_y.0 as int,
            ),
    {
        if let Some(editor_y) = self.rendered_y_to_editor_y(render_y) {
            proof {
                lemma_line_at_range(self.render_data@.render_ys, render_y.0 as int, 0);
            }
            let objects = &editor_objects[editor_y];
            let ghost wanted = |o: EditorObject| o.drawn_at(x as int, render_y.0 as int);
            let mut i: usize = 0;
            while i < objects.len()
                invariant
                    i <= objects@.len(),
                    objects@ == editor_objects@[editor_y.0 as int],
                    line_at(self.render_data@.render_ys, render_y.0 as int, 0) == Some(
                        editor_y.0 as int,
                    ),
                    wanted == (|o: EditorObject| o.drawn_at(x as int, render_y.0 as int)),
                    first_object(objects@, wanted, 0) == first_object(
                        objects@,
                        wanted,
                        i as int,
                    ),
                decreases objects@.len() - i,
            {
                let obj = &objects[i];
                let y = render_y.as_usize();
                let top = obj.rendered_y.as_usize();
                if obj.rendered_x <= x && x - obj.rendered_x < obj.rendered_w && top <= y && y - top
                    < obj.rendered_h {
                    return Some(obj);
                }
                i += 1;
            }
            None
        } else {
            None
        }
    }

    /// Takes a click. Where the text was clicked, the editor has to take the
    /// click too; `finish_click` is due then.
    pub fn handle_click(
        &mut self,
        x: usize,
        clicked_y: RenderPosY,
        editor_objs: &EditorObjects,
    ) -> (r: ClickOutcome)
        requires
            old(self).render_data.result_gutter_x >= SCROLL_BAR_WIDTH,
            old(self).render_data.result_gutter_x + RIGHT_GUTTER_WIDTH <= usize::MAX,
            old(self).is_editor_click(x as int) ==> old(self).click_fits(
                editor_objs@,
                x - LEFT_GUTTER_WIDTH,
                clicked_y.0 as int,
            ),
        ensures
            old(self).layout_wf() ==> final(self).layout_wf(),
            old(self).click_handled(
                x as int,
                clicked_y,
                editor_objs@,
                *final(self),
                commands_view(r.commands@),
                r.clicked_from,
            ),
    {
        let mut commands: Vec<EditorCommand> = Vec::new();
        let mut clicked_from: Option<Selection> = None;
        let scroll_bar_x: usize = self.render_data.result_gutter_x - SCROLL_BAR_WIDTH;
        if x < LEFT_GUTTER_WIDTH {
            // the line numbers do not react to clicks
        } else if x < scroll_bar_x {
            let clicked_x: usize = x - LEFT_GUTTER_WIDTH;
            let ghost y = clicked_y.0 as int;
            let mut click_pos: Option<Pos> = None;
            let object = self.get_obj_at_rendered_pos(clicked_x, clicked_y, editor_objs);
            proof {
                lemma_line_at_range(self.render_data@.render_ys, y, 0);
            }
            match object {
                Some(editor_obj) => {
                    proof {
                        let row = line_at(self.render_data@.render_ys, y, 0).unwrap();
                        law_first_object(
                            editor_objs@[row],
                            |o: EditorObject| o.drawn_at(clicked_x as int, y),
                            0,
                        );
                    }
                    match editor_obj.typ {
                        EditorObjectType::LineReference => {
                            click_pos = Some(
                                Pos::from_row_column(editor_obj.row.as_usize(), editor_obj.end_x),
                            );
                        },
                        EditorObjectType::Matrix { row_count, col_count } => {
                            if self.matrix_editing.is_some() {
                                commands = NoteCalcApp::end_matrix_editing(
                                    &mut self.matrix_editing,
                                    None,
                                );
                            } else {
                                let line = self.editor_content.get_line_valid_chars(
                                    editor_obj.row.as_usize(),
                                );
                                self.matrix_editing = Some(
                                    MatrixEditing::new(
                                        row_count,
                                        col_count,
                                        slice_subrange(
                                            line,
                                            editor_obj.start_x,
                                            editor_obj.end_x,
                                        ),
                                        editor_obj.row,
                                        editor_obj.start_x,
                                        editor_obj.end_x,
                                        Pos::from_row_column(0, 0),
                                    ),
                                );
                            }
                        },
                        EditorObjectType::SimpleTokens => {
                            let x_pos_within: usize = clicked_x - editor_obj.rendered_x;
                            click_pos = Some(
                                Pos::from_row_column(
                                    editor_obj.row.as_usize(),
                                    editor_obj.start_x + x_pos_within,
                                ),
                            );
                        },
                    }
                },
                None => {
                    if let Some(row) = self.rendered_y_to_editor_y(clicked_y) {
                        click_pos = Some(Pos::from_row_column(row.as_usize(), clicked_x));
                    }
                },
            }
            if let Some(pos) = click_pos {
                clicked_from = Some(self.editor.get_selection());
                if self.matrix_editing.is_some() {
                    commands = NoteCalcApp::end_matrix_editing(&mut self.matrix_editing, None);
                }
                commands.push(EditorCommand::Click(pos));
                commands.push(EditorCommand::BlinkCursor);
            }
            if self.mouse_state.is_none() {
                self.mouse_state = Some(MouseState::ClickedInEditor);
            }
            assert(commands_view(commands@) =~= old(self).click_commands(
                editor_objs@,
                clicked_x as int,
                y,
            ));
        } else if self.mouse_state.is_none() {
            self.mouse_state =
            if x - scroll_bar_x < SCROLL_BAR_WIDTH {
                Some(
                    MouseState::ClickedInScrollBar {
                        original_click_y: clicked_y,
                        original_scroll_y: self.render_data.scroll_y,
                    },
                )
            } else if x - self.render_data.result_gutter_x < RIGHT_GUTTER_WIDTH {
                Some(MouseState::RightGutterIsDragged)
            } else {
                None
            };
        }
        ClickOutcome { commands, clicked_from }
    }

    /// What has to be drawn again after the editor took a click.
    pub open spec fn click_finished(self, prev: Selection, after: NoteCalcApp) -> bool {
        &&& after.redraws(
            self,
            Set::new(
                |row: int|
                    prev.first().row <= row <= prev.second().row || row
                        == self.editor.selection.cursor().row,
            ),
            RedrawTarget::Both,
        )
        &&& after.same_but_redraws(self)
    }

    /// After the editor took a click: what was selected, and the line of the
    /// cursor, have to be drawn again.
    pub fn finish_click(&mut self, prev_selection: Selection)
        requires
            prev_selection.second().row < MAX_LINE_COUNT,
            old(self).editor.selection.cursor().row < MAX_LINE_COUNT,
        ensures
            old(self).layout_wf() ==> final(self).layout_wf(),
            old(self).click_finished(prev_selection, *final(self)),
    {
        let new_row = self.editor.get_selection().get_cursor_pos().row;
        let modif = if prev_selection.is_range() {
            let mut m = EditorRowFlags::range(
                prev_selection.get_first().row,
                prev_selection.get_second().row,
            );
            m.merge(EditorRowFlags::single_row(new_row));
            m
        } else {
            let rows: [usize; 2] = [prev_selection.start.row, new_row];
            let m = EditorRowFlags::multiple(&rows);
            m
        };
        assert(modif.rows() =~= Set::new(
            |row: int|
                prev_selection.first().row <= row <= prev_selection.second().row || row
                    == self.editor.selection.cursor().row,
        ));
        self.set_redraw_flag(modif, RedrawTarget::Both);
    }

    /// The scroll position after the handle of the scroll bar was dragged.
    pub open spec fn dragged_scroll(self, y: int) -> int {
        match self.mouse_state {
            Some(MouseState::ClickedInScrollBar { original_click_y, original_scroll_y }) =>
            if self.render_data.client_height < self.editor_content.lines@.len() {
                larger(original_scroll_y + (y - original_click_y.0), 0)
            } else {
                self.render_data.scroll_y as int
            },
            _ => self.render_data.scroll_y as int,
        }
    }

    /// What a move of the mouse with its button held does.
    pub open spec fn drag_handled(
        self,
        x: int,
        y: int,
        after: NoteCalcApp,
        commands: Seq<EditorCommandView>,
    ) -> bool {
        &&& commands == (match (
            self.mouse_state,
            editor_y_at(self.render_data@.render_ys, y),
        ) {
            (Some(MouseState::ClickedInEditor), Some(row)) => seq![
                EditorCommandView::Drag(
                    Pos { row: row.0, column: (x - LEFT_GUTTER_WIDTH) as usize },
                ),
                EditorCommandView::BlinkCursor,
            ],
            _ => Seq::empty(),
        })
        &&& if self.mouse_state == Some(MouseState::RightGutterIsDragged) {
            let gutter = result_gutter(Some(x as usize), self.client_width as int);
            &&& after.render_data@ == Layout {
                result_gutter_x: gutter as usize,
                current_editor_width: (gutter - self.render_data.left_gutter_width) as usize,
                ..self.render_data@
            }
            &&& after.redraws(self, all_rows(), RedrawTarget::Both)
        } else {
            &&& after.render_data@ == Layout {
                scroll_y: self.dragged_scroll(y) as usize,
                ..self.render_data@
            }
            &&& after.result_area_redraw == self.result_area_redraw
            &&& after.editor_area_redraw == self.editor_area_redraw
        }
        &&& after == NoteCalcApp {
            render_data: after.render_data,
            result_area_redraw: after.result_area_redraw,
            editor_area_redraw: after.editor_area_redraw,
            ..self
        }
    }

    /// Takes a move of the mouse with its button held: it moves the gutter, goes
    /// to the editor, or scrolls, by where the button was pressed.
    pub fn handle_drag(&mut self, x: usize, y: RenderPosY) -> (r: Vec<EditorCommand>)
        requires
            old(self).mouse_state == Some(MouseState::RightGutterIsDragged) ==> {
                &&& old(self).client_width >= RIGHT_GUTTER_WIDTH + MIN_RESULT_PANEL_WIDTH
                &&& old(self).render_data.left_gutter_width <= result_gutter(
                    Some(x),
                    old(self).client_width as int,
                )
            },
            old(self).mouse_state == Some(MouseState::ClickedInEditor) ==> {
                &&& no_line_before(old(self).render_data@.render_ys, y.0 as int)
                &&& line_at(old(self).render_data@.render_ys, y.0 as int, 0) is Some ==> x
                    >= LEFT_GUTTER_WIDTH
            },
            old(self).dragged_scroll(y.0 as int) <= usize::MAX,
        ensures
            old(self).layout_wf() ==> final(self).layout_wf(),
            old(self).drag_handled(x as int, y.0 as int, *final(self), commands_view(r@)),
    {
        let mut commands: Vec<EditorCommand> = Vec::new();
        match self.mouse_state {
            Some(MouseState::RightGutterIsDragged) => {
                self.set_result_gutter_x(
                    NoteCalcApp::calc_result_gutter_x(Some(x), self.client_width),
                );
            },
            Some(MouseState::ClickedInEditor) => {
                if let Some(row) = self.rendered_y_to_editor_y(y) {
                    let pos = Pos::from_row_column(row.as_usize(), x - LEFT_GUTTER_WIDTH);
                    commands.push(EditorCommand::Drag(pos));
                    commands.push(EditorCommand::BlinkCursor);
                }
            },
            Some(
                MouseState::ClickedInScrollBar { original_click_y, original_scroll_y },
            ) => {
                if self.render_data.client_height < self.editor_content.line_count() {
                    let from = original_click_y.as_usize();
                    let to = y.as_usize();
                    self.render_data.scroll_y =
                    if from <= to {
                        original_scroll_y + (to - from)
                    } else if from - to < original_scroll_y {
                        original_scroll_y - (from - to)
                    } else {
                        0
                    };
                }
            },
            None => {},
        }
        assert(commands_view(commands@) =~= match (
            old(self).mouse_state,
            editor_y_at(old(self).render_data@.render_ys, y.0 as int),
        ) {
            (Some(MouseState::ClickedInEditor), Some(row)) => seq![
                EditorCommandView::Drag(
                    Pos { row: row.0, column: (x - LEFT_GUTTER_WIDTH) as usize },
                ),
                EditorCommandView::BlinkCursor,
            ],
            _ => Seq::empty(),
        });
        commands
    }
}

/// Where the wheel scrolls to: not above the first line, and not past the last.
pub open spec fn scrolled_by_wheel(
    scroll_y: int,
    client_height: int,
    line_count: int,
    dir: int,
) -> int {
    if dir == 0 && scroll_y > 0 {
        scroll_y - 1
    } else if dir == 1 && scroll_y + client_height < line_count {
        scroll_y + 1
    } else {
        scroll_y
    }
}

/// Scrolling with the wheel never leaves the text: the last line does not rise
/// above the last row of the screen.
pub proof fn law_wheel_stays_within_the_text(
    scroll_y: int,
    client_height: int,
    line_count: int,
    dir: int,
)
    requires
        scroll_y >= 0,
        scroll_y + client_height <= line_count || scroll_y == 0,
    ensures
        ({
            let after = scrolled_by_wheel(scroll_y, client_height, line_count, dir);
            &&& after >= 0
            &&& after + client_height <= line_count || after == 0
        }),
{
}

/// Scrolling down and up again, where scrolling down was possible, goes back.
pub proof fn law_wheel_down_and_up(scroll_y: int, client_height: int, line_count: int)
    requires
        scroll_y >= 0,
        scroll_y + client_height < line_count,
    ensures
        scrolled_by_wheel(
            scrolled_by_wheel(scroll_y, client_height, line_count, 1),
            client_height,
            line_count,
            0,
        ) == scroll_y,
{
}

} // verus!
