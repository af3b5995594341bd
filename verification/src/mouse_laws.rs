use vstd::prelude::*;

use crate::app::{
    result_gutter, MouseState, NoteCalcApp, LEFT_GUTTER_WIDTH, MIN_RESULT_PANEL_WIDTH,
    RIGHT_GUTTER_WIDTH, SCROLL_BAR_WIDTH,
};
use crate::buckets::Frame;
use crate::coords::{Pos, RenderPosY, Selection};
use crate::editor::EditorCommandView;
use crate::event_laws::lemma_rows_are_had;
use crate::line_parts::simple_line_drawn;
use crate::line_render::editing_view;
use crate::matrix_editing::matrix_cells;
use crate::mouse::line_at;
use crate::objects::{first_object, law_first_object, EditorObject};
use crate::render_data::PerLineRenderData;

verus! {

/// The screen row belongs to the line: the line starts there or above, and the
/// next one below it. Lines further down start further down on the screen.
pub open spec fn row_of_line(render_ys: Seq<Option<RenderPosY>>, row: int, y: int) -> bool {
    &&& 0 <= row < render_ys.len()
    &&& render_ys[row] matches Some(top) && top.0 <= y
    &&& forall|i: int|
        0 <= i < row ==> ((#[trigger] render_ys[i]) matches Some(above) ==> above.0
            < render_ys[row].unwrap().0)
    &&& render_ys[row].unwrap().0 == y || (row + 1 < render_ys.len() && (
    render_ys[row + 1] matches Some(below) && y < below.0))
}

proof fn lemma_line_at_row(render_ys: Seq<Option<RenderPosY>>, row: int, y: int, from: int)
    requires
        row_of_line(render_ys, row, y),
        0 <= from <= row,
    ensures
        line_at(render_ys, y, from) == Some(row),
    decreases row - from,
{
    if from < row {
        lemma_line_at_row(render_ys, row, y, from + 1);
    } else if render_ys[row].unwrap().0 < y {
        assert(line_at(render_ys, y, row) == line_at(render_ys, y, row + 1));
    }
}

/// A screen row is taken for a row of the line that it belongs to.
pub proof fn law_screen_row_belongs_to_its_line(
    render_ys: Seq<Option<RenderPosY>>,
    row: int,
    y: int,
)
    requires
        row_of_line(render_ys, row, y),
    ensures
        line_at(render_ys, y, 0) == Some(row),
{
    lemma_line_at_row(render_ys, row, y, 0);
}

/// The object is drawn at the place, seen from where the text starts.
pub open spec fn is_drawn_there(object: EditorObject, x: int, y: int) -> bool {
    &&& object.rendered_x <= x < object.rendered_x + object.rendered_w
    &&& object.rendered_y.0 <= y < object.rendered_y.0 + object.rendered_h
}

/// A click goes into the text: right of the line numbers, and left of the
/// scroll bar.
pub open spec fn clicks_text(app: NoteCalcApp, x: int) -> bool {
    LEFT_GUTTER_WIDTH <= x < app.render_data.result_gutter_x - SCROLL_BAR_WIDTH
}

/// A click next to all objects of a line goes to the column that was clicked:
/// the editor is asked to take a click there. An edited matrix is left before.
pub proof fn law_click_next_to_objects_goes_to_its_column(
    app: NoteCalcApp,
    x: int,
    clicked_y: RenderPosY,
    objects: Seq<Seq<EditorObject>>,
    after: NoteCalcApp,
    commands: Seq<EditorCommandView>,
    clicked_from: Option<Selection>,
    row: int,
)
    requires
        app.click_handled(x, clicked_y, objects, after, commands, clicked_from),
        clicks_text(app, x),
        row_of_line(app.render_data@.render_ys, row, clicked_y.0 as int),
        forall|i: int|
            0 <= i < objects[row].len() ==> !is_drawn_there(
                #[trigger] objects[row][i],
                x - LEFT_GUTTER_WIDTH,
                clicked_y.0 as int,
            ),
    ensures
        ({
            let click = seq![
                EditorCommandView::Click(
                    Pos { row: row as usize, column: (x - LEFT_GUTTER_WIDTH) as usize },
                ),
                EditorCommandView::BlinkCursor,
            ];
            commands == match app.matrix_editing {
                Some(edited) => edited@.ending(None) + click,
                None => click,
            }
        }),
        clicked_from == Some(app.editor.selection),
        after.matrix_editing is None,
{
    let y = clicked_y.0 as int;
    let text_x = x - LEFT_GUTTER_WIDTH;
    lemma_line_at_row(app.render_data@.render_ys, row, y, 0);
    law_first_object(objects[row], |o: EditorObject| o.drawn_at(text_x, y), 0);
    if app.matrix_editing is None {
        assert(commands =~= seq![
            EditorCommandView::Click(
                Pos { row: row as usize, column: (x - LEFT_GUTTER_WIDTH) as usize },
            ),
            EditorCommandView::BlinkCursor,
        ]);
    }
}

/// In a line that is drawn as plain text the click goes right before the
/// character that is drawn in the clicked column of the screen.
pub proof fn law_click_goes_before_the_clicked_character(
    app: NoteCalcApp,
    x: int,
    clicked_y: RenderPosY,
    objects: Seq<Seq<EditorObject>>,
    after: NoteCalcApp,
    commands: Seq<EditorCommandView>,
    clicked_from: Option<Selection>,
    row: int,
    frame: Frame,
    r: PerLineRenderData,
)
    requires
        app.click_handled(x, clicked_y, objects, after, commands, clicked_from),
        app.layout_wf(),
        app.matrix_editing is None,
        clicks_text(app, x),
        row_of_line(app.render_data@.render_ys, row, clicked_y.0 as int),
        objects[row].len() == 0,
        0 <= row < app.editor_content.lines@.len(),
        x - LEFT_GUTTER_WIDTH < app.editor_content.lines@[row]@.len(),
    ensures
        ({
            let line = app.editor_content.lines@[row]@;
            let drawn = simple_line_drawn(frame, line, r, app.render_data@).utf8_texts.last();
            commands[0] matches EditorCommandView::Click(pos) && {
                &&& pos.row == row
                &&& 0 <= x - drawn.column < drawn.text.len()
                &&& drawn.text[x - drawn.column] == line[pos.column as int]
            }
        }),
{
    law_click_next_to_objects_goes_to_its_column(
        app,
        x,
        clicked_y,
        objects,
        after,
        commands,
        clicked_from,
        row,
    );
}

/// A click onto plain text goes to the character that is drawn there, one onto
/// a reference right behind it. An edited matrix is left before.
pub proof fn law_click_onto_text_and_references(
    app: NoteCalcApp,
    x: int,
    clicked_y: RenderPosY,
    objects: Seq<Seq<EditorObject>>,
    after: NoteCalcApp,
    commands: Seq<EditorCommandView>,
    clicked_from: Option<Selection>,
    row: int,
    i: int,
)
    requires
        app.click_handled(x, clicked_y, objects, after, commands, clicked_from),
        clicks_text(app, x),
        row_of_line(app.render_data@.render_ys, row, clicked_y.0 as int),
        0 <= i < objects[row].len(),
        !(objects[row][i].typ is Matrix),
        is_drawn_there(objects[row][i], x - LEFT_GUTTER_WIDTH, clicked_y.0 as int),
        forall|j: int|
            0 <= j < i ==> !is_drawn_there(
                #[trigger] objects[row][j],
                x - LEFT_GUTTER_WIDTH,
                clicked_y.0 as int,
            ),
        objects[row][i].start_x + x <= usize::MAX,
    ensures
        ({
            let object = objects[row][i];
            let into = x - LEFT_GUTTER_WIDTH - object.rendered_x;
            let column = if object.typ is LineReference {
                object.end_x as int
            } else {
                object.start_x + into
            };
            let click = seq![
                EditorCommandView::Click(Pos { row: object.row.0, column: column as usize }),
                EditorCommandView::BlinkCursor,
            ];
            commands == match app.matrix_editing {
                Some(edited) => edited@.ending(None) + click,
                None => click,
            }
        }),
        clicked_from == Some(app.editor.selection),
        after.matrix_editing is None,
{
    let y = clicked_y.0 as int;
    let text_x = x - LEFT_GUTTER_WIDTH;
    lemma_line_at_row(app.render_data@.render_ys, row, y, 0);
    law_first_object(objects[row], |o: EditorObject| o.drawn_at(text_x, y), 0);
    let object = objects[row][i];
    assert(object.drawn_at(text_x, y));
    let wanted = |o: EditorObject| o.drawn_at(text_x, y);
    assert(wanted(objects[row][i]));
    let found_at = first_object(objects[row], wanted, 0)->0;
    assert(found_at == i) by {
        if found_at < i {
            assert(!is_drawn_there(objects[row][found_at], text_x, y));
        }
    }
    let column = if object.typ is LineReference {
        object.end_x as int
    } else {
        object.start_x + (text_x - object.rendered_x)
    };
    if app.matrix_editing is None {
        assert(commands =~= seq![
            EditorCommandView::Click(Pos { row: object.row.0, column: column as usize }),
            EditorCommandView::BlinkCursor,
        ]);
    }
}

/// A click onto a matrix starts its editing; where one is edited already, it is
/// left. The cursor of the text is not moved by it.
pub proof fn law_click_onto_a_matrix_edits_it(
    app: NoteCalcApp,
    x: int,
    clicked_y: RenderPosY,
    objects: Seq<Seq<EditorObject>>,
    after: NoteCalcApp,
    commands: Seq<EditorCommandView>,
    clicked_from: Option<Selection>,
    row: int,
    i: int,
)
    requires
        app.click_handled(x, clicked_y, objects, after, commands, clicked_from),
        clicks_text(app, x),
        row_of_line(app.render_data@.render_ys, row, clicked_y.0 as int),
        0 <= i < objects[row].len(),
        objects[row][i].typ is Matrix,
        is_drawn_there(objects[row][i], x - LEFT_GUTTER_WIDTH, clicked_y.0 as int),
        forall|j: int|
            0 <= j < i ==> !is_drawn_there(
                #[trigger] objects[row][j],
                x - LEFT_GUTTER_WIDTH,
                clicked_y.0 as int,
            ),
    ensures
        clicked_from is None,
        match app.matrix_editing {
            Some(edited) => after.matrix_editing is None && commands == edited@.ending(None),
            None => {
                let object = objects[row][i];
                let opened = editing_view(after.matrix_editing);
                &&& commands.len() == 0
                &&& opened is Some
                &&& opened->0.row_count == object.typ->row_count
                &&& opened->0.col_count == object.typ->col_count
                &&& opened->0.row_index == object.row
                &&& opened->0.start_text_index == object.start_x
                &&& opened->0.end_text_index == object.end_x
                &&& opened->0.cells == matrix_cells(
                    app.editor_content.lines@[object.row.0 as int]@.subrange(
                        object.start_x as int,
                        object.end_x as int,
                    ),
                )
            },
        },
{
    let y = clicked_y.0 as int;
    let text_x = x - LEFT_GUTTER_WIDTH;
    lemma_line_at_row(app.render_data@.render_ys, row, y, 0);
    law_first_object(objects[row], |o: EditorObject| o.drawn_at(text_x, y), 0);
    let wanted = |o: EditorObject| o.drawn_at(text_x, y);
    assert(wanted(objects[row][i]));
    let found_at = first_object(objects[row], wanted, 0)->0;
    assert(found_at == i) by {
        if found_at < i {
            assert(!is_drawn_there(objects[row][found_at], text_x, y));
        }
    }
}

/// What the mouse does after it was pressed depends on where: in the text it
/// selects, on the scroll bar it scrolls, on the gutter before the results it
/// moves the gutter, and elsewhere nothing. A mouse that is pressed already
/// goes on with what it does.
pub proof fn law_pressed_mouse(
    app: NoteCalcApp,
    x: int,
    clicked_y: RenderPosY,
    objects: Seq<Seq<EditorObject>>,
    after: NoteCalcApp,
    commands: Seq<EditorCommandView>,
    clicked_from: Option<Selection>,
)
    requires
        app.click_handled(x, clicked_y, objects, after, commands, clicked_from),
        app.layout_wf(),
        app.render_data.result_gutter_x > LEFT_GUTTER_WIDTH,
    ensures
        app.mouse_state is Some ==> after.mouse_state == app.mouse_state,
        app.mouse_state is None ==> {
            let gutter = app.render_data.result_gutter_x;
            &&& x < 4 || x >= gutter + 2 ==> after.mouse_state is None
            &&& 4 <= x < gutter - 1 ==> after.mouse_state == Some(MouseState::ClickedInEditor)
            &&& x == gutter - 1 ==> after.mouse_state == Some(
                MouseState::ClickedInScrollBar {
                    original_click_y: clicked_y,
                    original_scroll_y: app.render_data.scroll_y,
                },
            )
            &&& x == gutter || x == gutter + 1 ==> after.mouse_state == Some(
                MouseState::RightGutterIsDragged,
            )
        },
        x < 4 || x >= app.render_data.result_gutter_x - 1 ==> commands.len() == 0
            && clicked_from is None && after.matrix_editing == app.matrix_editing,
        after.editor == app.editor,
        after.editor_content == app.editor_content,
        after.render_data == app.render_data,
{
}

/// Dragging from the text selects up to the column that the mouse is moved to;
/// it moves nothing on the screen.
pub proof fn law_drag_selects_to_its_column(
    app: NoteCalcApp,
    x: int,
    y: int,
    after: NoteCalcApp,
    commands: Seq<EditorCommandView>,
    row: int,
)
    requires
        app.drag_handled(x, y, after, commands),
        app.mouse_state == Some(MouseState::ClickedInEditor),
        row_of_line(app.render_data@.render_ys, row, y),
        LEFT_GUTTER_WIDTH <= x <= usize::MAX,
        app.render_data@.render_ys.len() <= usize::MAX,
    ensures
        commands == seq![
            EditorCommandView::Drag(
                Pos { row: row as usize, column: (x - LEFT_GUTTER_WIDTH) as usize },
            ),
            EditorCommandView::BlinkCursor,
        ],
        after.render_data@ == app.render_data@,
{
    lemma_line_at_row(app.render_data@.render_ys, row, y, 0);
}

/// Dragging the scroll bar by some rows scrolls by as many lines, not above the
/// first one. Where all lines are on the screen it does not scroll.
pub proof fn law_dragged_scroll_bar_scrolls_along(
    app: NoteCalcApp,
    x: int,
    y: int,
    after: NoteCalcApp,
    commands: Seq<EditorCommandView>,
)
    requires
        app.drag_handled(x, y, after, commands),
        0 <= y,
        app.mouse_state matches Some(
            MouseState::ClickedInScrollBar { original_click_y, original_scroll_y },
        ) && original_scroll_y + (y - original_click_y.0) <= usize::MAX,
    ensures
        commands.len() == 0,
        ({
            let clicked = app.mouse_state->0->original_click_y.0;
            let scrolled = app.mouse_state->0->original_scroll_y;
            if app.editor_content.lines@.len() <= app.render_data.client_height {
                after.render_data@.scroll_y == app.render_data.scroll_y
            } else if clicked <= y || clicked - y <= scrolled {
                after.render_data@.scroll_y - scrolled == y - clicked
            } else {
                after.render_data@.scroll_y == 0
            }
        }),
        after.render_data@.result_gutter_x == app.render_data.result_gutter_x,
{
}

/// Dragging the gutter before the results puts it under the mouse, as far as the
/// results keep their room. The text takes what is left of it, and everything
/// is drawn again.
pub proof fn law_dragged_gutter_follows_the_mouse(
    app: NoteCalcApp,
    x: int,
    y: int,
    after: NoteCalcApp,
    commands: Seq<EditorCommandView>,
)
    requires
        app.drag_handled(x, y, after, commands),
        app.mouse_state == Some(MouseState::RightGutterIsDragged),
        app.layout_wf(),
        LEFT_GUTTER_WIDTH <= x <= usize::MAX,
    ensures
        commands.len() == 0,
        ({
            let room = app.client_width - RIGHT_GUTTER_WIDTH - MIN_RESULT_PANEL_WIDTH;
            let gutter = after.render_data@.result_gutter_x;
            &&& x <= room ==> gutter == x
            &&& x > room ==> gutter == room
            &&& after.render_data@.current_editor_width == gutter - LEFT_GUTTER_WIDTH
            &&& after.render_data@.scroll_y == app.render_data.scroll_y
        }),
        forall|row: int|
            0 <= row < 64 ==> #[trigger] after.editor_area_redraw.has(row)
                && after.result_area_redraw.has(row),
{
    lemma_rows_are_had(after.editor_area_redraw);
    lemma_rows_are_had(after.result_area_redraw);
}

/// The gutter before the results is put where it is wanted, or as far right as
/// two columns for itself and thirty for the results are left; where none is
/// wanted, behind four columns for the line numbers, a text of 120 columns and
/// the scroll bar.
pub proof fn law_gutter_is_put_where_it_is_wanted(wanted: usize, client_width: int)
    ensures
        wanted + 32 <= client_width ==> result_gutter(Some(wanted), client_width) == wanted,
        wanted + 32 > client_width ==> result_gutter(Some(wanted), client_width) + 32
            == client_width,
        result_gutter(None, client_width) == result_gutter(Some(125), client_width),
{
}

/// The wheel scrolls by one line: up as long as lines are hidden above, down as
/// long as lines are hidden below. When it scrolls, everything is drawn again.
pub proof fn law_wheel_scrolls_by_one_line(app: NoteCalcApp, dir: int, after: NoteCalcApp)
    requires
        app.wheel_turned(dir, after),
        app.render_data.scroll_y < usize::MAX,
    ensures
        ({
            let scroll_y = app.render_data.scroll_y;
            let hidden_below = scroll_y + app.render_data.client_height
                < app.editor_content.lines@.len();
            &&& dir == 0 && scroll_y > 0 ==> after.render_data@.scroll_y == scroll_y - 1
            &&& dir == 1 && hidden_below ==> after.render_data@.scroll_y == scroll_y + 1
            &&& !(dir == 0 && scroll_y > 0) && !(dir == 1 && hidden_below) ==> after == app
            &&& after.render_data@.scroll_y != scroll_y ==> forall|row: int|
                0 <= row < 64 ==> #[trigger] after.editor_area_redraw.has(row)
                    && after.result_area_redraw.has(row)
            &&& after.render_data@.client_height == app.render_data.client_height
            &&& after.render_data@.result_gutter_x == app.render_data.result_gutter_x
        }),
{
    lemma_rows_are_had(after.editor_area_redraw);
    lemma_rows_are_had(after.result_area_redraw);
}

/// Once the mouse is released, moving it does nothing, whatever was dragged before;
/// the release itself moves nothing either.
pub proof fn law_released_mouse_drags_nothing(
    app: NoteCalcApp,
    released: NoteCalcApp,
    x: int,
    y: int,
    after: NoteCalcApp,
    commands: Seq<EditorCommandView>,
)
    requires
        app.mouse_released(released),
        released.drag_handled(x, y, after, commands),
    ensures
        commands.len() == 0,
        after.render_data@ == app.render_data@,
        after.editor == app.editor,
        after.editor_content == app.editor_content,
        after.matrix_editing == app.matrix_editing,
        after.editor_area_redraw == app.editor_area_redraw,
        after.result_area_redraw == app.result_area_redraw,
{
}

/// After a click the lines that were selected and the line of the cursor are
/// drawn again.
pub proof fn law_click_draws_old_and_new_line(
    app: NoteCalcApp,
    prev: Selection,
    after: NoteCalcApp,
    row: int,
)
    requires
        app.click_finished(prev, after),
    ensures
        ({
            let cursor = match app.editor.selection.end {
                Some(end) => end.row,
                None => app.editor.selection.start.row,
            };
            let other = match prev.end {
                Some(end) => end.row,
                None => prev.start.row,
            };
            let touched = row == cursor || prev.start.row <= row <= other || other <= row
                <= prev.start.row;
            &&& after.editor_area_redraw.has(row) == (app.editor_area_redraw.has(row) || touched)
            &&& after.result_area_redraw.has(row) == (app.result_area_redraw.has(row) || touched)
        }),
{
    lemma_rows_are_had(after.editor_area_redraw);
    lemma_rows_are_had(after.result_area_redraw);
    lemma_rows_are_had(app.editor_area_redraw);
    lemma_rows_are_had(app.result_area_redraw);
}

} // verus!
