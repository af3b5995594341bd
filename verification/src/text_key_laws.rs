use vstd::prelude::*;

use crate::app::{all_rows, NoteCalcApp};
use crate::coords::{Pos, Selection};
use crate::editor::{EditorCommandView, EditorInputEvent, InputModifiers, RowModificationType};
use crate::event_laws::{cursor_row, has_with, lemma_rows_are_had};
use crate::external::alphanumeric;
use crate::input::InputNext;
use crate::input_keys::{lemma_typed_keys, names_of, only_match, starts_with, word_start};
use crate::line_render::editing_view;
use crate::matrix_editing::matrix_cells;
use crate::objects::{first_object, law_first_object, EditorObject, EditorObjectType};
use crate::results::Variable;

verus! {

/// The place of the cursor: where the selection ends, or, without one, starts.
pub open spec fn cursor_of(selection: Selection) -> Pos {
    match selection.end {
        Some(end) => end,
        None => selection.start,
    }
}

/// No modifier key is held.
pub open spec fn plain_key() -> InputModifiers {
    InputModifiers { shift: false, ctrl: false, alt: false }
}

/// The character can stand in a name.
pub open spec fn in_names(ch: char) -> bool {
    alphanumeric(ch) || ch == '_'
}

/// The tabulator behind an `m` that stands alone puts a matrix with one cell,
/// which holds a zero, in its place, and the cursor into it: the line gets a
/// matrix of one row and one column there.
pub proof fn law_lonely_m_becomes_a_matrix(
    app: NoteCalcApp,
    modifiers: InputModifiers,
    vars: Seq<Variable>,
    objects: Seq<Seq<EditorObject>>,
    after: NoteCalcApp,
    objects_after: Seq<Seq<EditorObject>>,
    commands: Seq<EditorCommandView>,
    next: InputNext,
)
    requires
        app.text_key_handled(
            EditorInputEvent::Tab,
            modifiers,
            vars,
            objects,
            after,
            objects_after,
            commands,
            next,
        ),
        ({
            let at = cursor_of(app.editor.selection);
            let line = app.editor_content.lines@[at.row as int]@;
            &&& 1 <= at.column <= line.len()
            &&& at.column + 2 <= usize::MAX
            &&& at.row < objects.len()
            &&& line[at.column - 1] == 'm'
            &&& at.column == 1 || !in_names(line[at.column - 2])
        }),
    ensures
        ({
            let at = cursor_of(app.editor.selection);
            &&& commands.len() == 5
            &&& commands[0] == EditorCommandView::Input(EditorInputEvent::Backspace, plain_key())
            &&& commands[1] == EditorCommandView::Input(EditorInputEvent::Char('['), plain_key())
            &&& commands[2] == EditorCommandView::Input(EditorInputEvent::Char('0'), plain_key())
            &&& commands[3] == EditorCommandView::Input(EditorInputEvent::Char(']'), plain_key())
            &&& commands[4] == EditorCommandView::Select(Selection { start: at, end: None })
            &&& next == InputNext::StepIntoMatrix { row: at.row }
            &&& after == app
            &&& objects_after[at.row as int].len() == objects[at.row as int].len() + 1
            &&& ({
                let matrix = objects_after[at.row as int].last();
                &&& matrix.typ == EditorObjectType::Matrix { row_count: 1, col_count: 1 }
                &&& matrix.row.0 == at.row
                &&& matrix.start_x == at.column - 1
                &&& matrix.end_x == at.column + 2
            })
        }),
{
}

proof fn lemma_word_starts(line: Seq<char>, start: int, at: int)
    requires
        0 <= start < at <= line.len(),
        forall|i: int| start <= i < at - 1 ==> in_names(#[trigger] line[i]),
        start == 0 || !in_names(line[start - 1]),
    ensures
        word_start(line, at) == start,
    decreases at - start,
{
    if start < at - 1 {
        assert(in_names(line[at - 2]));
        lemma_word_starts(line, start, at - 1);
    }
}

/// The name starts with the word.
pub open spec fn begins_with(name: Seq<char>, word: Seq<char>) -> bool {
    &&& word.len() <= name.len()
    &&& forall|k: int| 0 <= k < word.len() ==> (#[trigger] name[k]) == word[k]
}

proof fn lemma_begins_with(name: Seq<char>, word: Seq<char>)
    ensures
        begins_with(name, word) == starts_with(name, word),
{
    if begins_with(name, word) {
        assert(name.take(word.len() as int) =~= word);
    }
    if starts_with(name, word) {
        assert forall|k: int| 0 <= k < word.len() implies (#[trigger] name[k]) == word[k] by {
            assert(name.take(word.len() as int)[k] == name[k]);
        }
    }
}

proof fn lemma_only_match_found(
    names: Seq<(Seq<char>, int)>,
    word: Seq<char>,
    row: int,
    from: int,
    n: int,
    i: int,
)
    requires
        0 <= from <= n <= names.len(),
        0 <= i < n,
        forall|j: int| 0 <= j < n ==> (#[trigger] names[j]).1 < row,
        n < names.len() ==> names[n].1 >= row,
        begins_with(names[i].0, word),
        forall|j: int| 0 <= j < n && j != i ==> !begins_with((#[trigger] names[j]).0, word),
    ensures
        only_match(
            names,
            word,
            row,
            from,
            if i < from {
                Some(i)
            } else {
                None
            },
        ) == Some(i),
    decreases n - from,
{
    if from < n {
        lemma_begins_with(names[from].0, word);
        lemma_only_match_found(names, word, row, from + 1, n, i);
    }
}

proof fn lemma_no_match(
    names: Seq<(Seq<char>, int)>,
    word: Seq<char>,
    row: int,
    from: int,
    n: int,
)
    requires
        0 <= from <= n <= names.len(),
        forall|j: int| 0 <= j < n ==> (#[trigger] names[j]).1 < row,
        n < names.len() ==> names[n].1 >= row,
        forall|j: int| 0 <= j < n ==> !begins_with((#[trigger] names[j]).0, word),
    ensures
        only_match(names, word, row, from, None) is None,
    decreases n - from,
{
    if from < n {
        lemma_begins_with(names[from].0, word);
        lemma_no_match(names, word, row, from + 1, n);
    }
}

proof fn lemma_two_matches(
    names: Seq<(Seq<char>, int)>,
    word: Seq<char>,
    row: int,
    from: int,
    n: int,
    i: int,
    j: int,
    matched: Option<int>,
)
    requires
        0 <= from <= n <= names.len(),
        0 <= i < j < n,
        from <= j,
        matched is Some == (i < from || (exists|k: int|
            0 <= k < from && begins_with((#[trigger] names[k]).0, word))),
        forall|k: int| 0 <= k < n ==> (#[trigger] names[k]).1 < row,
        begins_with(names[i].0, word),
        begins_with(names[j].0, word),
    ensures
        only_match(names, word, row, from, matched) is None,
    decreases n - from,
{
    lemma_begins_with(names[from].0, word);
    if begins_with(names[from].0, word) {
        if matched is None {
            assert(begins_with(names[from].0, word));
            lemma_two_matches(names, word, row, from + 1, n, i, j, Some(from));
        }
    } else {
        assert(from != i && from != j);
        assert((exists|k: int| 0 <= k < from + 1 && begins_with((#[trigger] names[k]).0, word))
            ==> (exists|k: int| 0 <= k < from && begins_with((#[trigger] names[k]).0, word)));
        lemma_two_matches(names, word, row, from + 1, n, i, j, matched);
    }
}

/// The tabulator behind a word types the rest of the one name that starts with
/// it, among the variables that are defined above the line, so that word and
/// typed keys are the name.
pub proof fn law_word_is_completed_to_the_only_name(
    app: NoteCalcApp,
    modifiers: InputModifiers,
    vars: Seq<Variable>,
    objects: Seq<Seq<EditorObject>>,
    after: NoteCalcApp,
    objects_after: Seq<Seq<EditorObject>>,
    commands: Seq<EditorCommandView>,
    next: InputNext,
    start: int,
    n: int,
    i: int,
)
    requires
        app.text_key_handled(
            EditorInputEvent::Tab,
            modifiers,
            vars,
            objects,
            after,
            objects_after,
            commands,
            next,
        ),
        ({
            let at = cursor_of(app.editor.selection);
            let line = app.editor_content.lines@[at.row as int]@;
            let word = line.subrange(start, at.column as int);
            &&& 0 <= start < at.column <= line.len()
            &&& forall|k: int| start <= k < at.column - 1 ==> in_names(#[trigger] line[k])
            &&& start == 0 || !in_names(line[start - 1])
            &&& word != seq!['m']
            &&& 0 <= i < n <= vars.len()
            &&& forall|j: int| 0 <= j < n ==> (#[trigger] vars[j]).defined_at_row < at.row
            &&& n < vars.len() ==> vars[n].defined_at_row >= at.row
            &&& begins_with(vars[i].name@, word)
            &&& forall|j: int|
                0 <= j < n && j != i ==> !begins_with((#[trigger] vars[j]).name@, word)
        }),
    ensures
        ({
            let at = cursor_of(app.editor.selection);
            let name = vars[i].name@;
            let word_len = at.column - start;
            &&& commands.len() == name.len() - word_len
            &&& forall|k: int|
                0 <= k < commands.len() ==> (#[trigger] commands[k]) == EditorCommandView::Input(
                    EditorInputEvent::Char(name[word_len + k]),
                    plain_key(),
                )
            &&& next == InputNext::Done(Some(RowModificationType::SingleLine(at.row)))
            &&& after == app
            &&& objects_after == objects
        }),
{
    let at = cursor_of(app.editor.selection);
    let line = app.editor_content.lines@[at.row as int]@;
    let word = line.subrange(start, at.column as int);
    lemma_word_starts(line, start, at.column as int);
    if line[at.column - 1] == 'm' && (at.column == 1 || !in_names(line[at.column - 2])) {
        assert(start == at.column - 1) by {
            if start < at.column - 1 {
                assert(in_names(line[at.column - 2]));
            }
        }
        assert(word =~= seq!['m']);
    }
    let names = names_of(vars);
    assert forall|j: int| 0 <= j < n implies (#[trigger] names[j]).1 < at.row by {
        assert(vars[j].defined_at_row < at.row);
    }
    assert forall|j: int| 0 <= j < n && j != i implies !begins_with(
        (#[trigger] names[j]).0,
        word,
    ) by {
        assert(!begins_with(vars[j].name@, word));
    }
    lemma_only_match_found(names, word, at.row as int, 0, n, i);
    lemma_typed_keys(vars[i].name@.skip(word.len() as int));
}

/// Where no name above the line starts with the word, or several do, the
/// tabulator completes nothing: the editor takes the key.
pub proof fn law_ambiguous_word_is_not_completed(
    app: NoteCalcApp,
    modifiers: InputModifiers,
    vars: Seq<Variable>,
    objects: Seq<Seq<EditorObject>>,
    after: NoteCalcApp,
    objects_after: Seq<Seq<EditorObject>>,
    commands: Seq<EditorCommandView>,
    next: InputNext,
    start: int,
    n: int,
)
    requires
        app.text_key_handled(
            EditorInputEvent::Tab,
            modifiers,
            vars,
            objects,
            after,
            objects_after,
            commands,
            next,
        ),
        ({
            let at = cursor_of(app.editor.selection);
            let line = app.editor_content.lines@[at.row as int]@;
            let word = line.subrange(start, at.column as int);
            &&& 0 <= start < at.column <= line.len()
            &&& forall|k: int| start <= k < at.column - 1 ==> in_names(#[trigger] line[k])
            &&& start == 0 || !in_names(line[start - 1])
            &&& word != seq!['m']
            &&& 0 <= n <= vars.len()
            &&& forall|j: int| 0 <= j < n ==> (#[trigger] vars[j]).defined_at_row < at.row
            &&& n < vars.len() ==> vars[n].defined_at_row >= at.row
            &&& {
                ||| forall|j: int| 0 <= j < n ==> !begins_with((#[trigger] vars[j]).name@, word)
                ||| exists|i: int, j: int|
                    0 <= i < j < n && begins_with((#[trigger] vars[i]).name@, word) && begins_with(
                        (#[trigger] vars[j]).name@,
                        word,
                    )
            }
        }),
    ensures
        commands == seq![EditorCommandView::Input(EditorInputEvent::Tab, modifiers)],
        next == (InputNext::Navigated { prev_selection: app.editor.selection }),
        after == app,
        objects_after == objects,
{
    let at = cursor_of(app.editor.selection);
    let line = app.editor_content.lines@[at.row as int]@;
    let word = line.subrange(start, at.column as int);
    lemma_word_starts(line, start, at.column as int);
    if line[at.column - 1] == 'm' && (at.column == 1 || !in_names(line[at.column - 2])) {
        assert(start == at.column - 1) by {
            if start < at.column - 1 {
                assert(in_names(line[at.column - 2]));
            }
        }
        assert(word =~= seq!['m']);
    }
    let names = names_of(vars);
    assert forall|j: int| 0 <= j < n implies (#[trigger] names[j]).1 < at.row by {
        assert(vars[j].defined_at_row < at.row);
    }
    if forall|j: int| 0 <= j < n ==> !begins_with((#[trigger] vars[j]).name@, word) {
        assert forall|j: int| 0 <= j < n implies !begins_with((#[trigger] names[j]).0, word) by {
            assert(!begins_with(vars[j].name@, word));
        }
        lemma_no_match(names, word, at.row as int, 0, n);
    } else {
        let (i, j) = choose|i: int, j: int|
            0 <= i < j < n && begins_with((#[trigger] vars[i]).name@, word) && begins_with(
                (#[trigger] vars[j]).name@,
                word,
            );
        assert(names[i].0 == vars[i].name@);
        assert(names[j].0 == vars[j].name@);
        lemma_two_matches(names, word, at.row as int, 0, n, i, j, None);
    }
}

/// The column belongs to the text of the object.
pub open spec fn holds_column(object: EditorObject, column: int) -> bool {
    object.start_x <= column < object.end_x
}

/// Without a selection, backspace behind or within a matrix or a reference, and
/// delete before or within it, delete it as a whole: its text is selected and
/// the key pressed. It is no longer an object of the line. A tall one moves the
/// lines below.
pub proof fn law_matrices_and_references_are_deleted_as_a_whole(
    app: NoteCalcApp,
    input: EditorInputEvent,
    modifiers: InputModifiers,
    vars: Seq<Variable>,
    objects: Seq<Seq<EditorObject>>,
    after: NoteCalcApp,
    objects_after: Seq<Seq<EditorObject>>,
    commands: Seq<EditorCommandView>,
    next: InputNext,
    i: int,
)
    requires
        app.text_key_handled(
            input,
            modifiers,
            vars,
            objects,
            after,
            objects_after,
            commands,
            next,
        ),
        input == EditorInputEvent::Backspace || input == EditorInputEvent::Del,
        app.editor.selection.end is None,
        ({
            let at = app.editor.selection.start;
            let column = if input == EditorInputEvent::Backspace {
                at.column - 1
            } else {
                at.column as int
            };
            let line_objects = objects[at.row as int];
            &&& at.row < objects.len()
            &&& 0 <= i < line_objects.len()
            &&& column >= 0
            &&& line_objects[i].typ != EditorObjectType::SimpleTokens
            &&& holds_column(line_objects[i], column)
            &&& forall|j: int|
                0 <= j < i && (#[trigger] line_objects[j]).typ != EditorObjectType::SimpleTokens
                    ==> !holds_column(line_objects[j], column)
        }),
    ensures
        ({
            let row = app.editor.selection.start.row;
            let object = objects[row as int][i];
            &&& commands.len() == 2
            &&& commands[0] == EditorCommandView::Select(
                Selection {
                    start: Pos { row: object.row.0, column: object.start_x },
                    end: Some(Pos { row: object.row.0, column: object.end_x }),
                },
            )
            &&& commands[1] == EditorCommandView::Input(input, plain_key())
            &&& objects_after[row as int] == objects[row as int].remove(i)
            &&& next == InputNext::Done(
                Some(
                    if object.rendered_h > 1 {
                        RowModificationType::AllLinesFrom(row)
                    } else {
                        RowModificationType::SingleLine(row)
                    },
                ),
            )
            &&& after == app
        }),
{
    let at = app.editor.selection.start;
    let column = if input == EditorInputEvent::Backspace {
        at.column - 1
    } else {
        at.column as int
    };
    let line_objects = objects[at.row as int];
    let wanted = |o: EditorObject| o.is_matrix_or_lineref() && o.covers(column);
    law_first_object(line_objects, wanted, 0);
    assert(wanted(line_objects[i]));
    let found_at = first_object(line_objects, wanted, 0)->Some_0;
    assert(found_at == i) by {
        if found_at < i {
            assert(line_objects[found_at].typ != EditorObjectType::SimpleTokens);
        }
    }
}

/// Backspace and delete next to plain text, or with a selection, are for the
/// editor.
pub proof fn law_plain_text_is_deleted_by_the_editor(
    app: NoteCalcApp,
    input: EditorInputEvent,
    modifiers: InputModifiers,
    vars: Seq<Variable>,
    objects: Seq<Seq<EditorObject>>,
    after: NoteCalcApp,
    objects_after: Seq<Seq<EditorObject>>,
    commands: Seq<EditorCommandView>,
    next: InputNext,
)
    requires
        app.text_key_handled(
            input,
            modifiers,
            vars,
            objects,
            after,
            objects_after,
            commands,
            next,
        ),
        input == EditorInputEvent::Backspace || input == EditorInputEvent::Del,
        app.editor.selection.end is Some || ({
            let at = app.editor.selection.start;
            let column = if input == EditorInputEvent::Backspace {
                at.column - 1
            } else {
                at.column as int
            };
            forall|j: int|
                0 <= j < objects[at.row as int].len() && (
                #[trigger] objects[at.row as int][j]).typ != EditorObjectType::SimpleTokens
                    ==> !holds_column(objects[at.row as int][j], column)
        }),
    ensures
        commands == seq![EditorCommandView::Input(input, modifiers)],
        next == (InputNext::Navigated { prev_selection: app.editor.selection }),
        after == app,
        objects_after == objects,
{
    let at = app.editor.selection.start;
    let column = if input == EditorInputEvent::Backspace {
        at.column - 1
    } else {
        at.column as int
    };
    let line_objects = objects[at.row as int];
    let wanted = |o: EditorObject| o.is_matrix_or_lineref() && o.covers(column);
    law_first_object(line_objects, wanted, 0);
}

/// Without a selection and without shift, left behind or within a reference
/// goes before it, and right before or within it goes behind it. Matrices and
/// plain text are not jumped over: the editor takes the key.
pub proof fn law_only_references_are_jumped_over(
    app: NoteCalcApp,
    input: EditorInputEvent,
    modifiers: InputModifiers,
    vars: Seq<Variable>,
    objects: Seq<Seq<EditorObject>>,
    after: NoteCalcApp,
    objects_after: Seq<Seq<EditorObject>>,
    commands: Seq<EditorCommandView>,
    next: InputNext,
    i: int,
)
    requires
        app.text_key_handled(
            input,
            modifiers,
            vars,
            objects,
            after,
            objects_after,
            commands,
            next,
        ),
        input == EditorInputEvent::Left || input == EditorInputEvent::Right,
        ({
            let at = app.editor.selection.start;
            let column = if input == EditorInputEvent::Left {
                at.column - 1
            } else {
                at.column as int
            };
            let line_objects = objects[at.row as int];
            &&& at.row < objects.len()
            &&& column >= 0
            &&& 0 <= i < line_objects.len()
            &&& holds_column(line_objects[i], column)
            &&& forall|j: int| 0 <= j < i ==> !holds_column(#[trigger] line_objects[j], column)
        }),
    ensures
        ({
            let row = app.editor.selection.start.row;
            let object = objects[row as int][i];
            let jumps = object.typ == EditorObjectType::LineReference && !modifiers.shift
                && app.editor.selection.end is None;
            &&& objects_after == objects
            &&& jumps ==> {
                &&& commands == seq![
                    EditorCommandView::SetCursor(
                        Pos {
                            row: object.row.0,
                            column: if input == EditorInputEvent::Left {
                                object.start_x
                            } else {
                                object.end_x
                            },
                        },
                    ),
                ]
                &&& next == InputNext::Done(None)
                &&& has_with(
                    after.editor_area_redraw,
                    app.editor_area_redraw,
                    row as int,
                    row as int,
                )
                &&& forall|other: int| #[trigger]
                    after.result_area_redraw.has(other) == app.result_area_redraw.has(other)
            }
            &&& !jumps ==> {
                &&& commands == seq![EditorCommandView::Input(input, modifiers)]
                &&& next == InputNext::Navigated { prev_selection: app.editor.selection }
                &&& after == app
            }
        }),
{
    let at = app.editor.selection.start;
    let column = if input == EditorInputEvent::Left {
        at.column - 1
    } else {
        at.column as int
    };
    let line_objects = objects[at.row as int];
    let wanted = |o: EditorObject| o.covers(column);
    law_first_object(line_objects, wanted, 0);
    assert(wanted(line_objects[i]));
    let found_at = first_object(line_objects, wanted, 0)->Some_0;
    assert(found_at == i) by {
        if found_at < i {
            assert(!holds_column(line_objects[found_at], column));
        }
    }
    lemma_rows_are_had(after.editor_area_redraw);
    lemma_rows_are_had(after.result_area_redraw);
    lemma_rows_are_had(app.editor_area_redraw);
    lemma_rows_are_had(app.result_area_redraw);
}

/// All other keys are for the editor of the text: characters and the keys that
/// neither complete, nor delete, nor go sideways.
pub proof fn law_other_keys_are_for_the_editor(
    app: NoteCalcApp,
    input: EditorInputEvent,
    modifiers: InputModifiers,
    vars: Seq<Variable>,
    objects: Seq<Seq<EditorObject>>,
    after: NoteCalcApp,
    objects_after: Seq<Seq<EditorObject>>,
    commands: Seq<EditorCommandView>,
    next: InputNext,
)
    requires
        app.text_key_handled(
            input,
            modifiers,
            vars,
            objects,
            after,
            objects_after,
            commands,
            next,
        ),
        input != EditorInputEvent::Tab || cursor_of(app.editor.selection).column == 0,
        input != EditorInputEvent::Backspace,
        input != EditorInputEvent::Del,
        input != EditorInputEvent::Left || cursor_of(app.editor.selection).column == 0,
        input != EditorInputEvent::Right,
    ensures
        commands == seq![EditorCommandView::Input(input, modifiers)],
        next == (InputNext::Navigated { prev_selection: app.editor.selection }),
        after == app,
        objects_after == objects,
{
}

/// When all is done already, nothing more happens, and what was edited is told.
/// After a matrix was completed, its line has to be updated. After the editor
/// took a key, what the editor edited is told.
pub proof fn law_what_was_edited_is_told(
    app: NoteCalcApp,
    next: InputNext,
    modif: Option<RowModificationType>,
    objects: Seq<Seq<EditorObject>>,
    after: NoteCalcApp,
    answer: Option<RowModificationType>,
)
    requires
        app.input_finished(next, modif, objects, after, answer),
    ensures
        match next {
            InputNext::Done(effect) => answer == effect && after == app,
            InputNext::StepIntoMatrix { row } => answer == Some(
                RowModificationType::SingleLine(row),
            ),
            InputNext::Navigated { .. } => answer == modif,
        },
        after.editor == app.editor,
        after.editor_content == app.editor_content,
        after.line_reference_chooser == app.line_reference_chooser,
{
}

/// A cursor that has come to stand inside the text of a matrix starts its
/// editing: its cells are read from its text, and the current one is that which
/// the cursor comes to first. Elsewhere, with a selection, or after an edit,
/// nothing is opened.
pub proof fn law_stepping_into_a_matrix_edits_it(
    app: NoteCalcApp,
    prev: Selection,
    modif: Option<RowModificationType>,
    objects: Seq<Seq<EditorObject>>,
    after: NoteCalcApp,
    answer: Option<RowModificationType>,
    i: int,
)
    requires
        app.input_finished(
            InputNext::Navigated { prev_selection: prev },
            modif,
            objects,
            after,
            answer,
        ),
        app.matrix_editing is None,
        app.editor.selection.end is None,
        ({
            let at = app.editor.selection.start;
            let line_objects = objects[at.row as int];
            &&& 0 <= i < line_objects.len()
            &&& line_objects[i].start_x < at.column < line_objects[i].end_x
            &&& forall|j: int|
                0 <= j < i ==> !((#[trigger] line_objects[j]).start_x < at.column
                    < line_objects[j].end_x)
        }),
    ensures
        ({
            let object = objects[app.editor.selection.start.row as int][i];
            let opened = editing_view(after.matrix_editing);
            &&& modif is Some || !(object.typ is Matrix) ==> opened is None
            &&& modif is None && object.typ is Matrix ==> {
                &&& opened is Some
                &&& opened->0.row_count == object.typ->row_count
                &&& opened->0.col_count == object.typ->col_count
                &&& opened->0.row_index == object.row
                &&& opened->0.start_text_index == object.start_x
                &&& opened->0.end_text_index == object.end_x
                &&& opened->0.cells == matrix_cells(
                    app.editor_content.lines@[object.row.0 as int]@.subrange(
                        object.start_x as int,
                        object.end_x as int,
                    ),
                )
                &&& object.typ->row_count >= 1 && object.typ->col_count >= 1 ==> {
                    let from = match prev.end {
                        Some(end) => end,
                        None => prev.start,
                    };
                    let cell = opened->0.current_cell;
                    &&& from.row == object.row.0 && from.column > object.start_x ==> cell.row == 0
                        && cell.column == object.typ->col_count - 1
                    &&& from.row == object.row.0 && from.column <= object.start_x ==> cell.row == 0
                        && cell.column == 0
                    &&& from.row < object.row.0 ==> cell.row == 0 && cell.column == 0
                    &&& from.row > object.row.0 ==> cell.row == object.typ->row_count - 1
                        && cell.column == 0
                }
            }
        }),
{
    let at = app.editor.selection.start;
    let line_objects = objects[at.row as int];
    let wanted = |o: EditorObject| o.holds_inside(at.column as int);
    law_first_object(line_objects, wanted, 0);
    assert(wanted(line_objects[i]));
    let found_at = first_object(line_objects, wanted, 0)->Some_0;
    assert(found_at == i) by {
        if found_at < i {
            assert(!(line_objects[found_at].start_x < at.column < line_objects[found_at].end_x));
        }
    }
}

/// A cursor that moved to a line on the screen, or stayed in its line, does not
/// scroll. A line above the screen becomes its first one; a line below it
/// becomes its last one, as far as that scrolls by less than a screen.
pub proof fn law_screen_follows_the_cursor(
    app: NoteCalcApp,
    prev: Selection,
    modif: Option<RowModificationType>,
    objects: Seq<Seq<EditorObject>>,
    after: NoteCalcApp,
    answer: Option<RowModificationType>,
)
    requires
        app.input_finished(
            InputNext::Navigated { prev_selection: prev },
            modif,
            objects,
            after,
            answer,
        ),
        app.render_data.client_height >= 1,
    ensures
        ({
            let row = cursor_row(app);
            let top = app.render_data.scroll_y;
            let height = app.render_data.client_height;
            let scrolled = after.render_data@.scroll_y;
            let moved = row != cursor_of(prev).row;
            &&& !moved || top <= row < top + height ==> scrolled == top
            &&& moved && row < top ==> scrolled == row
            &&& moved && row >= top + height && row <= 2 * (height - 1) ==> scrolled + height - 1
                == row
            &&& moved && row >= top + height && row > 2 * (height - 1) ==> scrolled == height - 1
            &&& after.render_data@.client_height == height
            &&& scrolled != top ==> forall|line: int|
                0 <= line < 64 ==> #[trigger] after.editor_area_redraw.has(line)
                    && after.result_area_redraw.has(line)
        }),
{
    lemma_rows_are_had(after.editor_area_redraw);
    lemma_rows_are_had(after.result_area_redraw);
    assert(app.scrolls_after_move(prev.cursor().row as int) ==> app.redraw_after_key(
        prev,
        modif,
    ) == Some(all_rows()));
}

/// A cursor that moves without editing or scrolling draws the lines again that
/// it left and came to, and all between them; from a selection, and to one, also
/// all its lines. A cursor that did not move draws nothing.
pub proof fn law_moved_cursor_draws_its_lines(
    app: NoteCalcApp,
    prev: Selection,
    objects: Seq<Seq<EditorObject>>,
    after: NoteCalcApp,
    answer: Option<RowModificationType>,
)
    requires
        app.input_finished(
            InputNext::Navigated { prev_selection: prev },
            None,
            objects,
            after,
            answer,
        ),
        ({
            let row = cursor_row(app);
            row == cursor_of(prev).row || app.render_data.scroll_y <= row
                < app.render_data.scroll_y + app.render_data.client_height
        }),
    ensures
        ({
            let row = cursor_row(app);
            let left = cursor_of(prev).row as int;
            let selected_to = app.editor.selection.start.row as int;
            let selected_from = prev.start.row as int;
            &&& prev.end is None && app.editor.selection.end is None && (left != row || cursor_of(
                prev,
            ).column != cursor_of(app.editor.selection).column) ==> has_with(
                after.editor_area_redraw,
                app.editor_area_redraw,
                if left < row {
                    left
                } else {
                    row
                },
                if left < row {
                    row
                } else {
                    left
                },
            )
            &&& prev.end is None && app.editor.selection.end is None && cursor_of(prev)
                == cursor_of(app.editor.selection) ==> after.editor_area_redraw
                == app.editor_area_redraw
            &&& prev.end is None && app.editor.selection.end is Some ==> has_with(
                after.editor_area_redraw,
                app.editor_area_redraw,
                if selected_to < row {
                    selected_to
                } else {
                    row
                },
                if selected_to < row {
                    row
                } else {
                    selected_to
                },
            )
            &&& prev.end is Some ==> forall|line: int| #[trigger]
                after.editor_area_redraw.has(line) == (app.editor_area_redraw.has(line) || (
                line >= left || line >= selected_from || line >= row) && (line <= left || line
                    <= selected_from || line <= row))
        }),
{
    lemma_rows_are_had(after.editor_area_redraw);
    lemma_rows_are_had(app.editor_area_redraw);
}

} // verus!
