use vstd::prelude::*;
use vstd::slice::slice_subrange;

use crate::app::NoteCalcApp;
use crate::coords::{EditorY, Pos, RenderPosY, Selection};
use crate::editor::{
    commands_view, EditorCommand, EditorCommandView, EditorInputEvent, InputModifiers,
    RowModificationType,
};
use crate::external::{alphanumeric, is_alphanumeric};
use crate::line_render::editing_view;
use crate::matrix_editing::{
    matrix_can_be_opened, opened_matrix, MatrixEditing, MatrixEditingView,
};
use crate::objects::{
    deref_found, first_object, found, law_first_object, matrix_or_lineref_at, object_around,
    object_at, EditorObject, EditorObjectType, EditorObjects,
};
use crate::results::Variable;
use crate::row_flags::MAX_LINE_COUNT;

verus! {

/// No modifier key is held.
pub open spec fn no_modifiers() -> InputModifiers {
    InputModifiers { shift: false, ctrl: false, alt: false }
}

pub open spec fn is_word_char(ch: char) -> bool {
    alphanumeric(ch) || ch == '_'
}

fn is_word_character(ch: char) -> (r: bool)
    ensures
        r == is_word_char(ch),
{
    is_alphanumeric(ch) || ch == '_'
}

/// Where the word starts whose last character stands before `at`. That
/// character belongs to it whatever it is.
pub open spec fn word_start(line: Seq<char>, at: int) -> int
    decreases at,
{
    if at > 1 && is_word_char(line[at - 2]) {
        word_start(line, at - 1)
    } else {
        at - 1
    }
}

pub open spec fn starts_with(text: Seq<char>, prefix: Seq<char>) -> bool {
    prefix.len() <= text.len() && text.take(prefix.len() as int) == prefix
}

/// The variable that a word can only mean, looked for from number `from` on
/// among those that are defined above the line: the only one whose name starts
/// with the word. `matched` is the one found before, if any.
pub open spec fn only_match(
    names: Seq<(Seq<char>, int)>,
    word: Seq<char>,
    row: int,
    from: int,
    matched: Option<int>,
) -> Option<int>
    decreases names.len() - from,
{
    if from < 0 || from >= names.len() || names[from].1 >= row {
        matched
    } else if starts_with(names[from].0, word) {
        if matched is Some {
            None
        } else {
            only_match(names, word, row, from + 1, Some(from))
        }
    } else {
        only_match(names, word, row, from + 1, matched)
    }
}

/// The names that are considered: those up to the first that is not defined
/// above the line.
pub open spec fn names_above(names: Seq<(Seq<char>, int)>, row: int, from: int) -> int
    decreases names.len() - from,
{
    if from < 0 || from >= names.len() || names[from].1 >= row {
        from
    } else {
        names_above(names, row, from + 1)
    }
}

proof fn lemma_only_match_from(
    names: Seq<(Seq<char>, int)>,
    word: Seq<char>,
    row: int,
    from: int,
    matched: Option<int>,
)
    requires
        0 <= from <= names.len(),
        matched matches Some(i) ==> 0 <= i < from,
    ensures
        ({
            let above = names_above(names, row, from);
            &&& from <= above <= names.len()
            &&& match only_match(names, word, row, from, matched) {
                Some(i) => {
                    &&& matched == Some(i) || matched is None && from <= i < above
                        && starts_with(names[i].0, word)
                    &&& forall|j: int|
                        from <= j < above && j != i ==> !starts_with(
                            (#[trigger] names[j]).0,
                            word,
                        )
                },
                None => {
                    ||| matched is None && forall|j: int|
                        from <= j < above ==> !starts_with((#[trigger] names[j]).0, word)
                    ||| matched is Some && exists|j: int|
                        from <= j < above && starts_with((#[trigger] names[j]).0, word)
                    ||| exists|j: int, k: int|
                        from <= j < k < above && starts_with((#[trigger] names[j]).0, word)
                            && starts_with((#[trigger] names[k]).0, word)
                },
            }
        }),
    decreases names.len() - from,
{
    if from < names.len() && names[from].1 < row {
        if starts_with(names[from].0, word) {
            if matched is None {
                lemma_only_match_from(names, word, row, from + 1, Some(from));
            } else {
                lemma_only_match_from(names, word, row, from + 1, matched);
            }
        } else {
            lemma_only_match_from(names, word, row, from + 1, matched);
        }
    }
}

/// A word is completed to a name only where no other name above the line starts
/// with it; it is left alone where none does, or several do.
pub proof fn law_completion_is_unambiguous(
    names: Seq<(Seq<char>, int)>,
    word: Seq<char>,
    row: int,
)
    ensures
        ({
            let above = names_above(names, row, 0);
            match only_match(names, word, row, 0, None) {
                Some(i) => {
                    &&& 0 <= i < above
                    &&& starts_with(names[i].0, word)
                    &&& forall|j: int|
                        0 <= j < above && j != i ==> !starts_with((#[trigger] names[j]).0, word)
                },
                None => {
                    ||| forall|j: int|
                        0 <= j < above ==> !starts_with((#[trigger] names[j]).0, word)
                    ||| exists|j: int, k: int|
                        0 <= j < k < above && starts_with((#[trigger] names[j]).0, word)
                            && starts_with((#[trigger] names[k]).0, word)
                },
            }
        }),
{
    lemma_only_match_from(names, word, row, 0, None);
}

/// Completing a word gives the whole name.
pub proof fn law_completed_word_is_the_name(name: Seq<char>, word: Seq<char>)
    requires
        starts_with(name, word),
    ensures
        word + name.skip(word.len() as int) == name,
{
}

/// The names of the variables and the lines that define them.
pub open spec fn names_of(vars: Seq<Variable>) -> Seq<(Seq<char>, int)> {
    Seq::new(vars.len(), |i: int| (vars[i].name@, vars[i].defined_at_row as int))
}

/// The keys that type a text.
pub open spec fn typed(text: Seq<char>) -> Seq<EditorCommandView>
    decreases text.len(),
{
    if text.len() == 0 {
        Seq::empty()
    } else {
        typed(text.drop_last()).push(
            EditorCommandView::Input(EditorInputEvent::Char(text.last()), no_modifiers()),
        )
    }
}

pub(crate) proof fn lemma_typed_keys(text: Seq<char>)
    ensures
        typed(text).len() == text.len(),
        forall|k: int|
            0 <= k < text.len() ==> (#[trigger] typed(text)[k]) == EditorCommandView::Input(
                EditorInputEvent::Char(text[k]),
                InputModifiers { shift: false, ctrl: false, alt: false },
            ),
    decreases text.len(),
{
    if text.len() > 0 {
        lemma_typed_keys(text.drop_last());
        lemma_one_more_key(typed(text.drop_last()), text.last());
    }
}

proof fn lemma_one_more_key(keys: Seq<EditorCommandView>, ch: char)
    ensures
        ({
            let more = keys.push(
                EditorCommandView::Input(EditorInputEvent::Char(ch), no_modifiers()),
            );
            &&& more.len() == keys.len() + 1
            &&& more.last() == EditorCommandView::Input(
                EditorInputEvent::Char(ch),
                no_modifiers(),
            )
            &&& more.drop_last() == keys
            &&& forall|k: int| 0 <= k < keys.len() ==> (#[trigger] more[k]) == keys[k]
        }),
{
}

/// What is completed before the cursor.
pub enum Completion {
    /// An `m` that stands for a matrix.
    Matrix,
    /// The rest of a variable's name.
    Word(Seq<char>),
}

/// The keys that put a matrix with one cell in place of the character before
/// the cursor, and the cursor into it.
pub open spec fn matrix_typed(cursor: Pos) -> Seq<EditorCommandView> {
    seq![
        EditorCommandView::Input(EditorInputEvent::Backspace, no_modifiers()),
        EditorCommandView::Input(EditorInputEvent::Char('['), no_modifiers()),
        EditorCommandView::Input(EditorInputEvent::Char('0'), no_modifiers()),
        EditorCommandView::Input(EditorInputEvent::Char(']'), no_modifiers()),
        EditorCommandView::Select(Selection { start: cursor, end: None }),
    ]
}

/// The matrix with one cell that stands around the cursor after it was typed.
pub open spec fn typed_matrix(cursor: Pos) -> EditorObject {
    EditorObject {
        typ: EditorObjectType::Matrix { row_count: 1, col_count: 1 },
        row: EditorY(cursor.row),
        start_x: (cursor.column - 1) as usize,
        end_x: (cursor.column + 2) as usize,
        rendered_x: 0,
        rendered_y: RenderPosY(0),
        rendered_w: 3,
        rendered_h: 1,
    }
}

/// The key that types a character.
fn type_char(ch: char) -> (r: EditorCommand)
    ensures
        r@ == EditorCommandView::Input(EditorInputEvent::Char(ch), no_modifiers()),
{
    EditorCommand::Input(EditorInputEvent::Char(ch), InputModifiers::none())
}

/// The keys that type a name from a place on.
fn type_rest(name: &Vec<char>, from: usize) -> (r: Vec<EditorCommand>)
    requires
        from <= name@.len(),
    ensures
        commands_view(r@) == typed(name@.skip(from as int)),
{
    let ghost rest = name@.skip(from as int);
    let mut commands: Vec<EditorCommand> = Vec::new();
    let mut i: usize = from;
    while i < name.len()
        invariant
            from <= i <= name@.len(),
            rest == name@.skip(from as int),
            commands_view(commands@) == typed(rest.take(i - from)),
        decreases name@.len() - i,
    {
        let command = type_char(name[i]);
        commands.push(command);
        proof {
            let k = i - from;
            assert(rest.take(k + 1).drop_last() =~= rest.take(k));
        }
        i += 1;
    }
    assert(rest.take(i - from) =~= rest);
    commands
}

impl NoteCalcApp {
    pub open spec fn cursor(self) -> Pos {
        self.editor.selection.cursor()
    }

    pub open spec fn cursor_line(self) -> Seq<char> {
        self.editor_content.lines@[self.cursor().row as int]@
    }

    /// The cursor stands in the text.
    pub open spec fn cursor_in_text(self) -> bool {
        &&& self.cursor().row < self.editor_content.lines@.len()
        &&& self.cursor().row < MAX_LINE_COUNT
        &&& self.cursor().column <= self.cursor_line().len()
    }

    /// An `m` stands before the cursor as a word of its own.
    pub open spec fn is_matrix_shorthand(self) -> bool {
        let line = self.cursor_line();
        let column = self.cursor().column as int;
        &&& line[column - 1] == 'm'
        &&& column == 1 || !is_word_char(line[column - 2])
    }

    /// The word before the cursor.
    pub open spec fn word_before_cursor(self) -> Seq<char> {
        let column = self.cursor().column as int;
        self.cursor_line().subrange(word_start(self.cursor_line(), column), column)
    }

    /// What the tabulator completes, if anything.
    pub open spec fn completion(self, input: EditorInputEvent, vars: Seq<Variable>) -> Option<
        Completion,
    > {
        if input != EditorInputEvent::Tab || self.cursor().column == 0 {
            None
        } else if self.is_matrix_shorthand() {
            Some(Completion::Matrix)
        } else {
            let word = self.word_before_cursor();
            match only_match(names_of(vars), word, self.cursor().row as int, 0, None) {
                Some(i) => Some(Completion::Word(vars[i].name@.skip(word.len() as int))),
                None => None,
            }
        }
    }

    pub open spec fn completion_commands(self, completion: Completion) -> Seq<EditorCommandView> {
        match completion {
            Completion::Matrix => matrix_typed(self.cursor()),
            Completion::Word(rest) => typed(rest),
        }
    }

    /// The matrix or reference, if any, that a deletion takes as a whole.
    pub open spec fn deleted_object(
        self,
        input: EditorInputEvent,
        objects: Seq<Seq<EditorObject>>,
    ) -> Option<int> {
        let line_objects = objects[self.cursor().row as int];
        let column = self.cursor().column as int;
        if self.editor.selection.end is Some {
            None
        } else if input == EditorInputEvent::Backspace && column > 0 {
            matrix_or_lineref_at(line_objects, column - 1)
        } else if input == EditorInputEvent::Del {
            matrix_or_lineref_at(line_objects, column)
        } else {
            None
        }
    }

    /// What the editor has to do to delete an object.
    pub open spec fn deletion_commands(
        self,
        input: EditorInputEvent,
        object: EditorObject,
    ) -> Seq<EditorCommandView> {
        seq![
            EditorCommandView::Select(
                Selection {
                    start: Pos { row: object.row.0, column: object.start_x },
                    end: Some(Pos { row: object.row.0, column: object.end_x }),
                },
            ),
            EditorCommandView::Input(input, no_modifiers()),
        ]
    }

    /// Which lines change when an object is deleted: an object of several rows
    /// moves the lines below.
    pub open spec fn deletion_effect(self, object: EditorObject) -> RowModificationType {
        if object.rendered_h > 1 {
            RowModificationType::AllLinesFrom(self.cursor().row)
        } else {
            RowModificationType::SingleLine(self.cursor().row)
        }
    }

    /// Where the cursor goes when it jumps over a reference, if it does.
    pub open spec fn jump_target(
        self,
        input: EditorInputEvent,
        modifiers: InputModifiers,
        objects: Seq<Seq<EditorObject>>,
    ) -> Option<Pos> {
        let line_objects = objects[self.cursor().row as int];
        let column = self.cursor().column as int;
        if self.editor.selection.end is Some || modifiers.shift {
            None
        } else if input == EditorInputEvent::Left && column > 0 {
            match found(line_objects, object_at(line_objects, column - 1)) {
                Some(object) => if object.typ == EditorObjectType::LineReference {
                    Some(Pos { row: object.row.0, column: object.start_x })
                } else {
                    None
                },
                None => None,
            }
        } else if input == EditorInputEvent::Right {
            match found(line_objects, object_at(line_objects, column)) {
                Some(object) => if object.typ == EditorObjectType::LineReference {
                    Some(Pos { row: object.row.0, column: object.end_x })
                } else {
                    None
                },
                None => None,
            }
        } else {
            None
        }
    }

    /// The matrix, if any, that the cursor has stepped into.
    pub open spec fn entered_matrix(self, objects: Seq<Seq<EditorObject>>) -> Option<
        EditorObject,
    > {
        let line_objects = objects[self.cursor().row as int];
        match found(line_objects, object_around(line_objects, self.cursor().column as int)) {
            Some(object) => if object.typ is Matrix && self.matrix_editing is None
                && self.editor.selection.end is None {
                Some(object)
            } else {
                None
            },
            None => None,
        }
    }

    /// The matrix that is edited after the cursor has come from `enter_from_pos`.
    pub open spec fn editing_after_step(
        self,
        enter_from_pos: Pos,
        objects: Seq<Seq<EditorObject>>,
    ) -> Option<MatrixEditingView> {
        match self.entered_matrix(objects) {
            Some(object) => Some(
                opened_matrix(
                    object.typ->row_count,
                    object.typ->col_count,
                    self.object_text(object),
                    object.row,
                    object.start_x,
                    object.end_x,
                    enter_from_pos,
                ),
            ),
            None => editing_view(self.matrix_editing),
        }
    }

    /// A matrix that the cursor steps into can be opened.
    pub open spec fn step_fits(
        self,
        enter_from_pos: Pos,
        objects: Seq<Seq<EditorObject>>,
    ) -> bool {
        &&& objects.len() == MAX_LINE_COUNT
        &&& self.cursor().row < MAX_LINE_COUNT
        &&& self.entered_matrix(objects) matches Some(object) ==> {
            &&& object.row.0 < self.editor_content.lines@.len()
            &&& object.start_x <= object.end_x
                <= self.editor_content.lines@[object.row.0 as int]@.len()
            &&& matrix_can_be_opened(
                object.typ->row_count,
                object.typ->col_count,
                self.object_text(object),
                object.row,
                object.start_x,
                enter_from_pos,
            )
        }
    }

    pub fn find_editor_object_at<'b>(
        &self,
        pos: Pos,
        editor_objects: &'b EditorObjects,
    ) -> (r: Option<&'b EditorObject>)
        requires
            pos.row < editor_objects@.len(),
        ensures
            deref_found(r) == found(
                editor_objects@[pos.row as int],
                object_at(editor_objects@[pos.row as int], pos.column as int),
            ),
    {
        let objects = &editor_objects[EditorY::new(pos.row)];
        let column = pos.column;
        let ghost wanted = |o: EditorObject| o.covers(column as int);
        let mut i: usize = 0;
        while i < objects.len()
            invariant
                i <= objects@.len(),
                objects@ == editor_objects@[pos.row as int],
                column == pos.column,
                wanted == (|o: EditorObject| o.covers(column as int)),
                first_object(objects@, wanted, 0) == first_object(objects@, wanted, i as int),
            decreases objects@.len() - i,
        {
            let obj = &objects[i];
            if obj.start_x <= column && column < obj.end_x {
                return Some(obj);
            }
            i += 1;
        }
        None
    }

    pub fn is_pos_inside_an_obj(editor_objects: &EditorObjects, pos: Pos) -> (r: Option<
        &EditorObject,
    >)
        requires
            pos.row < editor_objects@.len(),
        ensures
            deref_found(r) == found(
                editor_objects@[pos.row as int],
                object_around(editor_objects@[pos.row as int], pos.column as int),
            ),
    {
        let objects = &editor_objects[EditorY::new(pos.row)];
        let column = pos.column;
        let ghost wanted = |o: EditorObject| o.holds_inside(column as int);
        let mut i: usize = 0;
        while i < objects.len()
            invariant
                i <= objects@.len(),
                objects@ == editor_objects@[pos.row as int],
                column == pos.column,
                wanted == (|o: EditorObject| o.holds_inside(column as int)),
                first_object(objects@, wanted, 0) == first_object(objects@, wanted, i as int),
            decreases objects@.len() - i,
        {
            let obj = &objects[i];
            if obj.start_x < column && column < obj.end_x {
                return Some(obj);
            }
            i += 1;
        }
        None
    }

    pub fn index_of_matrix_or_lineref_at(
        &self,
        pos: Pos,
        editor_objects: &EditorObjects,
    ) -> (r: Option<usize>)
        requires
            pos.row < editor_objects@.len(),
        ensures
            match r {
                Some(i) => matrix_or_lineref_at(
                    editor_objects@[pos.row as int],
                    pos.column as int,
                ) == Some(i as int) && i < editor_objects@[pos.row as int].len(),
                None => matrix_or_lineref_at(
                    editor_objects@[pos.row as int],
                    pos.column as int,
                ) is None,
            },
    {
        let objects = &editor_objects[EditorY::new(pos.row)];
        let column = pos.column;
        let ghost wanted = |o: EditorObject| o.is_matrix_or_lineref() && o.covers(column as int);
        let mut i: usize = 0;
        while i < objects.len()
            invariant
                i <= objects@.len(),
                objects@ == editor_objects@[pos.row as int],
                column == pos.column,
                wanted == (|o: EditorObject|
                    o.is_matrix_or_lineref() && o.covers(column as int)),
                first_object(objects@, wanted, 0) == first_object(objects@, wanted, i as int),
            decreases objects@.len() - i,
        {
            let obj = &objects[i];
            let whole = match obj.typ {
                EditorObjectType::LineReference => true,
                EditorObjectType::Matrix { .. } => true,
                EditorObjectType::SimpleTokens => false,
            };
            if whole && obj.start_x <= column && column < obj.end_x {
                return Some(i);
            }
            i += 1;
        }
        None
    }

    /// Starts the editing of the matrix that the cursor has stepped into.
    pub fn check_stepping_into_matrix(
        &mut self,
        enter_from_pos: Pos,
        editor_objects: &EditorObjects,
    )
        requires
            old(self).step_fits(enter_from_pos, editor_objects@),
        ensures
            editing_view(final(self).matrix_editing) == old(self).editing_after_step(
                enter_from_pos,
                editor_objects@,
            ),
            *final(self) == (NoteCalcApp {
                matrix_editing: final(self).matrix_editing,
                ..*old(self)
            }),
    {
        let selection = self.editor.get_selection();
        if let Some(editor_obj) = NoteCalcApp::is_pos_inside_an_obj(
            editor_objects,
            selection.get_cursor_pos(),
        ) {
            match editor_obj.typ {
                EditorObjectType::Matrix { row_count, col_count } => {
                    if self.matrix_editing.is_none() && !selection.is_range() {
                        let line = self.editor_content.get_line_valid_chars(
                            editor_obj.row.as_usize(),
                        );
                        self.matrix_editing = Some(
                            MatrixEditing::new(
                                row_count,
                                col_count,
                                slice_subrange(line, editor_obj.start_x, editor_obj.end_x),
                                editor_obj.row,
                                editor_obj.start_x,
                                editor_obj.end_x,
                                enter_from_pos,
                            ),
                        );
                    }
                },
                EditorObjectType::SimpleTokens => {},
                EditorObjectType::LineReference => {},
            }
        }
    }

    /// Deletes a matrix or a reference as a whole.
    pub fn handle_obj_deletion(
        &self,
        input: &EditorInputEvent,
        editor_objects: &mut EditorObjects,
    ) -> (r: Option<(Vec<EditorCommand>, RowModificationType)>)
        requires
            old(editor_objects).wf(),
            self.cursor().row < MAX_LINE_COUNT,
        ensures
            ({
                let row = self.cursor().row as int;
                match self.deleted_object(*input, old(editor_objects)@) {
                    Some(i) => {
                        let object = old(editor_objects)@[row][i];
                        &&& r is Some
                        &&& commands_view(r.unwrap().0@) == self.deletion_commands(*input, object)
                        &&& r.unwrap().1 == self.deletion_effect(object)
                        &&& final(editor_objects)@ == old(editor_objects)@.update(
                            row,
                            old(editor_objects)@[row].remove(i),
                        )
                    },
                    None => r is None && final(editor_objects)@ == old(editor_objects)@,
                }
            }),
            final(editor_objects).wf(),
    {
        let selection = self.editor.get_selection();
        let cursor_pos = selection.get_cursor_pos();
        let index = if selection.is_range() {
            None
        } else if *input == EditorInputEvent::Backspace && cursor_pos.column > 0 {
            self.index_of_matrix_or_lineref_at(cursor_pos.with_prev_col(), editor_objects)
        } else if *input == EditorInputEvent::Del {
            self.index_of_matrix_or_lineref_at(cursor_pos, editor_objects)
        } else {
            None
        };
        if let Some(index) = index {
            let line_objects = editor_objects.line_mut(EditorY::new(cursor_pos.row));
            let obj = line_objects.remove(index);
            let sel = Selection::range(
                Pos::from_row_column(obj.row.as_usize(), obj.start_x),
                Pos::from_row_column(obj.row.as_usize(), obj.end_x),
            );
            let mut commands: Vec<EditorCommand> = Vec::new();
            commands.push(EditorCommand::Select(sel));
            commands.push(EditorCommand::Input(*input, InputModifiers::none()));
            let effect = if obj.rendered_h > 1 {
                RowModificationType::AllLinesFrom(cursor_pos.row)
            } else {
                RowModificationType::SingleLine(cursor_pos.row)
            };
            Some((commands, effect))
        } else {
            None
        }
    }

    /// Lets the cursor jump over a reference to another line.
    pub fn handle_obj_jump_over(
        &self,
        input: &EditorInputEvent,
        modifiers: InputModifiers,
        editor_objects: &EditorObjects,
    ) -> (r: Option<Pos>)
        requires
            editor_objects.wf(),
            self.cursor().row < MAX_LINE_COUNT,
        ensures
            r == self.jump_target(*input, modifiers, editor_objects@),
    {
        let selection = self.editor.get_selection();
        let cursor_pos = selection.get_cursor_pos();
        if selection.is_range() || modifiers.shift {
            return None;
        }
        if *input == EditorInputEvent::Left && cursor_pos.column > 0 {
            if let Some(obj) = self.find_editor_object_at(
                cursor_pos.with_prev_col(),
                editor_objects,
            ) {
                if obj.typ == EditorObjectType::LineReference {
                    return Some(Pos::from_row_column(obj.row.as_usize(), obj.start_x));
                }
            }
        } else if *input == EditorInputEvent::Right {
            if let Some(obj) = self.find_editor_object_at(cursor_pos, editor_objects) {
                if obj.typ == EditorObjectType::LineReference {
                    return Some(Pos::from_row_column(obj.row.as_usize(), obj.end_x));
                }
            }
        }
        None
    }

    /// The number of characters of the word before the cursor.
    fn word_len_before_cursor(line: &[char], column: usize) -> (r: usize)
        requires
            1 <= column <= line@.len(),
        ensures
            r == column - word_start(line@, column as int),
            1 <= r <= column,
    {
        let mut begin_index: usize = column - 1;
        while begin_index > 0 && is_word_character(line[begin_index - 1])
            invariant
                begin_index < column <= line@.len(),
                word_start(line@, column as int) == word_start(line@, begin_index + 1),
            decreases begin_index,
        {
            begin_index -= 1;
        }
        column - begin_index
    }

    fn name_starts_with(name: &Vec<char>, word: &[char]) -> (r: bool)
        ensures
            r == starts_with(name@, word@),
    {
        if name.len() < word.len() {
            return false;
        }
        let mut match_len: usize = 0;
        while match_len < word.len()
            invariant
                match_len <= word@.len() <= name@.len(),
                name@.take(match_len as int) == word@.take(match_len as int),
            decreases word@.len() - match_len,
        {
            if name[match_len] != word[match_len] {
                return false;
            }
            match_len += 1;
        }
        assert(word@.take(match_len as int) =~= word@);
        true
    }

    fn only_matching_variable(vars: &[Variable], word: &[char], row: usize) -> (r: Option<usize>)
        ensures
            match r {
                Some(i) => only_match(names_of(vars@), word@, row as int, 0, None) == Some(
                    i as int,
                ) && i < vars@.len() && starts_with(vars@[i as int].name@, word@),
                None => only_match(names_of(vars@), word@, row as int, 0, None) is None,
            },
    {
        let ghost names = names_of(vars@);
        let mut matched_var_index: Option<usize> = None;
        let ghost mut matched: Option<int> = None;
        let mut var_i: usize = 0;
        while var_i < vars.len()
            invariant_except_break
                only_match(names, word@, row as int, 0, None) == only_match(
                    names,
                    word@,
                    row as int,
                    var_i as int,
                    matched,
                ),
            invariant
                var_i <= vars@.len(),
                names == names_of(vars@),
                matched == (match matched_var_index {
                    Some(i) => Some(i as int),
                    None => None,
                }),
                matched_var_index matches Some(i) ==> i < vars@.len() && starts_with(
                    vars@[i as int].name@,
                    word@,
                ),
            ensures
                only_match(names, word@, row as int, 0, None) == matched,
            decreases vars@.len() - var_i,
        {
            let var = &vars[var_i];
            if var.defined_at_row >= row {
                break ;
            }
            if NoteCalcApp::name_starts_with(&var.name, word) {
                if matched_var_index.is_some() {
                    matched_var_index = None;
                    proof {
                        matched = None;
                    }
                    break ;
                }
                matched_var_index = Some(var_i);
                proof {
                    matched = Some(var_i as int);
                }
            }
            var_i += 1;
        }
        matched_var_index
    }

    /// Whether the tabulator completes to a matrix.
    pub(crate) fn is_completed_to_matrix(&self) -> (r: bool)
        requires
            self.cursor_in_text(),
            self.cursor().column > 0,
        ensures
            r == self.is_matrix_shorthand(),
    {
        let cursor_pos = self.editor.get_selection().get_cursor_pos();
        let line = self.editor_content.get_line_valid_chars(cursor_pos.row);
        let column = cursor_pos.column;
        line[column - 1] == 'm' && (column == 1 || !is_word_character(line[column - 2]))
    }

    /// Completes what stands before the cursor: an `m` to a matrix, which is
    /// noted among the objects of the line, or a word to the only name it can
    /// mean.
    pub fn handle_completion(
        &self,
        input: &EditorInputEvent,
        editor_objects: &mut EditorObjects,
        vars: &[Variable],
    ) -> (r: Option<Vec<EditorCommand>>)
        requires
            old(editor_objects).wf(),
            self.cursor_in_text(),
            self.cursor().column + 2 <= usize::MAX,
        ensures
            ({
                let row = self.cursor().row as int;
                match self.completion(*input, vars@) {
                    Some(completion) => {
                        &&& r is Some
                        &&& commands_view(r.unwrap()@) == self.completion_commands(completion)
                        &&& final(editor_objects)@ == (if completion is Matrix {
                            old(editor_objects)@.update(
                                row,
                                old(editor_objects)@[row].push(typed_matrix(self.cursor())),
                            )
                        } else {
                            old(editor_objects)@
                        })
                    },
                    None => r is None && final(editor_objects)@ == old(editor_objects)@,
                }
            }),
            final(editor_objects).wf(),
    {
        let cursor_pos = self.editor.get_selection().get_cursor_pos();
        if !(*input == EditorInputEvent::Tab && cursor_pos.column > 0) {
            return None;
        }
        let line = self.editor_content.get_line_valid_chars(cursor_pos.row);
        let column = cursor_pos.column;
        let none = InputModifiers::none();
        let mut commands: Vec<EditorCommand> = Vec::new();
        if self.is_completed_to_matrix() {
            commands.push(EditorCommand::Input(EditorInputEvent::Backspace, none));
            commands.push(EditorCommand::Input(EditorInputEvent::Char('['), none));
            commands.push(EditorCommand::Input(EditorInputEvent::Char('0'), none));
            commands.push(EditorCommand::Input(EditorInputEvent::Char(']'), none));
            commands.push(EditorCommand::Select(Selection::single(cursor_pos)));
            let object = EditorObject {
                typ: EditorObjectType::Matrix { row_count: 1, col_count: 1 },
                row: EditorY::new(cursor_pos.row),
                start_x: column - 1,
                end_x: column + 2,
                rendered_x: 0,
                rendered_y: RenderPosY::new(0),
                rendered_w: 3,
                rendered_h: 1,
            };
            let line_objects = editor_objects.line_mut(EditorY::new(cursor_pos.row));
            line_objects.push(object);
            return Some(commands);
        }
        let expected_len = NoteCalcApp::word_len_before_cursor(line, column);
        let word = slice_subrange(line, column - expected_len, column);
        match NoteCalcApp::only_matching_variable(vars, word, cursor_pos.row) {
            Some(matched_var_index) => {
                let name = &vars[matched_var_index].name;
                Some(type_rest(name, expected_len))
            },
            None => None,
        }
    }
}

/// Going right from the start of a reference jumps to its end, and going left
/// from there jumps back, where no other object covers its text.
pub proof fn law_jump_over_and_back(
    at_start: NoteCalcApp,
    at_end: NoteCalcApp,
    modifiers: InputModifiers,
    objects: Seq<Seq<EditorObject>>,
    row: int,
    i: int,
)
    requires
        0 <= row < objects.len(),
        0 <= i < objects[row].len(),
        objects[row][i].typ == EditorObjectType::LineReference,
        objects[row][i].row.0 == row,
        objects[row][i].start_x < objects[row][i].end_x,
        forall|j: int, column: int|
            0 <= j < objects[row].len() && objects[row][i].covers(column) && #[trigger]
                objects[row][j].covers(column) ==> j == i,
        !modifiers.shift,
        at_start.editor.selection == (Selection {
            start: Pos { row: row as usize, column: objects[row][i].start_x },
            end: None,
        }),
        at_end.editor.selection == (Selection {
            start: Pos { row: row as usize, column: objects[row][i].end_x },
            end: None,
        }),
    ensures
        at_start.jump_target(EditorInputEvent::Right, modifiers, objects) == Some(
            at_end.cursor(),
        ),
        at_end.jump_target(EditorInputEvent::Left, modifiers, objects) == Some(
            at_start.cursor(),
        ),
{
    let object = objects[row][i];
    let first = object.start_x as int;
    let last = object.end_x - 1;
    law_first_object(objects[row], |o: EditorObject| o.covers(first), 0);
    law_first_object(objects[row], |o: EditorObject| o.covers(last), 0);
}

} // verus!
