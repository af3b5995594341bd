use vstd::prelude::*;

use crate::content::EditorContent;
use crate::coords::{Pos, Selection};

verus! {

/// A key that was pressed.
#[derive(Clone, Copy, PartialEq, Eq, Structural, Debug)]
pub enum EditorInputEvent {
    Left,
    Right,
    Up,
    Down,
    Home,
    End,
    PageUp,
    PageDown,
    Esc,
    Enter,
    Backspace,
    Del,
    Tab,
    Char(char),
}

/// The modifier keys that are held.
#[derive(Clone, Copy, PartialEq, Eq, Structural, Debug)]
pub struct InputModifiers {
    pub shift: bool,
    pub ctrl: bool,
    pub alt: bool,
}

impl InputModifiers {
    pub fn none() -> (r: InputModifiers)
        ensures
            r == (InputModifiers { shift: false, ctrl: false, alt: false }),
    {
        InputModifiers { shift: false, ctrl: false, alt: false }
    }

    pub fn shift() -> (r: InputModifiers)
        ensures
            r == (InputModifiers { shift: true, ctrl: false, alt: false }),
    {
        InputModifiers { shift: true, ctrl: false, alt: false }
    }

    pub fn ctrl() -> (r: InputModifiers)
        ensures
            r == (InputModifiers { shift: false, ctrl: true, alt: false }),
    {
        InputModifiers { shift: false, ctrl: true, alt: false }
    }

    pub fn alt() -> (r: InputModifiers)
        ensures
            r == (InputModifiers { shift: false, ctrl: false, alt: true }),
    {
        InputModifiers { shift: false, ctrl: false, alt: true }
    }
}

/// Which lines an edit changed.
#[derive(Clone, Copy, PartialEq, Eq, Structural, Debug)]
pub enum RowModificationType {
    SingleLine(usize),
    AllLinesFrom(usize),
}

impl RowModificationType {
    pub open spec fn touches(self, row: int) -> bool {
        match self {
            RowModificationType::SingleLine(changed) => row == changed,
            RowModificationType::AllLinesFrom(from) => row >= from,
        }
    }
}

/// What the calculator knows of a text editor: what is selected in it, and
/// whether its blinking cursor is shown at the moment.
#[derive(Clone, Copy, PartialEq, Eq, Structural, Debug)]
pub struct Editor {
    pub selection: Selection,
    pub cursor_shown: bool,
}

impl Editor {
    pub fn new() -> (r: Editor)
        ensures
            r.selection == (Selection { start: Pos { row: 0, column: 0 }, end: None }),
            !r.cursor_shown,
    {
        Editor { selection: Selection::single_r_c(0, 0), cursor_shown: false }
    }

    pub fn get_selection(&self) -> (r: Selection)
        ensures
            r == self.selection,
    {
        self.selection
    }

    pub fn is_cursor_shown(&self) -> (r: bool)
        ensures
            r == self.cursor_shown,
    {
        self.cursor_shown
    }

    pub fn is_cursor_at_beginning(&self) -> (r: bool)
        ensures
            r == (self.selection.cursor() == Pos { row: 0, column: 0 }),
    {
        let cursor = self.selection.get_cursor_pos();
        cursor.row == 0 && cursor.column == 0
    }

    pub fn is_cursor_at_eol<T: Copy>(&self, content: &EditorContent<T>) -> (r: bool)
        requires
            self.selection.cursor().row < content.lines@.len(),
        ensures
            r == (self.selection.cursor().column
                == content.lines@[self.selection.cursor().row as int]@.len()),
    {
        let cursor = self.selection.get_cursor_pos();
        cursor.column == content.line_len(cursor.row)
    }

    pub fn set_cursor_range(&mut self, start: Pos, end: Pos)
        ensures
            *final(self) == (Editor {
                selection: Selection { start, end: Some(end) },
                cursor_shown: old(self).cursor_shown,
            }),
    {
        self.selection = Selection::range(start, end);
    }
}

/// A request to the text editor. The calculator decides what has to happen to
/// the text; the editor, which owns the cursor's habits, the clipboard and the
/// history, does it.
pub enum EditorCommand {
    /// Select this, and remember the cursor's column for vertical moves.
    Select(Selection),
    /// Put the cursor there.
    SetCursor(Pos),
    /// Take this key.
    Input(EditorInputEvent, InputModifiers),
    /// Insert this text at the cursor.
    InsertText(String),
    /// The mouse was pressed over this place.
    Click(Pos),
    /// The mouse was dragged to this place.
    Drag(Pos),
    /// Show the cursor and start its blinking anew.
    BlinkCursor,
    /// The editor of the matrix cell takes this key.
    CellInput(EditorInputEvent, InputModifiers),
}

/// The contents of a request.
#[verifier::ext_equal]
pub enum EditorCommandView {
    Select(Selection),
    SetCursor(Pos),
    Input(EditorInputEvent, InputModifiers),
    InsertText(Seq<char>),
    Click(Pos),
    Drag(Pos),
    BlinkCursor,
    CellInput(EditorInputEvent, InputModifiers),
}

impl View for EditorCommand {
    type V = EditorCommandView;

    open spec fn view(&self) -> EditorCommandView {
        match *self {
            EditorCommand::Select(s) => EditorCommandView::Select(s),
            EditorCommand::SetCursor(p) => EditorCommandView::SetCursor(p),
            EditorCommand::Input(e, m) => EditorCommandView::Input(e, m),
            EditorCommand::InsertText(t) => EditorCommandView::InsertText(t@),
            EditorCommand::Click(p) => EditorCommandView::Click(p),
            EditorCommand::Drag(p) => EditorCommandView::Drag(p),
            EditorCommand::BlinkCursor => EditorCommandView::BlinkCursor,
            EditorCommand::CellInput(e, m) => EditorCommandView::CellInput(e, m),
        }
    }
}

pub open spec fn commands_view(commands: Seq<EditorCommand>) -> Seq<EditorCommandView> {
    Seq::new(commands.len(), |i: int| commands[i]@)
}

} // verus!
