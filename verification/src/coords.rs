use vstd::prelude::*;

verus! {

/// The index of a line in the edited text.
#[derive(Clone, Copy, PartialEq, Eq, PartialOrd, Ord, Structural, Debug)]
pub struct EditorY(pub usize);

impl EditorY {
    pub fn new(n: usize) -> (r: EditorY)
        ensures
            r.0 == n,
    {
        EditorY(n)
    }

    pub fn as_usize(self) -> (r: usize)
        ensures
            r == self.0,
    {
        self.0
    }

    pub fn add(&self, n: usize) -> (r: EditorY)
        requires
            self.0 + n <= usize::MAX,
        ensures
            r.0 == self.0 + n,
    {
        EditorY(self.0 + n)
    }

    pub fn sub(&self, n: usize) -> (r: EditorY)
        requires
            n <= self.0,
        ensures
            r.0 == self.0 - n,
    {
        EditorY(self.0 - n)
    }
}

/// A row of the rendered screen. One line of the text may span several of them.
#[derive(Clone, Copy, PartialEq, Eq, PartialOrd, Ord, Structural, Debug)]
pub struct RenderPosY(pub usize);

impl RenderPosY {
    pub fn new(n: usize) -> (r: RenderPosY)
        ensures
            r.0 == n,
    {
        RenderPosY(n)
    }

    pub fn as_usize(self) -> (r: usize)
        ensures
            r == self.0,
    {
        self.0
    }

    pub fn add(&self, n: usize) -> (r: RenderPosY)
        requires
            self.0 + n <= usize::MAX,
        ensures
            r.0 == self.0 + n,
    {
        RenderPosY(self.0 + n)
    }

    pub fn sub(&self, n: usize) -> (r: RenderPosY)
        requires
            n <= self.0,
        ensures
            r.0 == self.0 - n,
    {
        RenderPosY(self.0 - n)
    }
}

/// A place in the text: a line and a column within it.
#[derive(Clone, Copy, PartialEq, Eq, Structural, Debug)]
pub struct Pos {
    pub row: usize,
    pub column: usize,
}

impl Pos {
    pub fn from_row_column(row: usize, column: usize) -> (r: Pos)
        ensures
            r == (Pos { row, column }),
    {
        Pos { row, column }
    }

    pub fn with_column(self, column: usize) -> (r: Pos)
        ensures
            r == (Pos { row: self.row, column }),
    {
        Pos { row: self.row, column }
    }

    pub fn with_row(self, row: usize) -> (r: Pos)
        ensures
            r == (Pos { row, column: self.column }),
    {
        Pos { row, column: self.column }
    }

    pub fn with_prev_col(self) -> (r: Pos)
        requires
            self.column > 0,
        ensures
            r == (Pos { row: self.row, column: (self.column - 1) as usize }),
    {
        Pos { row: self.row, column: self.column - 1 }
    }

    /// Reading order: an earlier line comes first, then a smaller column.
    pub open spec fn before(self, other: Pos) -> bool {
        self.row < other.row || (self.row == other.row && self.column < other.column)
    }
}

/// What is selected. Without an `end` it is just the cursor. With one, the
/// cursor stands at `end`, which may lie on either side of `start`.
#[derive(Clone, Copy, PartialEq, Eq, Structural, Debug)]
pub struct Selection {
    pub start: Pos,
    pub end: Option<Pos>,
}

impl Selection {
    pub open spec fn cursor(self) -> Pos {
        match self.end {
            Some(end) => end,
            None => self.start,
        }
    }

    pub open spec fn first(self) -> Pos {
        if self.cursor().before(self.start) {
            self.cursor()
        } else {
            self.start
        }
    }

    pub open spec fn second(self) -> Pos {
        if self.cursor().before(self.start) {
            self.start
        } else {
            self.cursor()
        }
    }

    pub fn single(pos: Pos) -> (r: Selection)
        ensures
            r == (Selection { start: pos, end: None }),
    {
        Selection { start: pos, end: None }
    }

    pub fn single_r_c(row: usize, column: usize) -> (r: Selection)
        ensures
            r == (Selection { start: Pos { row, column }, end: None }),
    {
        Selection { start: Pos { row, column }, end: None }
    }

    pub fn range(start: Pos, end: Pos) -> (r: Selection)
        ensures
            r == (Selection { start, end: Some(end) }),
    {
        Selection { start, end: Some(end) }
    }

    pub fn is_range(&self) -> (r: bool)
        ensures
            r == (self.end is Some),
    {
        self.end.is_some()
    }

    pub fn get_cursor_pos(&self) -> (r: Pos)
        ensures
            r == self.cursor(),
    {
        match self.end {
            Some(end) => end,
            None => self.start,
        }
    }

    /// The end of the selection that comes first in reading order.
    pub fn get_first(&self) -> (r: Pos)
        ensures
            r == self.first(),
    {
        let cursor = self.get_cursor_pos();
        if cursor.row < self.start.row || (cursor.row == self.start.row && cursor.column
            < self.start.column) {
            cursor
        } else {
            self.start
        }
    }

    /// The end of the selection that comes last in reading order.
    pub fn get_second(&self) -> (r: Pos)
        ensures
            r == self.second(),
    {
        let cursor = self.get_cursor_pos();
        if cursor.row < self.start.row || (cursor.row == self.start.row && cursor.column
            < self.start.column) {
            self.start
        } else {
            cursor
        }
    }

    pub fn get_range(&self) -> (r: (Pos, Pos))
        ensures
            r == (self.first(), self.second()),
    {
        (self.get_first(), self.get_second())
    }
}

/// What a mouse event means for the text.
#[derive(Clone, Copy, PartialEq, Eq, Structural, Debug)]
pub enum Click {
    Simple(Pos),
    Drag(Pos),
}

/// Both ends of a selection lie within it in reading order, whichever way it was made.
pub proof fn law_selection_ends_are_ordered(s: Selection)
    ensures
        !s.second().before(s.first()),
        s.first().row <= s.second().row,
        s.first() == s.start || s.first() == s.cursor(),
        s.second() == s.start || s.second() == s.cursor(),
        s.end is None ==> s.first() == s.start && s.second() == s.start,
{
}

} // verus!
