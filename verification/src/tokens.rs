use vstd::prelude::*;

use crate::coords::EditorY;
use crate::row_flags::MAX_LINE_COUNT;

verus! {

#[derive(Clone, Copy, PartialEq, Eq, Structural, Debug)]
pub enum OperatorTokenType {
    BracketOpen,
    BracketClose,
    Comma,
    Semicolon,
    /// The opening bracket of a matrix, with the size of the matrix.
    Matrix { row_count: usize, col_count: usize },
    /// Any other operator.
    Other,
}

#[derive(Clone, Copy, PartialEq, Eq, Structural, Debug)]
pub enum TokenType {
    StringLiteral,
    Variable { var_index: usize },
    LineReference { var_index: usize },
    NumberLiteral,
    Unit,
    Operator(OperatorTokenType),
}

/// A piece of a line: its characters and what they mean.
#[derive(Clone, Copy, Debug)]
pub struct Token<'a> {
    pub ptr: &'a [char],
    pub typ: TokenType,
}

/// A line taken apart, once in the order of the text and once in the order of
/// evaluation.
pub struct Tokens<'a> {
    pub tokens: Vec<Token<'a>>,
    pub shunting_output_stack: Vec<TokenType>,
}

/// The tokens of all the lines. A line that is a comment has none.
pub struct AppTokens<'a>(pub Vec<Option<Tokens<'a>>>);

impl<'a> AppTokens<'a> {
    /// There is a place for each of the lines that the calculator handles.
    pub open spec fn wf(self) -> bool {
        self.0@.len() == MAX_LINE_COUNT
    }

    pub fn new() -> (r: AppTokens<'a>)
        ensures
            r.wf(),
            forall|i: int| 0 <= i < MAX_LINE_COUNT ==> (#[trigger] r.0@[i]) is None,
    {
        let mut v: Vec<Option<Tokens<'a>>> = Vec::with_capacity(MAX_LINE_COUNT);
        let mut i: usize = 0;
        while i < MAX_LINE_COUNT
            invariant
                i <= MAX_LINE_COUNT,
                v@.len() == i,
                forall|k: int| 0 <= k < i ==> (#[trigger] v@[k]) is None,
            decreases MAX_LINE_COUNT - i,
        {
            v.push(None);
            i += 1;
        }
        AppTokens(v)
    }

    /// Stores the tokens of a line.
    pub fn set(&mut self, index: EditorY, tokens: Option<Tokens<'a>>)
        requires
            index.0 < old(self).0@.len(),
        ensures
            final(self).0@ == old(self).0@.update(index.0 as int, tokens),
    {
        self.0[index.0] = tokens;
    }
}

impl<'a> std::ops::Index<EditorY> for AppTokens<'a> {
    type Output = Option<Tokens<'a>>;

    fn index(&self, index: EditorY) -> (r: &Option<Tokens<'a>>)
        ensures
            *r == self.0@[index.0 as int],
    {
        &self.0[index.0]
    }
}

impl<'a> vstd::std_specs::core::IndexSpecImpl<EditorY> for AppTokens<'a> {
    open spec fn index_req(&self, index: &EditorY) -> bool {
        index.0 < self.0@.len()
    }
}

} // verus!
