use smallvec::SmallVec;
use typed_arena::Arena;
use vstd::prelude::*;

use crate::app::RedrawTarget;
use crate::coords::{EditorY, RenderPosY};
use crate::results::ResultLengths;
use crate::row_flags::MAX_LINE_COUNT;

verus! {

/// `String::push` appends the character to the text.
pub assume_specification[ String::push ](s: &mut String, ch: char)
    ensures
        final(s)@ == old(s)@.push(ch),
;

/// What `char::is_alphanumeric` answers: whether Unicode counts the character
/// among its letters or its numbers.
pub uninterp spec fn alphanumeric(ch: char) -> bool;

/// Asks `char::is_alphanumeric`. The Unicode tables behind the answer are not
/// stated; it depends on the character alone.
#[verifier::external_body]
pub(crate) fn is_alphanumeric(ch: char) -> (r: bool)
    ensures
        r == alphanumeric(ch),
{
    ch.is_alphanumeric()
}

/// `typed_arena::Arena`, in which the characters of a frame live. A reference
/// that it hands out stays valid as long as the arena itself.
#[verifier::external_type_specification]
#[verifier::external_body]
#[verifier::reject_recursive_types(T)]
pub struct ExArena<T>(Arena<T>);

/// Copies the characters into the arena with `Arena::alloc_extend`, which
/// stores the items of an iterator one after the other and hands out the slice
/// that holds exactly these.
#[verifier::external_body]
pub(crate) fn alloc_chars<'a>(arena: &'a Arena<char>, text: &[char]) -> (r: &'a [char])
    ensures
        r@ == text@,
{
    arena.alloc_extend(text.iter().copied())
}

/// The result of a line while the results are drawn: where its text stands in
/// the result buffer, if it has one, and how the text divides into parts.
#[derive(Clone, Copy, Debug)]
pub struct ResultTmp {
    pub buffer_ptr: Option<(usize, usize)>,
    pub editor_y: EditorY,
    pub lengths: ResultLengths,
}

/// A `smallvec::SmallVec` of line results: a list that needs no allocation as
/// long as it holds no more than one item per line.
#[verifier::external_body]
pub struct ResultRanges {
    items: SmallVec<[ResultTmp; MAX_LINE_COUNT]>,
}

/// What the list holds, in order.
pub uninterp spec fn result_ranges_items(list: ResultRanges) -> Seq<ResultTmp>;

impl ResultRanges {
    /// `SmallVec::with_capacity` makes an empty list.
    #[verifier::external_body]
    pub(crate) fn new() -> (r: ResultRanges)
        ensures
            result_ranges_items(r) == Seq::<ResultTmp>::empty(),
    {
        ResultRanges { items: SmallVec::with_capacity(MAX_LINE_COUNT) }
    }

    /// `SmallVec::push` adds the item at the end. With less than one item per
    /// line the list has room for it.
    #[verifier::external_body]
    pub(crate) fn push(&mut self, item: ResultTmp)
        requires
            result_ranges_items(*old(self)).len() < MAX_LINE_COUNT,
        ensures
            result_ranges_items(*final(self)) == result_ranges_items(*old(self)).push(item),
    {
        self.items.push(item);
    }

    /// `SmallVec::len` counts the items.
    #[verifier::external_body]
    pub(crate) fn len(&self) -> (r: usize)
        ensures
            r == result_ranges_items(*self).len(),
    {
        self.items.len()
    }

    /// Indexing a `SmallVec`, which stands for the slice of its items, gives
    /// the item with that number.
    #[verifier::external_body]
    pub(crate) fn get(&self, index: usize) -> (r: ResultTmp)
        requires
            index < result_ranges_items(*self).len(),
        ensures
            r == result_ranges_items(*self)[index as int],
    {
        self.items[index]
    }
}

/// A line that is drawn again: where it stands, how tall it is, and which part
/// of it is drawn.
#[derive(Clone, Copy, Debug)]
pub struct RerenderedLine {
    pub render_y: RenderPosY,
    pub height: usize,
    pub target: RedrawTarget,
}

/// A `smallvec::SmallVec` of lines that are drawn again: a list that needs no
/// allocation as long as it holds no more than one item per line.
#[verifier::external_body]
pub struct RerenderedLines {
    items: SmallVec<[RerenderedLine; MAX_LINE_COUNT]>,
}

/// What the list holds, in order.
pub uninterp spec fn rerendered_lines_items(list: RerenderedLines) -> Seq<RerenderedLine>;

impl RerenderedLines {
    /// `SmallVec::with_capacity` makes an empty list.
    #[verifier::external_body]
    pub(crate) fn new() -> (r: RerenderedLines)
        ensures
            rerendered_lines_items(r) == Seq::<RerenderedLine>::empty(),
    {
        RerenderedLines { items: SmallVec::with_capacity(MAX_LINE_COUNT) }
    }

    /// `SmallVec::push` adds the item at the end. With less than one item per
    /// line the list has room for it.
    #[verifier::external_body]
    pub(crate) fn push(&mut self, item: RerenderedLine)
        requires
            rerendered_lines_items(*old(self)).len() < MAX_LINE_COUNT,
        ensures
            rerendered_lines_items(*final(self)) == rerendered_lines_items(*old(self)).push(item),
    {
        self.items.push(item);
    }

    /// `SmallVec::len` counts the items.
    #[verifier::external_body]
    pub(crate) fn len(&self) -> (r: usize)
        ensures
            r == rerendered_lines_items(*self).len(),
    {
        self.items.len()
    }

    /// Indexing a `SmallVec`, which stands for the slice of its items, gives
    /// the item with that number.
    #[verifier::external_body]
    pub(crate) fn get(&self, index: usize) -> (r: RerenderedLine)
        requires
            index < rerendered_lines_items(*self).len(),
        ensures
            r == rerendered_lines_items(*self)[index as int],
    {
        self.items[index]
    }
}

} // verus!
