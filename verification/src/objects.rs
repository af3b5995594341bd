use vstd::prelude::*;

use crate::coords::{EditorY, RenderPosY};
use crate::row_flags::MAX_LINE_COUNT;

verus! {

#[derive(Clone, Copy, PartialEq, Eq, Structural, Debug)]
pub enum EditorObjectType {
    Matrix { row_count: usize, col_count: usize },
    LineReference,
    SimpleTokens,
}

/// A stretch of a line that is drawn as one thing, and where it was drawn.
#[derive(Clone, Copy, PartialEq, Eq, Structural, Debug)]
pub struct EditorObject {
    pub typ: EditorObjectType,
    pub row: EditorY,
    pub start_x: usize,
    pub end_x: usize,
    pub rendered_x: usize,
    pub rendered_y: RenderPosY,
    pub rendered_w: usize,
    pub rendered_h: usize,
}

impl EditorObject {
    /// The column belongs to the object's text.
    pub open spec fn covers(self, column: int) -> bool {
        self.start_x <= column < self.end_x
    }

    /// The column lies within the object's text, after its first character.
    pub open spec fn holds_inside(self, column: int) -> bool {
        self.start_x < column < self.end_x
    }

    /// The place on the screen belongs to the object's drawing.
    pub open spec fn drawn_at(self, x: int, y: int) -> bool {
        &&& self.rendered_x <= x < self.rendered_x + self.rendered_w
        &&& self.rendered_y.0 <= y < self.rendered_y.0 + self.rendered_h
    }

    pub open spec fn is_matrix_or_lineref(self) -> bool {
        self.typ is Matrix || self.typ is LineReference
    }
}

/// The first place, from `from` on, at which `wanted` holds.
pub open spec fn first_object(
    objects: Seq<EditorObject>,
    wanted: spec_fn(EditorObject) -> bool,
    from: int,
) -> Option<int>
    decreases objects.len() - from,
{
    if from < 0 || from >= objects.len() {
        None
    } else if wanted(objects[from]) {
        Some(from)
    } else {
        first_object(objects, wanted, from + 1)
    }
}

/// What `first_object` finds: the object is wanted, and none before it is;
/// where it finds nothing, no object is wanted.
pub proof fn law_first_object(
    objects: Seq<EditorObject>,
    wanted: spec_fn(EditorObject) -> bool,
    from: int,
)
    requires
        0 <= from,
    ensures
        match first_object(objects, wanted, from) {
            Some(i) => from <= i < objects.len() && wanted(objects[i]) && forall|j: int|
                from <= j < i ==> !wanted(#[trigger] objects[j]),
            None => forall|j: int| from <= j < objects.len() ==> !wanted(#[trigger] objects[j]),
        },
    decreases objects.len() - from,
{
    if from < objects.len() && !wanted(objects[from]) {
        law_first_object(objects, wanted, from + 1);
    }
}

/// The objects of each line.
pub struct EditorObjects(pub Vec<Vec<EditorObject>>);

/// The objects line by line.
impl View for EditorObjects {
    type V = Seq<Seq<EditorObject>>;

    open spec fn view(&self) -> Seq<Seq<EditorObject>> {
        Seq::new(self.0@.len(), |i: int| self.0@[i]@)
    }
}

impl EditorObjects {
    pub open spec fn wf(self) -> bool {
        self.0@.len() == MAX_LINE_COUNT
    }

    pub fn new() -> (r: EditorObjects)
        ensures
            r.wf(),
            forall|i: int| 0 <= i < MAX_LINE_COUNT ==> (#[trigger] r.0@[i])@.len() == 0,
    {
        let mut v: Vec<Vec<EditorObject>> = Vec::with_capacity(MAX_LINE_COUNT);
        let mut i: usize = 0;
        while i < MAX_LINE_COUNT
            invariant
                i <= MAX_LINE_COUNT,
                v@.len() == i,
                forall|k: int| 0 <= k < i ==> (#[trigger] v@[k])@.len() == 0,
            decreases MAX_LINE_COUNT - i,
        {
            v.push(Vec::with_capacity(8));
            i += 1;
        }
        EditorObjects(v)
    }

    pub fn clear(&mut self)
        ensures
            final(self).0@ == Seq::<Vec<EditorObject>>::empty(),
    {
        self.0.clear();
    }

    pub fn push(&mut self, d: Vec<EditorObject>)
        ensures
            final(self).0@ == old(self).0@.push(d),
    {
        self.0.push(d);
    }

    /// The objects of a line, to be changed in place.
    pub fn line_mut(&mut self, index: EditorY) -> (r: &mut Vec<EditorObject>)
        requires
            index.0 < old(self).0@.len(),
        ensures
            *r == old(self).0@[index.0 as int],
            final(self).0@ == old(self).0@.update(index.0 as int, *final(r)),
    {
        &mut self.0[index.0]
    }
}

impl std::ops::Index<EditorY> for EditorObjects {
    type Output = Vec<EditorObject>;

    fn index(&self, index: EditorY) -> (r: &Vec<EditorObject>)
        ensures
            *r == self.0@[index.0 as int],
    {
        &self.0[index.0]
    }
}

impl vstd::std_specs::core::IndexSpecImpl<EditorY> for EditorObjects {
    open spec fn index_req(&self, index: &EditorY) -> bool {
        index.0 < self.0@.len()
    }
}

/// The object, if any, whose text the column of `pos` belongs to.
pub open spec fn object_at(objects: Seq<EditorObject>, column: int) -> Option<int> {
    first_object(objects, |o: EditorObject| o.covers(column), 0)
}

/// The object, if any, that the column lies inside of.
pub open spec fn object_around(objects: Seq<EditorObject>, column: int) -> Option<int> {
    first_object(objects, |o: EditorObject| o.holds_inside(column), 0)
}

/// The matrix or line reference, if any, whose text the column belongs to.
pub open spec fn matrix_or_lineref_at(objects: Seq<EditorObject>, column: int) -> Option<int> {
    first_object(objects, |o: EditorObject| o.is_matrix_or_lineref() && o.covers(column), 0)
}

/// The object, if any, that was drawn over the place.
pub open spec fn object_drawn_at(objects: Seq<EditorObject>, x: int, y: int) -> Option<int> {
    first_object(objects, |o: EditorObject| o.drawn_at(x, y), 0)
}

/// The reference to the found object.
pub open spec fn found(objects: Seq<EditorObject>, at: Option<int>) -> Option<EditorObject> {
    match at {
        Some(i) => Some(objects[i]),
        None => None,
    }
}

pub open spec fn deref_found(r: Option<&EditorObject>) -> Option<EditorObject> {
    match r {
        Some(o) => Some(*o),
        None => None,
    }
}

} // verus!
