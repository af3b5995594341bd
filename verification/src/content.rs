use vstd::prelude::*;

use crate::results::ResultFormat;

verus! {

/// What the calculator keeps of a line besides its text. Lines are known by
/// their `line_id`; zero means that none was given yet.
#[derive(Clone, Copy, PartialEq, Eq, Structural, Debug)]
pub struct LineData {
    pub line_id: usize,
    pub result_format: ResultFormat,
}

impl Default for LineData {
    fn default() -> (r: LineData)
        ensures
            r == (LineData { line_id: 0, result_format: ResultFormat::Dec }),
    {
        LineData { line_id: 0, result_format: ResultFormat::Dec }
    }
}

/// The lines of a text joined by line breaks.
pub open spec fn joined_lines(lines: Seq<Seq<char>>) -> Seq<char>
    decreases lines.len(),
{
    if lines.len() == 0 {
        Seq::empty()
    } else if lines.len() == 1 {
        lines[0]
    } else {
        joined_lines(lines.drop_last()).push('\n') + lines.last()
    }
}

/// A text cut at its line breaks.
pub open spec fn split_lines(text: Seq<char>) -> Seq<Seq<char>>
    decreases text.len(),
{
    if text.len() == 0 {
        seq![Seq::<char>::empty()]
    } else {
        let before = split_lines(text.drop_last());
        if text.last() == '\n' {
            before.push(Seq::empty())
        } else {
            before.update(before.len() - 1, before.last().push(text.last()))
        }
    }
}

pub proof fn lemma_split_lines_not_empty(text: Seq<char>)
    ensures
        split_lines(text).len() >= 1,
    decreases text.len(),
{
    if text.len() > 0 {
        lemma_split_lines_not_empty(text.drop_last());
    }
}

pub proof fn lemma_split_lines_len(text: Seq<char>)
    ensures
        split_lines(text).len() <= text.len() + 1,
    decreases text.len(),
{
    if text.len() > 0 {
        lemma_split_lines_len(text.drop_last());
        lemma_split_lines_not_empty(text.drop_last());
    }
}

/// Joining the lines that a text was cut into gives the text back.
pub proof fn law_split_lines_join_again(text: Seq<char>)
    ensures
        joined_lines(split_lines(text)) == text,
    decreases text.len(),
{
    if text.len() > 0 {
        let t = text.drop_last();
        let before = split_lines(t);
        law_split_lines_join_again(t);
        lemma_split_lines_not_empty(t);
        let after = split_lines(text);
        if text.last() == '\n' {
            assert(after.drop_last() =~= before);
        } else {
            assert(after.drop_last() =~= before.drop_last());
            if before.len() > 1 {
                assert(joined_lines(after) =~= joined_lines(before).push(text.last()));
            }
        }
    }
}

/// A text as lines of characters, with a value for each line.
pub struct EditorContent<T> {
    pub lines: Vec<Vec<char>>,
    pub data: Vec<T>,
}

impl<T: Copy> EditorContent<T> {
    /// There is at least one line, and each has its value.
    pub open spec fn wf(self) -> bool {
        &&& self.lines@.len() >= 1
        &&& self.data@.len() == self.lines@.len()
    }

    pub open spec fn text_lines(self) -> Seq<Seq<char>> {
        Seq::new(self.lines@.len(), |i: int| self.lines@[i]@)
    }

    /// An empty text.
    pub fn new(blank: T) -> (r: EditorContent<T>)
        ensures
            r.wf(),
            r.text_lines() == seq![Seq::<char>::empty()],
            r.data@ == seq![blank],
    {
        let mut lines: Vec<Vec<char>> = Vec::new();
        lines.push(Vec::new());
        let mut data: Vec<T> = Vec::new();
        data.push(blank);
        EditorContent { lines, data }
    }

    pub fn line_count(&self) -> (r: usize)
        ensures
            r == self.lines@.len(),
    {
        self.lines.len()
    }

    pub fn line_len(&self, row: usize) -> (r: usize)
        requires
            row < self.lines@.len(),
        ensures
            r == self.lines@[row as int]@.len(),
    {
        self.lines[row].len()
    }

    pub fn get_line_valid_chars(&self, row: usize) -> (r: &[char])
        requires
            row < self.lines@.len(),
        ensures
            r@ == self.lines@[row as int]@,
    {
        self.lines[row].as_slice()
    }

    pub fn get_data(&self, row: usize) -> (r: &T)
        requires
            row < self.data@.len(),
        ensures
            *r == self.data@[row as int],
    {
        &self.data[row]
    }

    /// Stores the value of a line.
    pub fn set_data(&mut self, row: usize, value: T)
        requires
            row < old(self).data@.len(),
        ensures
            final(self).data@ == old(self).data@.update(row as int, value),
            final(self).lines == old(self).lines,
    {
        self.data[row] = value;
    }

    /// Replaces the text. Each line gets `blank` as its value.
    pub fn set_content(&mut self, text: &str, blank: T)
        ensures
            final(self).wf(),
            final(self).text_lines() == split_lines(text@),
            forall|i: int|
                0 <= i < final(self).data@.len() ==> (#[trigger] final(self).data@[i]) == blank,
    {
        let mut lines: Vec<Vec<char>> = Vec::new();
        let mut data: Vec<T> = Vec::new();
        let mut line: Vec<char> = Vec::new();
        data.push(blank);
        let ghost mut seen: Seq<char> = Seq::empty();
        for ch in it: text.chars()
            invariant
                it.seq() == text@,
                seen == text@.take(it.index() as int),
                data@.len() == lines@.len() + 1,
                forall|i: int| 0 <= i < data@.len() ==> (#[trigger] data@[i]) == blank,
                split_lines(seen) == Seq::new(lines@.len(), |i: int| lines@[i]@).push(line@),
        {
            let ghost before = seen;
            proof {
                seen = seen.push(ch);
                assert(seen.drop_last() =~= before);
            }
            if ch == '\n' {
                lines.push(line);
                data.push(blank);
                line = Vec::new();
            } else {
                line.push(ch);
            }
        }
        assert(seen =~= text@);
        lines.push(line);
        self.lines = lines;
        self.data = data;
    }

    /// Appends the text to `out`.
    pub fn write_content_into(&self, out: &mut String)
        ensures
            final(out)@ == old(out)@ + joined_lines(self.text_lines()),
    {
        let ghost all = self.text_lines();
        let ghost start = out@;
        let mut i: usize = 0;
        while i < self.lines.len()
            invariant
                i <= self.lines@.len(),
                all == self.text_lines(),
                out@ == start + joined_lines(all.take(i as int)),
            decreases self.lines@.len() - i,
        {
            if i > 0 {
                out.push('\n');
            }
            let line = &self.lines[i];
            let ghost base = out@;
            let mut j: usize = 0;
            while j < line.len()
                invariant
                    j <= line@.len(),
                    out@ == base + line@.take(j as int),
                decreases line@.len() - j,
            {
                out.push(line[j]);
                j += 1;
            }
            assert(all.take(i as int + 1).drop_last() =~= all.take(i as int));
            i += 1;
        }
        assert(all.take(i as int) =~= all);
    }

    /// The whole text.
    pub fn get_content(&self) -> (r: String)
        ensures
            r@ == joined_lines(self.text_lines()),
    {
        let mut out = String::new();
        self.write_content_into(&mut out);
        out
    }
}

} // verus!
