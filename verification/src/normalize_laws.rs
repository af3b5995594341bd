use vstd::prelude::*;

use crate::content::{
    joined_lines, law_split_lines_join_again, lemma_split_lines_not_empty, split_lines, LineData,
};
use crate::normalize::{
    digit_value, law_reference_is_read_back, lemma_decimal_is_digits, lemma_numbered_row,
    lemma_place_is_digits, lemma_read_reference_range, lemma_row_of_id_range, normal_number,
    normalized_line, normalized_text, read_reference, reference_at, reference_text,
    written_in_order,
};

verus! {

/// The lines are numbered by their places, counted from one, as they are after
/// a normalized text was set.
pub open spec fn numbered_by_place(data: Seq<LineData>) -> bool {
    forall|i: int| 0 <= i < data.len() ==> (#[trigger] data[i]).line_id == i + 1
}

pub open spec fn without_line_break(line: Seq<char>) -> bool {
    forall|i: int| 0 <= i < line.len() ==> (#[trigger] line[i]) != '\n'
}

/// Every line with its references rewritten.
pub open spec fn normalized_lines(lines: Seq<Seq<char>>, data: Seq<LineData>) -> Seq<Seq<char>> {
    Seq::new(lines.len(), |i: int| normalized_line(lines[i], data, 0))
}

/// Every reference of a line goes to a line whose place is written in order.
pub open spec fn references_in_order(line: Seq<char>, data: Seq<LineData>) -> bool {
    forall|at: int|
        0 <= at < line.len() ==> (#[trigger] reference_at(line, at) matches Some((closing, id))
            ==> written_in_order(normal_number(data, id)))
}

/// Every reference of a line is written as the normalized text writes it: it
/// goes to one of `line_count` lines, has no leading zero, and is the number of
/// a place that is written in order.
pub open spec fn references_normal(line: Seq<char>, line_count: int) -> bool {
    forall|at: int|
        0 <= at < line.len() ==> (#[trigger] reference_at(line, at) matches Some((closing, id))
            ==> {
            &&& id <= line_count
            &&& line.subrange(at, closing + 1) == reference_text(id as nat)
            &&& written_in_order(id as nat)
        })
}

/// What is read depends only on the characters from there on.
proof fn lemma_read_same_rest(a: Seq<char>, i: int, b: Seq<char>, j: int, so_far: int)
    requires
        0 <= i <= a.len(),
        0 <= j <= b.len(),
        a.skip(i) == b.skip(j),
    ensures
        match read_reference(a, i, so_far) {
            Some((closing, id)) => read_reference(b, j, so_far) == Some((closing - i + j, id)),
            None => read_reference(b, j, so_far) is None,
        },
    decreases a.len() - i,
{
    assert(b.skip(j).len() == b.len() - j);
    if i < a.len() {
        assert(b[j] == b.skip(j)[0]);
        assert(a.skip(i + 1) =~= a.skip(i).skip(1));
        assert(b.skip(j + 1) =~= b.skip(j).skip(1));
        lemma_read_same_rest(a, i + 1, b, j + 1, so_far * 10 + digit_value(a[i]));
    }
}

proof fn lemma_normalized_same_rest(
    a: Seq<char>,
    i: int,
    b: Seq<char>,
    j: int,
    data: Seq<LineData>,
)
    requires
        0 <= i <= a.len(),
        0 <= j <= b.len(),
        a.skip(i) == b.skip(j),
    ensures
        normalized_line(a, data, i) == normalized_line(b, data, j),
    decreases a.len() - i,
{
    assert(b.skip(j).len() == b.len() - j);
    if i < a.len() {
        assert(b[j] == b.skip(j)[0]);
        if i + 3 < a.len() {
            assert(b[j + 1] == b.skip(j)[1]);
            assert(a.skip(i + 2) =~= a.skip(i).skip(2));
            assert(b.skip(j + 2) =~= b.skip(j).skip(2));
            lemma_read_same_rest(a, i + 2, b, j + 2, 0);
            lemma_read_reference_range(a, i + 2, 0);
        }
        match reference_at(a, i) {
            Some((closing, id)) => {
                let behind = closing + 1 - i;
                assert(a.skip(i + behind) =~= a.skip(i).skip(behind));
                assert(b.skip(j + behind) =~= b.skip(j).skip(behind));
                lemma_normalized_same_rest(a, closing + 1, b, j + behind, data);
            },
            None => {
                assert(a.skip(i + 1) =~= a.skip(i).skip(1));
                assert(b.skip(j + 1) =~= b.skip(j).skip(1));
                lemma_normalized_same_rest(a, i + 1, b, j + 1, data);
            },
        }
    }
}

/// A character that is kept stands first in what is written.
proof fn lemma_kept_char(line: Seq<char>, data: Seq<LineData>, at: int)
    requires
        0 <= at < line.len(),
        reference_at(line, at) is None,
    ensures
        normalized_line(line, data, at) == seq![line[at]] + normalized_line(line, data, at + 1),
        normalized_line(line, data, at).skip(1) == normalized_line(line, data, at + 1),
{
}

/// An ampersand stands first in what is written for a reference.
proof fn lemma_rewritten_reference(line: Seq<char>, data: Seq<LineData>, at: int)
    requires
        0 <= at < line.len(),
        reference_at(line, at) is Some,
    ensures
        normalized_line(line, data, at).len() > 0,
        normalized_line(line, data, at)[0] == '&',
{
    lemma_read_reference_range(line, at + 2, 0);
}

/// Where a number with its closing bracket is read in what is written, it was
/// in the line before.
proof fn lemma_no_new_number(line: Seq<char>, data: Seq<LineData>, at: int, so_far: int)
    requires
        0 <= at,
    ensures
        read_reference(normalized_line(line, data, at), 0, so_far) is Some ==> read_reference(
            line,
            at,
            so_far,
        ) is Some,
    decreases line.len() - at,
{
    if at < line.len() {
        let written = normalized_line(line, data, at);
        if reference_at(line, at) is Some {
            lemma_rewritten_reference(line, data, at);
        } else {
            lemma_kept_char(line, data, at);
            let next = so_far * 10 + digit_value(line[at]);
            let rest = normalized_line(line, data, at + 1);
            assert(rest.skip(0) =~= written.skip(1));
            lemma_read_same_rest(written, 1, rest, 0, next);
            lemma_no_new_number(line, data, at + 1, next);
        }
    }
}

/// Rewriting references makes no new ones.
proof fn lemma_no_new_reference(line: Seq<char>, data: Seq<LineData>, at: int)
    requires
        0 <= at < line.len(),
        reference_at(line, at) is None,
    ensures
        reference_at(normalized_line(line, data, at), 0) is None,
{
    let written = normalized_line(line, data, at);
    if reference_at(written, 0) is Some {
        lemma_kept_char(line, data, at);
        if reference_at(line, at + 1) is Some {
            lemma_rewritten_reference(line, data, at + 1);
        }
        lemma_kept_char(line, data, at + 1);
        let rest = normalized_line(line, data, at + 2);
        assert(written.skip(2) =~= rest.skip(0));
        lemma_read_same_rest(written, 2, rest, 0, 0);
        lemma_no_new_number(line, data, at + 2, 0);
        if at + 3 >= line.len() {
            if at + 2 < line.len() {
                lemma_kept_char(line, data, at + 2);
            }
        }
    }
}

proof fn lemma_normal_number_range(data: Seq<LineData>, id: int)
    requires
        data.len() >= 1,
    ensures
        1 <= normal_number(data, id) <= data.len(),
{
    lemma_row_of_id_range(data, id, 0);
}

proof fn lemma_rewritten_line_is_stable(
    line: Seq<char>,
    data: Seq<LineData>,
    numbered: Seq<LineData>,
    at: int,
)
    requires
        0 <= at,
        1 <= data.len() <= numbered.len(),
        numbered_by_place(numbered),
        references_in_order(line, data),
    ensures
        normalized_line(normalized_line(line, data, at), numbered, 0) == normalized_line(
            line,
            data,
            at,
        ),
    decreases line.len() - at,
{
    if at < line.len() {
        let written = normalized_line(line, data, at);
        match reference_at(line, at) {
            Some((closing, id)) => {
                lemma_read_reference_range(line, at + 2, 0);
                let number = normal_number(data, id);
                let rest = normalized_line(line, data, closing + 1);
                lemma_normal_number_range(data, id);
                lemma_decimal_is_digits(number);
                law_reference_is_read_back(Seq::empty(), number, rest);
                lemma_numbered_row(numbered, number - 1, 0);
                let behind = reference_text(number).len() as int;
                assert(written.skip(behind) =~= rest.skip(0));
                lemma_normalized_same_rest(written, behind, rest, 0, numbered);
                lemma_rewritten_line_is_stable(line, data, numbered, closing + 1);
            },
            None => {
                lemma_no_new_reference(line, data, at);
                lemma_kept_char(line, data, at);
                let rest = normalized_line(line, data, at + 1);
                assert(written.skip(1) =~= rest.skip(0));
                lemma_kept_char(written, numbered, 0);
                lemma_normalized_same_rest(written, 1, rest, 0, numbered);
                lemma_rewritten_line_is_stable(line, data, numbered, at + 1);
            },
        }
    }
}

/// Normalizing a line that is normalized already, in a text whose lines are
/// numbered by their places, changes nothing, where the places that it refers to
/// are written in order.
pub proof fn law_normalized_line_is_stable(
    line: Seq<char>,
    data: Seq<LineData>,
    numbered: Seq<LineData>,
)
    requires
        1 <= data.len() <= numbered.len(),
        numbered_by_place(numbered),
        references_in_order(line, data),
    ensures
        normalized_line(normalized_line(line, data, 0), numbered, 0) == normalized_line(
            line,
            data,
            0,
        ),
{
    lemma_rewritten_line_is_stable(line, data, numbered, 0);
}

proof fn lemma_written_without_line_break(line: Seq<char>, data: Seq<LineData>, at: int)
    requires
        0 <= at,
        without_line_break(line),
    ensures
        without_line_break(normalized_line(line, data, at)),
    decreases line.len() - at,
{
    if at < line.len() {
        match reference_at(line, at) {
            Some((closing, id)) => {
                lemma_read_reference_range(line, at + 2, 0);
                lemma_place_is_digits(normal_number(data, id));
                lemma_written_without_line_break(line, data, closing + 1);
            },
            None => {
                lemma_written_without_line_break(line, data, at + 1);
            },
        }
    }
}

proof fn lemma_split_extends_last(text: Seq<char>, line: Seq<char>)
    requires
        without_line_break(line),
    ensures
        split_lines(text + line) == split_lines(text).update(
            split_lines(text).len() - 1,
            split_lines(text).last() + line,
        ),
    decreases line.len(),
{
    lemma_split_lines_not_empty(text);
    let before = split_lines(text);
    if line.len() > 0 {
        let shorter = line.drop_last();
        lemma_split_extends_last(text, shorter);
        assert((text + line).drop_last() =~= text + shorter);
        assert(before.last() + line =~= (before.last() + shorter).push(line.last()));
    }
}

proof fn lemma_normalized_text_splits(lines: Seq<Seq<char>>, data: Seq<LineData>, n: int)
    requires
        0 <= n <= lines.len(),
        forall|i: int| 0 <= i < lines.len() ==> without_line_break(#[trigger] lines[i]),
    ensures
        split_lines(normalized_text(lines, data, n)) == normalized_lines(lines, data).take(n).push(
            Seq::empty(),
        ),
    decreases n,
{
    if n > 0 {
        let before = normalized_text(lines, data, n - 1);
        let line = normalized_line(lines[n - 1], data, 0);
        lemma_normalized_text_splits(lines, data, n - 1);
        lemma_written_without_line_break(lines[n - 1], data, 0);
        lemma_split_extends_last(before, line);
        let text = normalized_text(lines, data, n);
        assert(text.drop_last() =~= before + line);
    }
}

/// Setting the normalized text again gives its lines, one by one, and an empty
/// one after them: nothing is lost.
pub proof fn law_normalized_text_is_set_line_by_line(lines: Seq<Seq<char>>, data: Seq<LineData>)
    requires
        forall|i: int| 0 <= i < lines.len() ==> without_line_break(#[trigger] lines[i]),
    ensures
        split_lines(normalized_text(lines, data, lines.len() as int)) == normalized_lines(
            lines,
            data,
        ).push(Seq::empty()),
{
    lemma_normalized_text_splits(lines, data, lines.len() as int);
}

/// A text that was normalized, set, and normalized again is the same, but for
/// the empty line at its end, where the places that it refers to are written in
/// order.
pub proof fn law_normalized_text_is_stable(
    lines: Seq<Seq<char>>,
    data: Seq<LineData>,
    numbered: Seq<LineData>,
)
    requires
        forall|i: int| 0 <= i < lines.len() ==> without_line_break(#[trigger] lines[i]),
        data.len() >= 1,
        data.len() == lines.len(),
        numbered.len() == lines.len() + 1,
        numbered_by_place(numbered),
        forall|i: int| 0 <= i < lines.len() ==> references_in_order(#[trigger] lines[i], data),
    ensures
        ({
            let text = normalized_text(lines, data, lines.len() as int);
            let again = split_lines(text);
            normalized_text(again, numbered, again.len() as int) == text.push('\n')
        }),
{
    let n = lines.len() as int;
    law_normalized_text_is_set_line_by_line(lines, data);
    let again = normalized_lines(lines, data).push(Seq::empty());
    lemma_same_written(lines, data, again, numbered, n);
}

proof fn lemma_same_written(
    lines: Seq<Seq<char>>,
    data: Seq<LineData>,
    again: Seq<Seq<char>>,
    numbered: Seq<LineData>,
    n: int,
)
    requires
        0 <= n <= lines.len() <= again.len(),
        1 <= data.len() <= numbered.len(),
        numbered_by_place(numbered),
        forall|i: int|
            0 <= i < lines.len() ==> (#[trigger] again[i]) == normalized_line(lines[i], data, 0),
        forall|i: int| 0 <= i < lines.len() ==> references_in_order(#[trigger] lines[i], data),
    ensures
        normalized_text(again, numbered, n) == normalized_text(lines, data, n),
    decreases n,
{
    if n > 0 {
        lemma_same_written(lines, data, again, numbered, n - 1);
        law_normalized_line_is_stable(lines[n - 1], data, numbered);
    }
}

proof fn lemma_normal_line_is_kept(line: Seq<char>, data: Seq<LineData>, at: int)
    requires
        0 <= at <= line.len(),
        numbered_by_place(data),
        references_normal(line, data.len() as int),
    ensures
        normalized_line(line, data, at) == line.skip(at),
    decreases line.len() - at,
{
    if at < line.len() {
        match reference_at(line, at) {
            Some((closing, id)) => {
                lemma_read_reference_range(line, at + 2, 0);
                lemma_numbered_row(data, id - 1, 0);
                lemma_normal_line_is_kept(line, data, closing + 1);
                assert(line.skip(at) =~= line.subrange(at, closing + 1) + line.skip(closing + 1));
            },
            None => {
                lemma_normal_line_is_kept(line, data, at + 1);
                assert(line.skip(at) =~= seq![line[at]] + line.skip(at + 1));
            },
        }
    }
}

proof fn lemma_normal_text_is_kept(lines: Seq<Seq<char>>, data: Seq<LineData>, n: int)
    requires
        1 <= n <= lines.len(),
        numbered_by_place(data),
        forall|i: int|
            0 <= i < lines.len() ==> references_normal(#[trigger] lines[i], data.len() as int),
    ensures
        normalized_text(lines, data, n) == joined_lines(lines.take(n)).push('\n'),
    decreases n,
{
    let line = lines[n - 1];
    lemma_normal_line_is_kept(line, data, 0);
    assert(line.skip(0) =~= line);
    if n > 1 {
        lemma_normal_text_is_kept(lines, data, n - 1);
        assert(lines.take(n).drop_last() =~= lines.take(n - 1));
    } else {
        assert(normalized_text(lines, data, 0) + line =~= line);
    }
}

/// In a text whose lines are numbered by their places, as they are after it was
/// set, normalizing changes nothing: what comes out is the text with a line
/// break behind it. This holds where every reference goes to one of the lines,
/// has no leading zero, and is the number of a place that is written in order.
pub proof fn law_normal_text_is_kept(lines: Seq<Seq<char>>, data: Seq<LineData>)
    requires
        numbered_by_place(data),
        1 <= lines.len() == data.len(),
        forall|i: int|
            0 <= i < lines.len() ==> references_normal(#[trigger] lines[i], data.len() as int),
    ensures
        normalized_text(lines, data, lines.len() as int) == joined_lines(lines).push('\n'),
{
    lemma_normal_text_is_kept(lines, data, lines.len() as int);
    assert(lines.take(lines.len() as int) =~= lines);
}

/// A normalized text that was set is given back as it was, with a line break
/// behind it.
pub proof fn law_set_text_is_given_back(text: Seq<char>, data: Seq<LineData>)
    requires
        numbered_by_place(data),
        data.len() == split_lines(text).len(),
        forall|i: int|
            0 <= i < split_lines(text).len() ==> references_normal(
                #[trigger] split_lines(text)[i],
                data.len() as int,
            ),
    ensures
        normalized_text(split_lines(text), data, data.len() as int) == text.push('\n'),
{
    lemma_split_lines_not_empty(text);
    law_normal_text_is_kept(split_lines(text), data);
    law_split_lines_join_again(text);
}

} // verus!
