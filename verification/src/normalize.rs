use vstd::prelude::*;

use crate::app::NoteCalcApp;
use crate::content::LineData;

verus! {

pub open spec fn is_digit(ch: char) -> bool {
    '0' <= ch && ch <= '9'
}

pub open spec fn digit_value(ch: char) -> int {
    ch as int - '0' as int
}

pub open spec fn digit_of(value: int) -> char {
    (48 + value) as char
}

/// A number written in decimal.
pub open spec fn decimal(n: nat) -> Seq<char>
    decreases n,
{
    if n < 10 {
        seq![digit_of(n as int)]
    } else {
        decimal(n / 10).push(digit_of((n % 10) as int))
    }
}

/// The text that refers to a line by a number.
pub open spec fn reference_text(number: nat) -> Seq<char> {
    seq!['&', '['] + decimal(number) + seq![']']
}

/// The digits of a number, from the last one to the first.
pub open spec fn digits_from_last(n: nat) -> Seq<char>
    decreases n,
{
    if n < 10 {
        seq![digit_of(n as int)]
    } else {
        seq![digit_of((n % 10) as int)] + digits_from_last(n / 10)
    }
}

/// How far before the last digit the one stands that it changes places with.
pub open spec fn exchange_distance(place: nat) -> int {
    if place > 99 {
        2
    } else if place > 9 {
        1
    } else {
        0
    }
}

/// How the normalized text writes the place of a line: the digits from the last
/// one to the first, of which two then change places. That puts up to three
/// digits into their order, and no more than three: the place 1234 is written
/// as 4123.
pub open spec fn place_digits(place: nat) -> Seq<char> {
    let digits = digits_from_last(place);
    let last = digits.len() - 1;
    let other = last - exchange_distance(place);
    digits.update(last, digits[other]).update(other, digits[last])
}

/// The text by which the normalized text refers to the line at a place.
pub open spec fn place_text(place: nat) -> Seq<char> {
    seq!['&', '['] + place_digits(place) + seq![']']
}

/// A place is written as its decimal number, so that it is read back as itself.
pub open spec fn written_in_order(place: nat) -> bool {
    place_digits(place) == decimal(place)
}

/// Reads the number of a reference from place `at` on, `so_far` being the value
/// of the digits before. Gives the place of the closing bracket and the number,
/// where there is one and it is not zero.
pub open spec fn read_reference(line: Seq<char>, at: int, so_far: int) -> Option<(int, int)>
    decreases line.len() - at,
{
    if at < 0 || at >= line.len() {
        None
    } else if line[at] == ']' && so_far > 0 {
        Some((at, so_far))
    } else if is_digit(line[at]) {
        read_reference(line, at + 1, so_far * 10 + digit_value(line[at]))
    } else {
        None
    }
}

/// The number can be counted with while it is read.
pub open spec fn number_fits(line: Seq<char>, at: int, so_far: int) -> bool
    decreases line.len() - at,
{
    if at < 0 || at >= line.len() || !is_digit(line[at]) {
        true
    } else {
        &&& so_far * 10 + digit_value(line[at]) <= u32::MAX
        &&& number_fits(line, at + 1, so_far * 10 + digit_value(line[at]))
    }
}

/// A reference may start here: an ampersand, a bracket, and room for more.
pub open spec fn reference_opens(line: Seq<char>, at: int) -> bool {
    at + 3 < line.len() && line[at] == '&' && line[at + 1] == '['
}

/// The reference at this place of a line, if there is one.
pub open spec fn reference_at(line: Seq<char>, at: int) -> Option<(int, int)> {
    if reference_opens(line, at) {
        read_reference(line, at + 2, 0)
    } else {
        None
    }
}

/// The first line, from `from` on, with this id.
pub open spec fn row_of_id(data: Seq<LineData>, id: int, from: int) -> Option<int>
    decreases data.len() - from,
{
    if from < 0 || from >= data.len() {
        None
    } else if data[from].line_id == id {
        Some(from)
    } else {
        row_of_id(data, id, from + 1)
    }
}

/// The number by which the normalized text refers to the line with this id: its
/// place, counted from one. An id that no line has stands for the first line.
pub open spec fn normal_number(data: Seq<LineData>, id: int) -> nat {
    match row_of_id(data, id, 0) {
        Some(row) => (row + 1) as nat,
        None => 1,
    }
}

/// A line from place `at` on, with its references rewritten.
pub open spec fn normalized_line(line: Seq<char>, data: Seq<LineData>, at: int) -> Seq<char>
    decreases line.len() - at,
{
    if at < 0 || at >= line.len() {
        Seq::empty()
    } else {
        match reference_at(line, at) {
            Some((closing, id)) => if at < closing < line.len() {
                place_text(normal_number(data, id)) + normalized_line(line, data, closing + 1)
            } else {
                Seq::empty()
            },
            None => seq![line[at]] + normalized_line(line, data, at + 1),
        }
    }
}

/// The first `n` lines with their references rewritten, each ended by a line break.
pub open spec fn normalized_text(lines: Seq<Seq<char>>, data: Seq<LineData>, n: int) -> Seq<char>
    decreases n,
{
    if n <= 0 {
        Seq::empty()
    } else {
        (normalized_text(lines, data, n - 1) + normalized_line(lines[n - 1], data, 0)).push('\n')
    }
}

/// No number after an opened reference is too large.
pub open spec fn numbers_fit(lines: Seq<Seq<char>>) -> bool {
    forall|row: int, at: int|
        0 <= row < lines.len() && 0 <= at && #[trigger] reference_opens(lines[row], at)
            ==> number_fits(lines[row], at + 2, 0)
}

pub(crate) proof fn lemma_read_reference_range(line: Seq<char>, at: int, so_far: int)
    requires
        0 <= at,
        0 <= so_far,
    ensures
        read_reference(line, at, so_far) matches Some((closing, id)) ==> at <= closing < line.len()
            && id > 0,
    decreases line.len() - at,
{
    if at < line.len() && !(line[at] == ']' && so_far > 0) && is_digit(line[at]) {
        lemma_read_reference_range(line, at + 1, so_far * 10 + digit_value(line[at]));
    }
}

/// In a text whose lines are numbered from one on, every line is found by its
/// place: the place that the normalized text refers to is that of the same line
/// after the text was set again.
pub proof fn law_normalized_reference_keeps_its_line(
    data: Seq<LineData>,
    renumbered: Seq<LineData>,
    id: int,
)
    requires
        row_of_id(data, id, 0) is Some,
        renumbered.len() >= data.len(),
        forall|i: int| 0 <= i < renumbered.len() ==> (#[trigger] renumbered[i]).line_id == i + 1,
    ensures
        row_of_id(renumbered, normal_number(data, id) as int, 0) == row_of_id(data, id, 0),
{
    lemma_row_of_id_range(data, id, 0);
    lemma_numbered_row(renumbered, row_of_id(data, id, 0).unwrap(), 0);
}

pub(crate) proof fn lemma_row_of_id_range(data: Seq<LineData>, id: int, from: int)
    requires
        0 <= from,
    ensures
        row_of_id(data, id, from) matches Some(row) ==> from <= row < data.len()
            && data[row].line_id == id,
    decreases data.len() - from,
{
    if from < data.len() && data[from].line_id != id {
        lemma_row_of_id_range(data, id, from + 1);
    }
}

pub(crate) proof fn lemma_numbered_row(numbered: Seq<LineData>, row: int, from: int)
    requires
        0 <= from <= row < numbered.len(),
        forall|i: int| 0 <= i < numbered.len() ==> (#[trigger] numbered[i]).line_id == i + 1,
    ensures
        row_of_id(numbered, row + 1, from) == Some(row),
    decreases row - from,
{
    if from < row {
        lemma_numbered_row(numbered, row, from + 1);
    }
}

pub(crate) proof fn lemma_decimal_is_digits(n: nat)
    ensures
        decimal(n).len() >= 1,
        forall|i: int| 0 <= i < decimal(n).len() ==> is_digit(#[trigger] decimal(n)[i]),
    decreases n,
{
    if n >= 10 {
        lemma_decimal_is_digits(n / 10);
    }
}

proof fn lemma_digits_from_last(n: nat)
    ensures
        digits_from_last(n).len() >= 1,
        n > 9 ==> digits_from_last(n).len() >= 2,
        n > 99 ==> digits_from_last(n).len() >= 3,
        forall|i: int|
            0 <= i < digits_from_last(n).len() ==> is_digit(#[trigger] digits_from_last(n)[i]),
    decreases n,
{
    if n >= 10 {
        lemma_digits_from_last(n / 10);
    }
}

pub(crate) proof fn lemma_place_is_digits(place: nat)
    ensures
        place_digits(place).len() >= 1,
        forall|i: int|
            0 <= i < place_digits(place).len() ==> is_digit(#[trigger] place_digits(place)[i]),
{
    lemma_digits_from_last(place);
}

/// Places of up to three digits are written in decimal.
pub proof fn law_short_places_are_written_in_order(place: nat)
    requires
        place < 1000,
    ensures
        written_in_order(place),
        place_text(place) == reference_text(place),
{
    reveal_with_fuel(digits_from_last, 3);
    reveal_with_fuel(decimal, 3);
    assert(place_digits(place) =~= decimal(place));
}

/// The number that is read from the digits of a number, after others.
proof fn lemma_decimal_is_read(line: Seq<char>, at: int, n: nat)
    requires
        0 <= at,
        at + decimal(n).len() < line.len(),
        line.subrange(at, at + decimal(n).len() as int) == decimal(n),
        line[at + decimal(n).len() as int] == ']',
        n > 0,
    ensures
        read_reference(line, at, 0) == Some((at + decimal(n).len() as int, n as int)),
    decreases n,
{
    lemma_digits_are_read(line, at, n, at + decimal(n).len() as int);
}

proof fn lemma_digits_are_read(line: Seq<char>, at: int, n: nat, end: int)
    requires
        0 <= at,
        end == at + decimal(n).len(),
        end < line.len(),
        line.subrange(at, end) == decimal(n),
    ensures
        read_reference(line, at, 0) == read_reference(line, end, n as int),
    decreases n,
{
    lemma_decimal_is_digits(n);
    let last = end - 1;
    assert(line[last] == line.subrange(at, end)[last - at]);
    if n >= 10 {
        assert(line.subrange(at, last) =~= decimal(n / 10));
        lemma_digits_are_read(line, at, n / 10, last);
    }
}

/// A reference that was written is read back, wherever it stands in a line: its
/// number, and where it closes.
pub proof fn law_reference_is_read_back(before: Seq<char>, number: nat, after: Seq<char>)
    requires
        number > 0,
    ensures
        reference_at(before + reference_text(number) + after, before.len() as int) == Some(
            (before.len() + 2 + decimal(number).len() as int, number as int),
        ),
{
    let line = before + reference_text(number) + after;
    let at = before.len() as int;
    let digits = decimal(number);
    lemma_decimal_is_digits(number);
    assert(line.subrange(at + 2, at + 2 + digits.len() as int) =~= digits);
    lemma_decimal_is_read(line, at + 2, number);
}

/// Writes a number in decimal.
pub fn decimal_string(n: usize) -> (r: String)
    ensures
        r@ == decimal(n as nat),
    decreases n,
{
    if n < 10 {
        let mut text = String::new();
        text.push((48 + n as u8) as char);
        text
    } else {
        let mut text = decimal_string(n / 10);
        text.push((48 + (n % 10) as u8) as char);
        text
    }
}

/// Writes the text that refers to a line.
pub fn reference_string(number: usize) -> (r: String)
    ensures
        r@ == reference_text(number as nat),
{
    let mut text = String::new();
    text.push('&');
    text.push('[');
    text.append(decimal_string(number).as_str());
    text.push(']');
    text
}

/// The digits of the place of a line, as the normalized text writes them.
fn place_digits_of(place: usize) -> (r: Vec<char>)
    ensures
        r@ == place_digits(place as nat),
{
    let mut digits: Vec<char> = Vec::new();
    let mut rest = place;
    while rest >= 10
        invariant
            digits_from_last(place as nat) == digits@ + digits_from_last(rest as nat),
        decreases rest,
    {
        digits.push((48 + (rest % 10) as u8) as char);
        rest = rest / 10;
    }
    digits.push((48 + rest as u8) as char);
    assert(digits@ =~= digits_from_last(place as nat));
    proof {
        lemma_digits_from_last(place as nat);
    }
    let distance: usize = if place > 99 {
        2
    } else if place > 9 {
        1
    } else {
        0
    };
    let last: usize = digits.len() - 1;
    let other: usize = last - distance;
    let last_digit = digits[last];
    let other_digit = digits[other];
    digits.set(last, other_digit);
    digits.set(other, last_digit);
    digits
}

/// Writes the text by which the normalized text refers to the line at a place.
pub fn place_string(place: usize) -> (r: String)
    ensures
        r@ == place_text(place as nat),
{
    let mut text = String::new();
    text.push('&');
    text.push('[');
    let digits = place_digits_of(place);
    let mut i: usize = 0;
    while i < digits.len()
        invariant
            i <= digits@.len(),
            text@ == seq!['&', '['] + digits@.take(i as int),
        decreases digits@.len() - i,
    {
        text.push(digits[i]);
        i += 1;
    }
    assert(digits@.take(i as int) =~= digits@);
    text.push(']');
    text
}

fn to_digit(ch: char) -> (r: Option<u32>)
    ensures
        is_digit(ch) ==> r == Some(digit_value(ch) as u32),
        !is_digit(ch) ==> r is None,
{
    if '0' <= ch && ch <= '9' {
        Some(ch as u32 - 48)
    } else {
        None
    }
}

impl NoteCalcApp {
    /// The place, counted from one, of the first line with this id; one where no
    /// line has it.
    fn normal_number_of(&self, id: u32) -> (r: usize)
        requires
            self.editor_content.data@.len() < usize::MAX,
        ensures
            r == normal_number(self.editor_content.data@, id as int),
    {
        let data = &self.editor_content.data;
        let mut row: usize = 0;
        while row < data.len()
            invariant
                row <= data@.len(),
                data@ == self.editor_content.data@,
                data@.len() < usize::MAX,
                row_of_id(data@, id as int, 0) == row_of_id(data@, id as int, row as int),
            decreases data@.len() - row,
        {
            if data[row].line_id == id as usize {
                return row + 1;
            }
            row += 1;
        }
        1
    }

    /// The text with every reference written as the place of its line. A text
    /// that was set as normalized has its lines numbered by their places, so
    /// this is what can be stored and set again, as long as no reference goes
    /// beyond line 999.
    pub fn get_normalized_content(&self) -> (r: String)
        requires
            numbers_fit(self.editor_content.text_lines()),
            self.editor_content.data@.len() < usize::MAX,
        ensures
            r@ == normalized_text(
                self.editor_content.text_lines(),
                self.editor_content.data@,
                self.editor_content.lines@.len() as int,
            ),
    {
        let ghost lines = self.editor_content.text_lines();
        let ghost data = self.editor_content.data@;
        let mut result = String::new();
        let mut row: usize = 0;
        while row < self.editor_content.lines.len()
            invariant
                row <= self.editor_content.lines@.len(),
                lines == self.editor_content.text_lines(),
                data == self.editor_content.data@,
                data.len() < usize::MAX,
                numbers_fit(lines),
                result@ == normalized_text(lines, data, row as int),
            decreases self.editor_content.lines@.len() - row,
        {
            let line = &self.editor_content.lines[row];
            let ghost before = result@;
            let ghost whole = before + normalized_line(line@, data, 0);
            assert(line.len() == line@.len());
            let mut i: usize = 0;
            while i < line.len()
                invariant
                    i <= line@.len() <= usize::MAX,
                    line@ == lines[row as int],
                    row < lines.len(),
                    data == self.editor_content.data@,
                    data.len() < usize::MAX,
                    numbers_fit(lines),
                    whole == result@ + normalized_line(line@, data, i as int),
                decreases line@.len() - i,
            {
                let mut reference: Option<(usize, u32)> = None;
                if line.len() - i > 3 && line[i] == '&' && line[i + 1] == '[' {
                    let mut end: usize = i + 2;
                    let mut num: u32 = 0;
                    while end < line.len()
                        invariant_except_break
                            reference is None,
                            read_reference(line@, i + 2, 0) == read_reference(
                                line@,
                                end as int,
                                num as int,
                            ),
                        invariant
                            i + 2 <= end <= line@.len(),
                            number_fits(line@, end as int, num as int),
                        ensures
                            match reference {
                                Some((end, num)) => read_reference(line@, i + 2, 0) == Some(
                                    (end as int, num as int),
                                ),
                                None => read_reference(line@, i + 2, 0) is None,
                            },
                        decreases line@.len() - end,
                    {
                        if line[end] == ']' && num > 0 {
                            reference = Some((end, num));
                            break ;
                        }
                        match to_digit(line[end]) {
                            Some(digit) => {
                                num = num * 10 + digit;
                            },
                            None => {
                                break ;
                            },
                        }
                        end += 1;
                    }
                    proof {
                        lemma_read_reference_range(line@, i + 2, 0);
                    }
                }
                match reference {
                    Some((end, num)) => {
                        let row_index = self.normal_number_of(num);
                        let text = place_string(row_index);
                        result.append(text.as_str());
                        i = end + 1;
                    },
                    None => {
                        result.push(line[i]);
                        i += 1;
                    },
                }
            }
            result.push('\n');
            row += 1;
        }
        result
    }
}

} // verus!
