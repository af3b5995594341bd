use vstd::prelude::*;

use crate::editor::RowModificationType;
use crate::normalize::{decimal, lemma_decimal_is_digits, reference_text};
use crate::results::{
    line_result_view, value_view, variables_view, CalcResult, CalcResultView, EvaluationResult,
    Variable,
};
use crate::tokens::Tokens;
use crate::update::{
    assigned_name, first_equals, first_not_blank, is_assignment, is_comment, starts_with_dashes,
    without_blank_end, without_line, UpdateAction, UpdateEvent, UpdateStage, UpdateState,
};

verus! {

/// Only the first characters of a line keep it from being taken apart: two
/// dashes, or an apostrophe. Two dashes alone start a new sum.
pub proof fn law_comments_are_told_by_their_first_characters(line: Seq<char>)
    ensures
        is_comment(line) <==> (line.len() >= 2 && line[0] == '-' && line[1] == '-')
            || (line.len() >= 1 && line[0] == '\''),
        starts_with_dashes(line) <==> line.len() >= 2 && line[0] == '-' && line[1] == '-',
        line.len() >= 1 && line[0] == '-' && (line.len() == 1 || line[1] != '-')
            ==> !is_comment(line) && !starts_with_dashes(line),
{
}

/// An edited line is asked to be taken apart, unless it starts with two dashes
/// or an apostrophe; then it has no tokens and no result and is one row tall. A
/// line that was not edited is passed over.
pub proof fn law_edited_lines_are_taken_apart<'b>(
    before: UpdateState<'b>,
    event: UpdateEvent<'b>,
    after: UpdateState<'b>,
    action: UpdateAction,
)
    requires
        before.wf(),
        before.awaits(event),
        before.stepped(event, after, action),
        before.update.stage == UpdateStage::Line,
        before.update.editor_y < before.app.editor_content.lines@.len(),
    ensures
        ({
            let y = before.update.editor_y as int;
            let line = before.app.editor_content.lines@[y]@;
            let comment = line.len() >= 2 && line[0] == '-' && line[1] == '-' || line.len() >= 1
                && line[0] == '\'';
            let edited = match before.update.effect {
                RowModificationType::SingleLine(row) => row == y,
                RowModificationType::AllLinesFrom(row) => row <= y,
            };
            &&& after.update.editor_y == y
            &&& after.update.sum_is_null == before.update.sum_is_null
            &&& edited && !comment ==> {
                &&& action == UpdateAction::Parse(y as usize)
                &&& after.update.stage == UpdateStage::Parsing
                &&& after.tokens == before.tokens
                &&& after.results == before.results
            }
            &&& edited && comment ==> {
                &&& action == UpdateAction::Proceed
                &&& after.update.stage == UpdateStage::Summing
                &&& after.tokens[y] is None
                &&& after.results[y] == Ok::<Option<CalcResult>, ()>(None)
                &&& y < after.app.render_data@.heights.len() ==> after.app.render_data@.heights[y]
                    == 1
            }
            &&& !edited ==> {
                &&& action == UpdateAction::Proceed
                &&& after.update.stage == UpdateStage::Summing
                &&& after.tokens == before.tokens
                &&& after.results == before.results
                &&& after.vars == before.vars
                &&& after.app == before.app
            }
        }),
{
}

/// An edited line without an id is given the next one; every other line keeps
/// the id that it has.
pub proof fn law_lines_are_given_the_next_id<'b>(
    before: UpdateState<'b>,
    event: UpdateEvent<'b>,
    after: UpdateState<'b>,
    action: UpdateAction,
)
    requires
        before.wf(),
        before.awaits(event),
        before.stepped(event, after, action),
    ensures
        ({
            let y = before.update.editor_y as int;
            let had = before.app.editor_content.data@;
            let has = after.app.editor_content.data@;
            let next = before.app.line_id_generator;
            &&& has.len() == had.len()
            &&& forall|i: int|
                #![trigger has[i]]
                0 <= i < had.len() ==> {
                    &&& has[i].result_format == had[i].result_format
                    &&& has[i].line_id == had[i].line_id || (i == y && had[i].line_id == 0
                        && has[i].line_id == next && after.app.line_id_generator == next + 1)
                }
            &&& action == UpdateAction::Parse(before.update.editor_y) ==> (has[y].line_id != 0
                || next == 0)
            &&& (forall|i: int| 0 <= i < had.len() ==> #[trigger] has[i] == had[i])
                && next != 0 ==> after.app.line_id_generator == next
        }),
{
}

proof fn lemma_without_line_is_filter(vars: Seq<Variable>, row: int)
    ensures
        without_line(vars, row) == vars.filter(
            |var: Variable| var.name@ == seq!['s', 'u', 'm'] || var.defined_at_row != row,
        ),
    decreases vars.len(),
{
    reveal(Seq::filter);
    if vars.len() > 0 {
        lemma_without_line_is_filter(vars.drop_last(), row);
    }
}

/// Before an edited line is evaluated, the variables that it defined are
/// forgotten, and no others: not those of other lines, and not the running sum.
pub proof fn law_line_forgets_its_variables<'b>(
    before: UpdateState<'b>,
    event: UpdateEvent<'b>,
    after: UpdateState<'b>,
    action: UpdateAction,
)
    requires
        before.wf(),
        before.awaits(event),
        before.stepped(event, after, action),
        before.update.stage == UpdateStage::Line,
        before.update.editor_y < before.app.editor_content.lines@.len(),
        match before.update.effect {
            RowModificationType::SingleLine(row) => row == before.update.editor_y,
            RowModificationType::AllLinesFrom(row) => row <= before.update.editor_y,
        },
    ensures
        after.vars == before.vars.filter(
            |var: Variable|
                var.name@ == seq!['s', 'u', 'm'] || var.defined_at_row != before.update.editor_y,
        ),
{
    lemma_without_line_is_filter(before.vars, before.update.editor_y as int);
}

/// What a line was evaluated to is stored as its result, and as the value of
/// one new variable: under the name that the line assigns it to, or else under
/// the name by which other lines refer to the line. A line without a value adds
/// no variable.
pub proof fn law_evaluation_is_stored<'b>(
    before: UpdateState<'b>,
    tokens: Tokens<'b>,
    evaluation: Result<Option<EvaluationResult>, ()>,
    after: UpdateState<'b>,
    action: UpdateAction,
)
    requires
        before.wf(),
        before.update.stage == UpdateStage::Parsing,
        before.awaits(UpdateEvent::Parsed { tokens, evaluation }),
        before.stepped(UpdateEvent::Parsed { tokens, evaluation }, after, action),
    ensures
        ({
            let y = before.update.editor_y as int;
            let count = before.vars.len() as int;
            &&& action == UpdateAction::Proceed
            &&& after.update.stage == UpdateStage::Summing
            &&& after.update.editor_y == y
            &&& after.tokens[y] == Some(tokens)
            &&& match evaluation {
                Err(_) => line_result_view(after.results[y]) is Err,
                Ok(None) => line_result_view(after.results[y]) == Ok::<
                    Option<CalcResultView>,
                    (),
                >(None),
                Ok(Some(evaluated)) => line_result_view(after.results[y]) == Ok::<
                    Option<CalcResultView>,
                    (),
                >(Some(evaluated.result@)),
            }
            &&& match evaluation {
                Ok(Some(evaluated)) => {
                    &&& after.vars.len() == count + 1
                    &&& after.vars[count].defined_at_row == y
                    &&& value_view(after.vars[count].value) == Ok::<CalcResultView, ()>(
                        evaluated.result@,
                    )
                    &&& evaluated.assignment ==> after.vars[count].name@ == assigned_name(
                        before.app.editor_content.lines@[y]@,
                    )
                    &&& !evaluated.assignment ==> after.vars[count].name@ == reference_text(
                        before.app.editor_content.data@[y].line_id as nat,
                    )
                },
                _ => after.vars.len() == count,
            }
            &&& forall|i: int|
                0 <= i < count ==> (#[trigger] variables_view(after.vars)[i])
                    == variables_view(before.vars)[i]
        }),
{
    assert(variables_view(after.vars).len() == after.vars.len());
    if evaluation matches Ok(Some(_)) {
        let count = before.vars.len() as int;
        assert(variables_view(after.vars)[count] == after.vars[count]@);
    }
}

/// The character is one of the blanks of ASCII.
pub open spec fn is_blank(ch: char) -> bool {
    ch == ' ' || ch == '\t' || ch == '\n' || ch == '\r' || ch == '\u{C}'
}

pub open spec fn all_blank(text: Seq<char>) -> bool {
    forall|i: int| 0 <= i < text.len() ==> is_blank(#[trigger] text[i])
}

proof fn lemma_first_not_blank_after(line: Seq<char>, from: int, end: int)
    requires
        0 <= from <= end < line.len(),
        forall|i: int| from <= i < end ==> is_blank(#[trigger] line[i]),
        !is_blank(line[end]),
    ensures
        first_not_blank(line, from) == end,
    decreases end - from,
{
    if from < end {
        lemma_first_not_blank_after(line, from + 1, end);
    }
}

proof fn lemma_first_equals_after(line: Seq<char>, from: int, end: int)
    requires
        0 <= from <= end < line.len(),
        forall|i: int| from <= i < end ==> (#[trigger] line[i]) != '=',
        line[end] == '=',
    ensures
        first_equals(line, from) == end,
    decreases end - from,
{
    if from < end {
        lemma_first_equals_after(line, from + 1, end);
    }
}

proof fn lemma_without_blank_end(name: Seq<char>, blanks: Seq<char>)
    requires
        name.len() >= 1,
        !is_blank(name.last()),
        all_blank(blanks),
    ensures
        without_blank_end(name + blanks) == name,
    decreases blanks.len(),
{
    let text = name + blanks;
    if blanks.len() > 0 {
        assert(is_blank(blanks[blanks.len() - 1]));
        assert(text.drop_last() =~= name + blanks.drop_last());
        lemma_without_blank_end(name, blanks.drop_last());
    } else {
        assert(text =~= name);
    }
}

/// A line assigns its value to what stands before its first equals sign,
/// without the blanks on both sides.
pub proof fn law_assigned_name_stands_before_the_equals_sign(
    before: Seq<char>,
    name: Seq<char>,
    behind: Seq<char>,
    rest: Seq<char>,
)
    requires
        all_blank(before),
        all_blank(behind),
        name.len() >= 1,
        !is_blank(name[0]),
        !is_blank(name.last()),
        forall|i: int| 0 <= i < name.len() ==> (#[trigger] name[i]) != '=',
    ensures
        is_assignment(before + name + behind + seq!['='] + rest),
        assigned_name(before + name + behind + seq!['='] + rest) == name,
{
    let line = before + name + behind + seq!['='] + rest;
    let start = before.len() as int;
    let equals = start + name.len() + behind.len();
    assert(line[start] == name[0]);
    assert forall|i: int| 0 <= i < start implies is_blank(#[trigger] line[i]) by {
        assert(line[i] == before[i]);
    }
    lemma_first_not_blank_after(line, 0, start);
    assert forall|i: int| start <= i < equals implies (#[trigger] line[i]) != '=' by {
        if i < start + name.len() {
            assert(line[i] == name[i - start]);
        } else {
            assert(line[i] == behind[i - start - name.len()]);
            assert(is_blank(behind[i - start - name.len()]));
        }
    }
    lemma_first_equals_after(line, start, equals);
    assert(line.subrange(start, equals) =~= name + behind);
    lemma_without_blank_end(name, behind);
}

/// The value of digits, read from left to right.
pub open spec fn value_of_digits(digits: Seq<char>) -> int
    decreases digits.len(),
{
    if digits.len() == 0 {
        0
    } else {
        10 * value_of_digits(digits.drop_last()) + (digits.last() as int - '0' as int)
    }
}

proof fn lemma_decimal_value(n: nat)
    ensures
        value_of_digits(decimal(n)) == n,
        n > 0 ==> decimal(n)[0] != '0',
    decreases n,
{
    let digits = decimal(n);
    lemma_decimal_is_digits(n);
    if n >= 10 {
        lemma_decimal_value(n / 10);
        lemma_decimal_is_digits(n / 10);
        assert(digits.drop_last() =~= decimal(n / 10));
    } else {
        assert(digits.drop_last() =~= Seq::empty());
        assert(value_of_digits(digits.drop_last()) == 0);
    }
}

/// A line is referred to by an ampersand and its number in brackets: decimal
/// digits of that value, of which the first is no zero.
pub proof fn law_reference_text_is_the_number_in_brackets(number: nat)
    requires
        number > 0,
    ensures
        ({
            let text = reference_text(number);
            let digits = text.subrange(2, text.len() - 1);
            &&& text.len() >= 4
            &&& text[0] == '&'
            &&& text[1] == '['
            &&& text.last() == ']'
            &&& forall|i: int| 0 <= i < digits.len() ==> '0' <= (#[trigger] digits[i]) <= '9'
            &&& digits[0] != '0'
            &&& value_of_digits(digits) == number
        }),
{
    lemma_decimal_is_digits(number);
    lemma_decimal_value(number);
    let text = reference_text(number);
    let digits = text.subrange(2, text.len() - 1);
    assert(digits =~= decimal(number));
}

/// The result of a line goes into the running sum. It starts the sum where
/// there was none yet, or where the line itself starts with two dashes; else it
/// is asked to be added, unless the sum failed before. A line without a result
/// leaves the value of the sum alone.
pub proof fn law_result_goes_into_the_sum<'b>(
    before: UpdateState<'b>,
    event: UpdateEvent<'b>,
    after: UpdateState<'b>,
    action: UpdateAction,
)
    requires
        before.wf(),
        before.awaits(event),
        before.stepped(event, after, action),
        before.update.stage == UpdateStage::Summing,
    ensures
        ({
            let y = before.update.editor_y as int;
            let line = before.app.editor_content.lines@[y]@;
            let dashes = line.len() >= 2 && line[0] == '-' && line[1] == '-';
            let sum_before = value_view(before.vars[0].value);
            let sum_after = value_view(after.vars[0].value);
            &&& after.app == before.app
            &&& after.results == before.results
            &&& after.tokens == before.tokens
            &&& after.vars.len() == before.vars.len()
            &&& match line_result_view(before.results[y]) {
                Ok(Some(value)) => {
                    &&& before.update.sum_is_null || dashes ==> {
                        &&& action == UpdateAction::Proceed
                        &&& sum_after == Ok::<CalcResultView, ()>(value)
                        &&& !after.update.sum_is_null
                        &&& after.update.editor_y == y + 1
                    }
                    &&& !before.update.sum_is_null && !dashes && sum_before is Ok ==> {
                        &&& action == UpdateAction::Add(y as usize)
                        &&& sum_after == sum_before
                        &&& after.update.stage == UpdateStage::Adding
                        &&& after.update.editor_y == y
                    }
                    &&& !before.update.sum_is_null && !dashes && sum_before is Err ==> {
                        &&& action == UpdateAction::Proceed
                        &&& sum_after == sum_before
                        &&& !after.update.sum_is_null
                        &&& after.update.editor_y == y + 1
                    }
                },
                _ => {
                    &&& action == UpdateAction::Proceed
                    &&& sum_after == sum_before
                    &&& after.update.sum_is_null == (before.update.sum_is_null || dashes)
                    &&& after.update.editor_y == y + 1
                },
            }
        }),
{
    assert(variables_view(after.vars).len() == after.vars.len());
    assert(variables_view(after.vars)[0] == after.vars[0]@);
}

/// What was added is the running sum from then on; a failed addition fails it.
/// No other variable changes.
pub proof fn law_added_result_is_the_sum<'b>(
    before: UpdateState<'b>,
    sum: Option<CalcResult>,
    after: UpdateState<'b>,
    action: UpdateAction,
)
    requires
        before.wf(),
        before.update.stage == UpdateStage::Adding,
        before.awaits(UpdateEvent::Added(sum)),
        before.stepped(UpdateEvent::Added(sum), after, action),
    ensures
        action == UpdateAction::Proceed,
        after.app == before.app,
        after.results == before.results,
        after.tokens == before.tokens,
        after.update.editor_y == before.update.editor_y + 1,
        after.update.stage == UpdateStage::Line,
        after.update.sum_is_null == before.update.sum_is_null,
        after.vars.len() == before.vars.len(),
        after.vars[0].name@ == before.vars[0].name@,
        match sum {
            Some(value) => value_view(after.vars[0].value) == Ok::<CalcResultView, ()>(value@),
            None => after.vars[0].value is Err,
        },
        forall|i: int|
            1 <= i < before.vars.len() ==> (#[trigger] variables_view(after.vars)[i])
                == variables_view(before.vars)[i],
{
    assert(variables_view(after.vars).len() == after.vars.len());
    assert(variables_view(after.vars)[0] == after.vars[0]@);
}

/// When all lines have been gone through, the edited ones are marked to be
/// drawn again, in the text and in the results: the one line, or the line and
/// all below it.
pub proof fn law_edited_lines_are_drawn_again<'b>(
    before: UpdateState<'b>,
    event: UpdateEvent<'b>,
    after: UpdateState<'b>,
    action: UpdateAction,
    row: int,
)
    requires
        before.wf(),
        before.awaits(event),
        before.stepped(event, after, action),
        before.update.stage == UpdateStage::Line,
        before.update.editor_y == before.app.editor_content.lines@.len(),
    ensures
        ({
            let edited = match before.update.effect {
                RowModificationType::SingleLine(only) => row == only,
                RowModificationType::AllLinesFrom(first) => first <= row < 64,
            };
            &&& action == UpdateAction::Finished
            &&& after.app.editor_area_redraw.has(row) == (before.app.editor_area_redraw.has(row)
                || edited)
            &&& after.app.result_area_redraw.has(row) == (before.app.result_area_redraw.has(row)
                || edited)
        }),
{
    assert(after.app.editor_area_redraw.rows().contains(row)
        == after.app.editor_area_redraw.has(row));
    assert(after.app.result_area_redraw.rows().contains(row)
        == after.app.result_area_redraw.has(row));
    assert(before.app.editor_area_redraw.rows().contains(row)
        == before.app.editor_area_redraw.has(row));
    assert(before.app.result_area_redraw.rows().contains(row)
        == before.app.result_area_redraw.has(row));
}

} // verus!
