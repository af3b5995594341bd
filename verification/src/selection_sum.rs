use vstd::prelude::*;
use vstd::slice::slice_subrange;

use crate::app::NoteCalcApp;
use crate::content::{EditorContent, LineData};
use crate::coords::Selection;
use crate::editor::Editor;
use crate::results::{
    line_result_view, CalcResult, CalcResultView, FormatTexts, LineResult, Precision,
    ResultFormat,
};
use crate::update_laws::Addition;

verus! {

/// What evaluating a selected text gave: how the value is written with four
/// decimals, and whether there was anything to compute.
pub struct SelectionValue {
    pub there_was_operation: bool,
    pub texts: FormatTexts,
}

/// The sum of the results of several lines, as far as it has been taken, and
/// the format that it is shown in.
pub struct SelectionSum {
    pub row: usize,
    pub last_row: usize,
    pub sum: Option<CalcResult>,
    pub format: ResultFormat,
}

/// What has to be known of a selection before its value can be shown.
pub enum SelectionQuestion {
    /// The value of the selected text of a line, and the format that it is
    /// shown in.
    Text { row: usize, text: Vec<char>, format: ResultFormat },
    /// The sum of the results of the selected lines.
    Rows(SelectionSum),
}

/// How the summing of the selected lines goes on.
#[derive(Clone, Copy, PartialEq, Eq, Structural, Debug)]
pub enum SumAction {
    /// The result of the line at hand has to be added to the sum.
    Add,
    /// There is no sum to show.
    NoSum,
    /// All lines have been gone through.
    Done,
}

/// The contents of an optional result.
pub open spec fn sum_view(sum: Option<CalcResult>) -> Option<CalcResultView> {
    match sum {
        Some(value) => Some(value@),
        None => None,
    }
}

/// The selected lines gone through, from `row` on, up to the first that stops
/// the summing: one that failed, or one whose result has to be added to another.
pub open spec fn summed(
    results: Seq<LineResult>,
    row: int,
    last_row: int,
    sum: Option<CalcResultView>,
) -> (SumAction, int, Option<CalcResultView>)
    decreases last_row + 1 - row,
{
    if row > last_row {
        (SumAction::Done, row, sum)
    } else {
        match line_result_view(results[row]) {
            Err(_) => (SumAction::NoSum, row, sum),
            Ok(None) => summed(results, row + 1, last_row, sum),
            Ok(Some(value)) => if sum is Some {
                (SumAction::Add, row, sum)
            } else {
                summed(results, row + 1, last_row, Some(value))
            },
        }
    }
}

/// How a sum is written.
pub open spec fn sum_text(sum: CalcResultView, format: ResultFormat) -> Seq<char> {
    match sum {
        CalcResultView::Scalar(scalar) => scalar.text_of(format, Precision::Four).text@,
        CalcResultView::Matrix { inline, .. } => inline.in_format(format).text@,
    }
}

/// The sum of the results of the lines from `row` to `last_row`, added to `sum`
/// where there is one already. There is none where one of the lines failed,
/// where an addition fails, or where there is nothing to add.
pub open spec fn total(
    results: Seq<LineResult>,
    row: int,
    last_row: int,
    sum: Option<CalcResultView>,
    addition: Addition,
) -> Option<CalcResultView>
    decreases last_row + 1 - row,
{
    if row > last_row {
        sum
    } else {
        match line_result_view(results[row]) {
            Err(_) => None,
            Ok(None) => total(results, row + 1, last_row, sum, addition),
            Ok(Some(value)) => match sum {
                None => total(results, row + 1, last_row, Some(value), addition),
                Some(so_far) => match addition(so_far, value) {
                    Some(next) => total(results, row + 1, last_row, Some(next), addition),
                    None => None,
                },
            },
        }
    }
}

/// The results of the lines from `row` to `last_row`, from top to bottom.
pub open spec fn values_between(
    results: Seq<LineResult>,
    row: int,
    last_row: int,
) -> Seq<CalcResultView>
    decreases last_row + 1 - row,
{
    if row > last_row {
        Seq::empty()
    } else {
        match line_result_view(results[row]) {
            Ok(Some(value)) => seq![value] + values_between(results, row + 1, last_row),
            _ => values_between(results, row + 1, last_row),
        }
    }
}

/// Values added to `sum`, one after the other. The first one starts the sum
/// where there is none; a failed addition leaves no sum.
pub open spec fn added_up(
    sum: Option<CalcResultView>,
    values: Seq<CalcResultView>,
    addition: Addition,
) -> Option<CalcResultView>
    decreases values.len(),
{
    if values.len() == 0 {
        sum
    } else {
        match sum {
            None => added_up(Some(values[0]), values.skip(1), addition),
            Some(so_far) => match addition(so_far, values[0]) {
                Some(next) => added_up(Some(next), values.skip(1), addition),
                None => None,
            },
        }
    }
}

proof fn lemma_summed_leads_to_total(
    results: Seq<LineResult>,
    row: int,
    last_row: int,
    sum: Option<CalcResultView>,
    addition: Addition,
)
    requires
        0 <= row,
    ensures
        ({
            let (action, at, so_far) = summed(results, row, last_row, sum);
            total(results, row, last_row, sum, addition) == match action {
                SumAction::Done => so_far,
                SumAction::NoSum => None,
                SumAction::Add => total(results, at, last_row, so_far, addition),
            }
        }),
    decreases last_row + 1 - row,
{
    if row <= last_row {
        match line_result_view(results[row]) {
            Ok(None) => {
                lemma_summed_leads_to_total(results, row + 1, last_row, sum, addition);
            },
            Ok(Some(value)) => {
                if sum is None {
                    lemma_summed_leads_to_total(
                        results,
                        row + 1,
                        last_row,
                        Some(value),
                        addition,
                    );
                }
            },
            Err(_) => {},
        }
    }
}

/// Going through the lines keeps what will be shown. When all lines have been
/// gone through it is the text of the sum taken; where the summing stops it is
/// nothing.
pub proof fn law_summing_leads_to_what_is_shown(
    before: SelectionSum,
    results: Seq<LineResult>,
    action: SumAction,
    after: SelectionSum,
    addition: Addition,
)
    requires
        summed(
            results,
            before.row as int,
            before.last_row as int,
            sum_view(before.sum),
        ) == (action, after.row as int, sum_view(after.sum)),
        after.last_row == before.last_row,
        after.format == before.format,
    ensures
        before.shown(results, addition) == match action {
            SumAction::Done => shown_text(sum_view(after.sum), after.format),
            SumAction::NoSum => None,
            SumAction::Add => after.shown(results, addition),
        },
{
    lemma_summed_leads_to_total(
        results,
        before.row as int,
        before.last_row as int,
        sum_view(before.sum),
        addition,
    );
}

/// Taking what an addition gave keeps what will be shown, where it is what the
/// addition of the sum so far and the result of the line at hand gives.
pub proof fn law_addition_leads_to_what_is_shown(
    before: SelectionSum,
    results: Seq<LineResult>,
    sum: Option<CalcResult>,
    action: SumAction,
    after: SelectionSum,
    addition: Addition,
)
    requires
        before.row <= before.last_row,
        match (sum_view(before.sum), line_result_view(results[before.row as int])) {
            (Some(so_far), Ok(Some(value))) => sum_view(sum) == addition(so_far, value),
            _ => false,
        },
        sum is None ==> action == SumAction::NoSum && after == before,
        sum is Some ==> summed(
            results,
            before.row + 1,
            before.last_row as int,
            sum_view(sum),
        ) == (action, after.row as int, sum_view(after.sum)),
        after.last_row == before.last_row,
        after.format == before.format,
    ensures
        before.shown(results, addition) == match action {
            SumAction::Done => shown_text(sum_view(after.sum), after.format),
            SumAction::NoSum => None,
            SumAction::Add => after.shown(results, addition),
        },
{
    if sum is Some {
        lemma_summed_leads_to_total(
            results,
            before.row + 1,
            before.last_row as int,
            sum_view(sum),
            addition,
        );
    }
}

/// Where no line failed, the total is what adding up the results of the lines
/// from top to bottom gives.
pub proof fn law_total_adds_up_the_results(
    results: Seq<LineResult>,
    row: int,
    last_row: int,
    sum: Option<CalcResultView>,
    addition: Addition,
)
    requires
        forall|i: int| row <= i <= last_row ==> line_result_view(#[trigger] results[i]) is Ok,
    ensures
        total(results, row, last_row, sum, addition) == added_up(
            sum,
            values_between(results, row, last_row),
            addition,
        ),
    decreases last_row + 1 - row,
{
    if row <= last_row {
        let values = values_between(results, row, last_row);
        match line_result_view(results[row]) {
            Ok(Some(value)) => {
                let next = match sum {
                    None => Some(value),
                    Some(so_far) => addition(so_far, value),
                };
                law_total_adds_up_the_results(results, row + 1, last_row, next, addition);
                assert(values.skip(1) =~= values_between(results, row + 1, last_row));
            },
            _ => {
                law_total_adds_up_the_results(results, row + 1, last_row, sum, addition);
            },
        }
    }
}

/// Nothing is shown for selected lines of which one failed.
pub proof fn law_failed_line_has_no_total(
    results: Seq<LineResult>,
    row: int,
    last_row: int,
    sum: Option<CalcResultView>,
    addition: Addition,
    failed: int,
)
    requires
        row <= failed <= last_row,
        line_result_view(results[failed]) is Err,
    ensures
        total(results, row, last_row, sum, addition) is None,
    decreases last_row + 1 - row,
{
    if row < failed {
        match line_result_view(results[row]) {
            Ok(None) => {
                law_failed_line_has_no_total(results, row + 1, last_row, sum, addition, failed);
            },
            Ok(Some(value)) => {
                let next = match sum {
                    None => Some(value),
                    Some(so_far) => addition(so_far, value),
                };
                law_failed_line_has_no_total(results, row + 1, last_row, next, addition, failed);
            },
            Err(_) => {},
        }
    }
}

/// Nothing is shown for selected lines of which none has a result.
pub proof fn law_lines_without_result_have_no_total(
    results: Seq<LineResult>,
    row: int,
    last_row: int,
    addition: Addition,
)
    requires
        forall|i: int|
            row <= i <= last_row ==> line_result_view(#[trigger] results[i]) !is Err
                && line_result_view(results[i])->Ok_0 is None,
    ensures
        total(results, row, last_row, None, addition) is None,
    decreases last_row + 1 - row,
{
    if row <= last_row {
        law_lines_without_result_have_no_total(results, row + 1, last_row, addition);
    }
}

/// The text that is shown for a sum, if there is one.
pub open spec fn shown_text(sum: Option<CalcResultView>, format: ResultFormat) -> Option<
    Seq<char>,
> {
    match sum {
        Some(sum) => Some(sum_text(sum, format)),
        None => None,
    }
}

impl SelectionSum {
    /// The text that the summing leads to: that of the total of the lines left,
    /// in the format of the sum.
    pub open spec fn shown(self, results: Seq<LineResult>, addition: Addition) -> Option<
        Seq<char>,
    > {
        shown_text(
            total(
                results,
                self.row as int,
                self.last_row as int,
                sum_view(self.sum),
                addition,
            ),
            self.format,
        )
    }

    /// Goes through the lines as far as nothing has to be added.
    pub fn advance(&mut self, results: &[LineResult]) -> (r: SumAction)
        requires
            old(self).last_row < results@.len(),
            old(self).row <= old(self).last_row + 1,
        ensures
            ({
                let after = summed(
                    results@,
                    old(self).row as int,
                    old(self).last_row as int,
                    sum_view(old(self).sum),
                );
                &&& r == after.0
                &&& final(self).row == after.1
                &&& sum_view(final(self).sum) == after.2
            }),
            final(self).last_row == old(self).last_row,
            final(self).format == old(self).format,
    {
        let ghost before = *self;
        while self.row <= self.last_row
            invariant
                before == *old(self),
                self.last_row == before.last_row,
                self.format == before.format,
                self.last_row < results@.len(),
                self.row <= self.last_row + 1,
                summed(
                    results@,
                    before.row as int,
                    before.last_row as int,
                    sum_view(before.sum),
                ) == summed(
                    results@,
                    self.row as int,
                    self.last_row as int,
                    sum_view(self.sum),
                ),
            decreases self.last_row + 1 - self.row,
        {
            match &results[self.row] {
                Err(_) => {
                    return SumAction::NoSum;
                },
                Ok(Some(line_result)) => {
                    if self.sum.is_some() {
                        return SumAction::Add;
                    }
                    self.sum = Some(line_result.clone());
                },
                Ok(None) => {},
            }
            self.row += 1;
        }
        SumAction::Done
    }

    /// Takes what the addition gave. Without a result there is no sum to show,
    /// and the answer is `NoSum`; else it is the one that `advance` gives.
    pub fn added(&mut self, sum: Option<CalcResult>, results: &[LineResult]) -> (r: SumAction)
        requires
            old(self).last_row < results@.len(),
            old(self).row <= old(self).last_row,
        ensures
            sum is None ==> r == SumAction::NoSum && *final(self) == *old(self),
            sum is Some ==> ({
                let after = summed(
                    results@,
                    old(self).row + 1,
                    old(self).last_row as int,
                    sum_view(sum),
                );
                &&& r == after.0
                &&& final(self).row == after.1
                &&& sum_view(final(self).sum) == after.2
                &&& final(self).last_row == old(self).last_row
                &&& final(self).format == old(self).format
            }),
    {
        if sum.is_none() {
            return SumAction::NoSum;
        }
        assert(self.row < results.len());
        self.sum = sum;
        self.row += 1;
        self.advance(results)
    }

    /// The text of the sum, once all lines have been gone through.
    pub fn text(&self) -> (r: Option<String>)
        ensures
            text_view(r) == shown_text(sum_view(self.sum), self.format),
    {
        match &self.sum {
            Some(CalcResult::Scalar(scalar)) => Some(
                scalar.text(self.format, Precision::Four).text.clone(),
            ),
            Some(CalcResult::Matrix(mat)) => Some(mat.inline.text(self.format).text.clone()),
            None => None,
        }
    }
}

/// The text that is shown for the value of a selected text: only where there
/// was something to compute.
pub open spec fn selection_value_text(
    value: Result<Option<SelectionValue>, ()>,
    format: ResultFormat,
) -> Option<Seq<char>> {
    match value {
        Ok(Some(value)) => if value.there_was_operation {
            Some(value.texts.in_format(format).text@)
        } else {
            None
        },
        _ => None,
    }
}

pub open spec fn text_view(text: Option<String>) -> Option<Seq<char>> {
    match text {
        Some(text) => Some(text@),
        None => None,
    }
}

/// What has to be found out about a selection: what the selected part of a line is
/// worth, or what the results of the selected lines add up to.
pub open spec fn selection_asks(
    selection: Selection,
    content: EditorContent<LineData>,
    question: SelectionQuestion,
) -> bool {
    let first = selection.first();
    let second = selection.second();
    let start_format = content.data@[selection.start.row as int].result_format;
    if first.row == second.row {
        question matches SelectionQuestion::Text { row, text, format } && row == first.row
            && text@ == content.lines@[first.row as int]@.subrange(
            first.column as int,
            second.column as int,
        ) && format == start_format
    } else {
        question matches SelectionQuestion::Rows(sum) && sum.row == first.row && sum.last_row
            == second.row && sum.sum is None && sum.format == start_format && (forall|
            results: Seq<LineResult>,
            addition: Addition,
        |
            #[trigger] sum.shown(results, addition) == shown_text(
                total(results, first.row as int, second.row as int, None, addition),
                start_format,
            ))
    }
}

impl NoteCalcApp {
    /// What has to be found out to show the value of the selection. Whichever
    /// way the selection goes, its value is shown in the format of the line in
    /// which it was started.
    pub fn evaluate_selection(
        editor: &Editor,
        editor_content: &EditorContent<LineData>,
    ) -> (r: SelectionQuestion)
        requires
            editor.selection.end is Some,
            editor.selection.first().row < editor_content.lines@.len(),
            editor.selection.start.row < editor_content.data@.len(),
            editor.selection.first().row == editor.selection.second().row
                ==> editor.selection.second().column
                <= editor_content.lines@[editor.selection.first().row as int]@.len(),
        ensures
            selection_asks(editor.selection, *editor_content, r),
    {
        let sel = editor.get_selection();
        let format = editor_content.get_data(sel.start.row).result_format;
        let first = sel.get_first();
        let second = sel.get_second();
        if first.row == second.row {
            let line = editor_content.get_line_valid_chars(first.row);
            let selected = slice_subrange(line, first.column, second.column);
            let mut text: Vec<char> = Vec::new();
            let mut i: usize = 0;
            while i < selected.len()
                invariant
                    i <= selected@.len(),
                    text@ == selected@.take(i as int),
                decreases selected@.len() - i,
            {
                text.push(selected[i]);
                i += 1;
            }
            assert(text@ =~= editor_content.lines@[first.row as int]@.subrange(
                first.column as int,
                second.column as int,
            ));
            SelectionQuestion::Text { row: first.row, text, format }
        } else {
            SelectionQuestion::Rows(
                SelectionSum { row: first.row, last_row: second.row, sum: None, format },
            )
        }
    }

    /// The text that is shown for the value of a selected text.
    pub fn selection_text(
        value: &Result<Option<SelectionValue>, ()>,
        format: ResultFormat,
    ) -> (r: Option<String>)
        ensures
            text_view(r) == selection_value_text(*value, format),
    {
        match value {
            Ok(Some(value)) => if value.there_was_operation {
                Some(value.texts.text(format).text.clone())
            } else {
                None
            },
            _ => None,
        }
    }
}

} // verus!
