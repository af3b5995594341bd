use vstd::prelude::*;

use crate::app::SUM_VARIABLE_INDEX;
use crate::results::{line_result_view, value_view, variables_view, CalcResultView, LineResult};
use crate::selection_sum::sum_view;
use crate::update::{
    law_line_ids_stay_unique, lemma_without_line_keeps_sum, line_ids_unique, UpdateAction,
    UpdateEvent, UpdateStage, UpdateState,
};

verus! {

/// How two values are added, where they can be.
pub type Addition = spec_fn(CalcResultView, CalcResultView) -> Option<CalcResultView>;

/// The running sum of the first `n` lines: whether it has not started, and its
/// value. It starts with the first result after the beginning or after a line
/// of dashes, and fails where an addition does. Until it starts, it has the
/// value that it had before.
pub open spec fn sum_of_lines(
    lines: Seq<Seq<char>>,
    results: Seq<LineResult>,
    addition: Addition,
    initial: Result<CalcResultView, ()>,
    n: int,
) -> (bool, Result<CalcResultView, ()>)
    decreases n,
{
    if n <= 0 {
        (true, initial)
    } else {
        let (is_null, sum) = sum_of_lines(lines, results, addition, initial, n - 1);
        let line = lines[n - 1];
        let starts = is_null || (line.len() >= 2 && line[0] == '-' && line[1] == '-');
        match line_result_view(results[n - 1]) {
            Ok(Some(value)) => (
                false,
                if starts {
                    Ok(value)
                } else {
                    match sum {
                        Ok(so_far) => match addition(so_far, value) {
                            Some(total) => Ok(total),
                            None => Err(()),
                        },
                        Err(_) => Err(()),
                    }
                },
            ),
            _ => (starts, sum),
        }
    }
}

impl<'b> UpdateState<'b> {
    pub open spec fn sum_value(self) -> Result<CalcResultView, ()> {
        value_view(self.vars[SUM_VARIABLE_INDEX as int].value)
    }

    /// The running sum is that of the lines gone through.
    pub open spec fn sum_is_right(
        self,
        addition: Addition,
        initial: Result<CalcResultView, ()>,
    ) -> bool {
        let (is_null, sum) = sum_of_lines(
            self.app.editor_content.text_lines(),
            self.results,
            addition,
            initial,
            self.y(),
        );
        &&& self.update.sum_is_null == is_null
        &&& self.sum_value() == sum
        &&& self.update.stage == UpdateStage::Adding ==> {
            &&& line_result_view(self.results[self.y()]) matches Ok(Some(_))
            &&& !self.sum_starts()
            &&& self.sum_value() is Ok
        }
    }

    /// What was added is what the addition gives.
    pub open spec fn added_by(self, event: UpdateEvent<'b>, addition: Addition) -> bool {
        event matches UpdateEvent::Added(sum) ==> {
            match (self.sum_value(), line_result_view(self.results[self.y()])) {
                (Ok(so_far), Ok(Some(value))) => sum_view(sum) == addition(so_far, value),
                _ => true,
            }
        }
    }
}

proof fn lemma_sum_of_earlier_lines(
    lines: Seq<Seq<char>>,
    results: Seq<LineResult>,
    others: Seq<LineResult>,
    addition: Addition,
    initial: Result<CalcResultView, ()>,
    n: int,
)
    requires
        forall|i: int| 0 <= i < n ==> (#[trigger] others[i]) == results[i],
    ensures
        sum_of_lines(lines, others, addition, initial, n) == sum_of_lines(
            lines,
            results,
            addition,
            initial,
            n,
        ),
    decreases n,
{
    if n > 0 {
        lemma_sum_of_earlier_lines(lines, results, others, addition, initial, n - 1);
    }
}

/// Every step of an update keeps the running sum right: once the update is
/// complete, it is that of all lines.
pub proof fn law_running_sum_is_right<'b>(
    before: UpdateState<'b>,
    event: UpdateEvent<'b>,
    after: UpdateState<'b>,
    action: UpdateAction,
    addition: Addition,
    initial: Result<CalcResultView, ()>,
)
    requires
        before.wf(),
        before.awaits(event),
        before.stepped(event, after, action),
        before.added_by(event, addition),
        before.sum_is_right(addition, initial),
    ensures
        after.sum_is_right(addition, initial),
{
    let y = before.y();
    let lines = before.app.editor_content.text_lines();
    lemma_without_line_keeps_sum(before.vars, y);
    lemma_sum_of_earlier_lines(lines, before.results, after.results, addition, initial, y);
    let sum = SUM_VARIABLE_INDEX as int;
    if before.update.stage != UpdateStage::Line {
        assert(variables_view(after.vars).len() == after.vars.len());
        assert(variables_view(after.vars)[sum] == after.vars[sum]@);
    }
}

/// Every step of an update keeps the ids of the lines apart.
pub proof fn law_update_keeps_line_ids_unique<'b>(
    before: UpdateState<'b>,
    event: UpdateEvent<'b>,
    after: UpdateState<'b>,
    action: UpdateAction,
)
    requires
        before.wf(),
        before.awaits(event),
        before.stepped(event, after, action),
        line_ids_unique(
            before.app.editor_content.data@,
            before.app.line_id_generator as int,
        ),
    ensures
        line_ids_unique(after.app.editor_content.data@, after.app.line_id_generator as int),
{
    if before.y() < before.app.editor_content.data@.len() {
        law_line_ids_stay_unique(
            before.app.editor_content.data@,
            before.y(),
            before.app.line_id_generator as int,
        );
    }
}

} // verus!
