use vstd::prelude::*;

use crate::app::{NoteCalcApp, RedrawTarget, SUM_VARIABLE_INDEX};
use crate::content::{EditorContent, LineData};
use crate::coords::EditorY;
use crate::editor::RowModificationType;
use crate::matrix_editing::{ascii_whitespace, is_ascii_whitespace, MatrixEditing};
use crate::normalize::{reference_string, reference_text};
use crate::render_data::{
    references_exist, row_height, GlobalRenderData, Layout, PerLineRenderData,
};
use crate::results::{
    line_result_view, line_result_wf, value_view, value_wf, variables_view, variables_wf,
    CalcResult, CalcResultView, EvaluationResult, LineResult, Results, Variable, VariableView,
};
use crate::row_flags::{EditorRowFlags, MAX_LINE_COUNT};
use crate::tokens::{AppTokens, Tokens};

verus! {

/// Lines that start with two dashes or an apostrophe are not evaluated.
pub open spec fn is_comment(line: Seq<char>) -> bool {
    ||| starts_with_dashes(line)
    ||| line.len() >= 1 && line[0] == '\''
}

/// A line that starts with two dashes also starts a new sum.
pub open spec fn starts_with_dashes(line: Seq<char>) -> bool {
    line.len() >= 2 && line[0] == '-' && line[1] == '-'
}

fn line_starts_with_dashes(line: &[char]) -> (r: bool)
    ensures
        r == starts_with_dashes(line@),
{
    line.len() >= 2 && line[0] == '-' && line[1] == '-'
}

pub open spec fn sum_name() -> Seq<char> {
    seq!['s', 'u', 'm']
}

fn is_sum_name(name: &Vec<char>) -> (r: bool)
    ensures
        r == (name@ == sum_name()),
{
    let r = name.len() == 3 && name[0] == 's' && name[1] == 'u' && name[2] == 'm';
    proof {
        if r {
            assert(name@ =~= sum_name());
        }
    }
    r
}

/// The variable was defined by the line. The running sum belongs to no line.
pub open spec fn defined_by(var: Variable, row: int) -> bool {
    var.name@ != sum_name() && var.defined_at_row == row
}

/// The variables without those that a line defined.
pub open spec fn without_line(vars: Seq<Variable>, row: int) -> Seq<Variable>
    decreases vars.len(),
{
    if vars.len() == 0 {
        Seq::empty()
    } else if defined_by(vars.last(), row) {
        without_line(vars.drop_last(), row)
    } else {
        without_line(vars.drop_last(), row).push(vars.last())
    }
}

/// The first place, from `from` on, that is not blank.
pub open spec fn first_not_blank(line: Seq<char>, from: int) -> int
    decreases line.len() - from,
{
    if 0 <= from < line.len() && ascii_whitespace(line[from]) {
        first_not_blank(line, from + 1)
    } else {
        from
    }
}

/// The first equals sign, from `from` on.
pub open spec fn first_equals(line: Seq<char>, from: int) -> int
    decreases line.len() - from,
{
    if 0 <= from < line.len() && line[from] != '=' {
        first_equals(line, from + 1)
    } else {
        from
    }
}

/// A text without the blanks at its end.
pub open spec fn without_blank_end(text: Seq<char>) -> Seq<char>
    decreases text.len(),
{
    if text.len() > 0 && ascii_whitespace(text.last()) {
        without_blank_end(text.drop_last())
    } else {
        text
    }
}

/// The name that an assignment gives: what stands before the equals sign,
/// without the blanks around it.
pub open spec fn assigned_name(line: Seq<char>) -> Seq<char> {
    let start = first_not_blank(line, 0);
    without_blank_end(line.subrange(start, first_equals(line, start)))
}

/// Something stands before the equals sign of the line.
pub open spec fn is_assignment(line: Seq<char>) -> bool {
    let start = first_not_blank(line, 0);
    start < first_equals(line, start) < line.len()
}

/// The variables after a line was evaluated: its value gets the name that it is
/// assigned to, or the name by which other lines refer to the line.
pub open spec fn with_value(
    vars: Seq<VariableView>,
    evaluation: Result<Option<EvaluationResult>, ()>,
    row: int,
    line_id: int,
    line: Seq<char>,
) -> Seq<VariableView> {
    match evaluation {
        Ok(Some(evaluated)) => vars.push(
            VariableView {
                name: if evaluated.assignment {
                    assigned_name(line)
                } else {
                    reference_text(line_id as nat)
                },
                value: Ok(evaluated.result@),
                defined_at_row: row,
            },
        ),
        _ => vars,
    }
}

/// The result of a line, of what its evaluation gave.
pub open spec fn result_of(evaluation: Result<Option<EvaluationResult>, ()>) -> Result<
    Option<CalcResultView>,
    (),
> {
    match evaluation {
        Ok(Some(evaluated)) => Ok(Some(evaluated.result@)),
        Ok(None) => Ok(None),
        Err(_) => Err(()),
    }
}

pub open spec fn evaluation_wf(evaluation: Result<Option<EvaluationResult>, ()>) -> bool {
    evaluation matches Ok(Some(evaluated)) ==> evaluated.result.wf()
}

/// How tall a line is drawn: one row for a comment, else as its tallest part.
pub open spec fn line_height(
    tokens: Option<Tokens>,
    result: LineResult,
    vars: Seq<Variable>,
    edited_height: Option<usize>,
) -> usize {
    match tokens {
        Some(tokens) => row_height(result, tokens.tokens@, vars, edited_height),
        None => 1,
    }
}

/// The height of the matrix that is being edited in the line, if one is.
pub open spec fn edited_height(editing: Option<MatrixEditing>, editor_y: EditorY) -> Option<usize> {
    match editing {
        Some(edited) => if edited.row_index == editor_y {
            Some(edited.row_count)
        } else {
            None
        },
        None => None,
    }
}

proof fn lemma_first_not_blank_range(line: Seq<char>, from: int)
    requires
        0 <= from <= line.len(),
    ensures
        from <= first_not_blank(line, from) <= line.len(),
        first_not_blank(line, from) < line.len() ==> !ascii_whitespace(
            line[first_not_blank(line, from)],
        ),
    decreases line.len() - from,
{
    if from < line.len() && ascii_whitespace(line[from]) {
        lemma_first_not_blank_range(line, from + 1);
    }
}

proof fn lemma_first_equals_range(line: Seq<char>, from: int)
    requires
        0 <= from <= line.len(),
    ensures
        from <= first_equals(line, from) <= line.len(),
    decreases line.len() - from,
{
    if from < line.len() && line[from] != '=' {
        lemma_first_equals_range(line, from + 1);
    }
}

fn assigned_name_of(line: &[char]) -> (r: Vec<char>)
    requires
        is_assignment(line@),
    ensures
        r@ == assigned_name(line@),
{
    let ghost start_at = first_not_blank(line@, 0);
    let ghost equals_at = first_equals(line@, start_at);
    proof {
        lemma_first_not_blank_range(line@, 0);
    }
    let mut i: usize = 0;
    while is_ascii_whitespace(line[i])
        invariant
            i <= start_at < line@.len(),
            start_at == first_not_blank(line@, i as int),
        decreases line@.len() - i,
    {
        proof {
            lemma_first_not_blank_range(line@, i + 1);
        }
        i += 1;
    }
    let start = i;
    while line[i] != '='
        invariant
            start <= i <= equals_at < line@.len(),
            equals_at == first_equals(line@, i as int),
        decreases line@.len() - i,
    {
        proof {
            lemma_first_equals_range(line@, i + 1);
        }
        i += 1;
    }
    let ghost text = line@.subrange(start as int, equals_at);
    i -= 1;
    while is_ascii_whitespace(line[i])
        invariant
            start <= i < line@.len(),
            !ascii_whitespace(line@[start as int]),
            without_blank_end(text) == without_blank_end(line@.subrange(start as int, i + 1)),
        decreases i,
    {
        proof {
            let current = line@.subrange(start as int, i + 1);
            assert(current.drop_last() =~= line@.subrange(start as int, i as int));
        }
        i -= 1;
    }
    let end = i + 1;
    let mut name: Vec<char> = Vec::new();
    let mut k: usize = start;
    while k < end
        invariant
            start <= k <= end <= line@.len(),
            name@ == line@.subrange(start as int, k as int),
        decreases end - k,
    {
        name.push(line[k]);
        k += 1;
    }
    name
}

fn string_chars(text: &str) -> (r: Vec<char>)
    ensures
        r@ == text@,
{
    let mut chars: Vec<char> = Vec::new();
    for ch in it: text.chars()
        invariant
            it.seq() == text@,
            chars@ == text@.take(it.index() as int),
    {
        chars.push(ch);
    }
    chars
}

/// Where the update of the lines stands.
#[derive(Clone, Copy, PartialEq, Eq, Structural, Debug)]
pub enum UpdateStage {
    /// The next line is at hand.
    Line,
    /// The line is being taken apart and evaluated.
    Parsing,
    /// The line's result is due for the running sum.
    Summing,
    /// The line's result is being added to the running sum.
    Adding,
    /// All lines have been gone through.
    Finished,
}

/// What has to be done before the update can go on.
#[derive(Clone, Copy, PartialEq, Eq, Structural, Debug)]
pub enum UpdateAction {
    /// Nothing.
    Proceed,
    /// Take this line apart and evaluate it.
    Parse(usize),
    /// Add the result of this line to the running sum.
    Add(usize),
    /// Nothing more: the update is complete.
    Finished,
}

/// What was done for the update to go on.
pub enum UpdateEvent<'b> {
    Continue,
    Parsed { tokens: Tokens<'b>, evaluation: Result<Option<EvaluationResult>, ()> },
    Added(Option<CalcResult>),
}

/// An update of the lines after an edit.
#[derive(Clone, Copy, PartialEq, Eq, Structural, Debug)]
pub struct TokenUpdate {
    pub effect: RowModificationType,
    pub editor_y: usize,
    pub sum_is_null: bool,
    pub stage: UpdateStage,
}

impl TokenUpdate {
    pub fn new(effect: RowModificationType) -> (r: TokenUpdate)
        ensures
            r == (TokenUpdate { effect, editor_y: 0, sum_is_null: true, stage: UpdateStage::Line }),
    {
        TokenUpdate { effect, editor_y: 0, sum_is_null: true, stage: UpdateStage::Line }
    }

    /// With the next line at hand.
    pub open spec fn next_line(self, sum_is_null: bool) -> TokenUpdate {
        TokenUpdate {
            editor_y: (self.editor_y + 1) as usize,
            sum_is_null,
            stage: UpdateStage::Line,
            ..self
        }
    }

    pub open spec fn at(self, stage: UpdateStage) -> TokenUpdate {
        TokenUpdate { stage, ..self }
    }
}

/// The line data with an id for a line that had none.
pub open spec fn with_line_id(data: Seq<LineData>, row: int, generator: int) -> Seq<LineData> {
    if data[row].line_id == 0 {
        data.update(row, LineData { line_id: generator as usize, ..data[row] })
    } else {
        data
    }
}

/// The generator after a line was given an id if it had none.
pub open spec fn generator_after(data: Seq<LineData>, row: int, generator: int) -> int {
    if data[row].line_id == 0 {
        generator + 1
    } else {
        generator
    }
}

/// No two lines have the same id, and no line has one that is still to be given.
pub open spec fn line_ids_unique(data: Seq<LineData>, generator: int) -> bool {
    &&& generator >= 1
    &&& forall|i: int| 0 <= i < data.len() ==> (#[trigger] data[i]).line_id < generator
    &&& forall|i: int, j: int|
        0 <= i < j < data.len() && (#[trigger] data[i]).line_id != 0 ==> data[i].line_id != (
        #[trigger] data[j]).line_id
}

/// Giving a line an id keeps the ids apart.
pub proof fn law_line_ids_stay_unique(data: Seq<LineData>, row: int, generator: int)
    requires
        0 <= row < data.len(),
        line_ids_unique(data, generator),
        generator <= usize::MAX,
    ensures
        line_ids_unique(
            with_line_id(data, row, generator),
            generator_after(data, row, generator),
        ),
        with_line_id(data, row, generator)[row].line_id != 0,
{
}

/// The rows that have to be drawn again after an edit.
pub open spec fn touched_rows(effect: RowModificationType) -> Set<int> {
    Set::new(|row: int| effect.touches(row) && 0 <= row < MAX_LINE_COUNT)
}

impl NoteCalcApp {
    /// Forgets the variables that the line defined before, and tells whether the
    /// line has to be taken apart: a comment has not.
    pub fn parse_tokens(line: &[char], editor_y: usize, vars: &mut Vec<Variable>) -> (r: bool)
        ensures
            final(vars)@ == without_line(old(vars)@, editor_y as int),
            r == !is_comment(line@),
    {
        let ghost before = vars@;
        let ghost mut seen: int = 0;
        let mut i: usize = 0;
        while i < vars.len()
            invariant
                0 <= seen <= before.len(),
                i == without_line(before.take(seen), editor_y as int).len(),
                vars@ == without_line(before.take(seen), editor_y as int) + before.skip(seen),
            decreases before.len() - seen,
        {
            assert(before.take(seen + 1).drop_last() =~= before.take(seen));
            if !is_sum_name(&vars[i].name) && vars[i].defined_at_row == editor_y {
                vars.remove(i);
            } else {
                i += 1;
            }
            proof {
                seen = seen + 1;
            }
        }
        !(line_starts_with_dashes(line) || (line.len() >= 1 && line[0] == '\''))
    }

    /// Names the value of a line, so that other lines can use it.
    pub fn evaluate_tokens_and_save_result(
        vars: &mut Vec<Variable>,
        editor_y: usize,
        editor_content: &EditorContent<LineData>,
        evaluation: &Result<Option<EvaluationResult>, ()>,
        line: &[char],
    )
        requires
            editor_y < editor_content.data@.len(),
            evaluation_wf(*evaluation),
            variables_wf(old(vars)@),
            evaluation matches Ok(Some(evaluated)) ==> if evaluated.assignment {
                is_assignment(line@)
            } else {
                editor_content.data@[editor_y as int].line_id > 0
            },
        ensures
            variables_view(final(vars)@) == with_value(
                variables_view(old(vars)@),
                *evaluation,
                editor_y as int,
                editor_content.data@[editor_y as int].line_id as int,
                line@,
            ),
            variables_wf(final(vars)@),
            final(vars)@.len() >= old(vars)@.len(),
            final(vars)@.take(old(vars)@.len() as int) == old(vars)@,
    {
        if let Ok(Some(result)) = evaluation {
            let name = if result.assignment {
                assigned_name_of(line)
            } else {
                let line_id = editor_content.get_data(editor_y).line_id;
                string_chars(reference_string(line_id).as_str())
            };
            let variable = Variable {
                name,
                value: Ok(result.result.clone()),
                defined_at_row: editor_y,
            };
            vars.push(variable);
        }
    }

    /// Stores how tall a line is drawn.
    pub fn update_rendered_height(
        editor_y: EditorY,
        render_data: &mut GlobalRenderData,
        matrix_editing: &Option<MatrixEditing>,
        tokens: &AppTokens,
        results: &Results,
        vars: &Vec<Variable>,
    )
        requires
            editor_y.0 < MAX_LINE_COUNT,
            tokens.wf(),
            results.wf(),
            tokens.0@[editor_y.0 as int] matches Some(line_tokens) ==> references_exist(
                line_tokens.tokens@,
                vars@.len() as int,
            ),
        ensures
            final(render_data)@ == (Layout {
                heights: old(render_data)@.heights.update(
                    editor_y.0 as int,
                    line_height(
                        tokens.0@[editor_y.0 as int],
                        results.0@[editor_y.0 as int],
                        vars@,
                        edited_height(*matrix_editing, editor_y),
                    ),
                ),
                ..old(render_data)@
            }),
    {
        let edited: Option<usize> = match matrix_editing {
            Some(mat_editor) => if mat_editor.row_index == editor_y {
                Some(mat_editor.row_count)
            } else {
                None
            },
            None => None,
        };
        let height: usize = match &tokens[editor_y] {
            Some(line_tokens) => PerLineRenderData::calc_rendered_row_height(
                &results[editor_y],
                line_tokens.tokens.as_slice(),
                vars.as_slice(),
                edited,
            ),
            None => 1,
        };
        render_data.set_rendered_height(editor_y, height);
    }
}

/// Everything that an update of the lines reads and changes.
pub struct UpdateState<'b> {
    pub app: NoteCalcApp,
    pub update: TokenUpdate,
    pub tokens: Seq<Option<Tokens<'b>>>,
    pub results: Seq<LineResult>,
    pub vars: Seq<Variable>,
}

impl<'b> UpdateState<'b> {
    pub open spec fn y(self) -> int {
        self.update.editor_y as int
    }

    pub open spec fn line(self) -> Seq<char> {
        self.app.editor_content.lines@[self.y()]@
    }

    pub open spec fn wf(self) -> bool {
        &&& self.app.editor_content.wf()
        &&& self.app.editor_content.lines@.len() <= MAX_LINE_COUNT
        &&& self.tokens.len() == MAX_LINE_COUNT
        &&& self.results.len() == MAX_LINE_COUNT
        &&& forall|i: int|
            0 <= i < self.results.len() ==> line_result_wf(#[trigger] self.results[i])
        &&& variables_wf(self.vars)
        &&& self.vars.len() > SUM_VARIABLE_INDEX
        &&& self.vars[SUM_VARIABLE_INDEX as int].name@ == sum_name()
        &&& self.update.stage != UpdateStage::Finished
        &&& self.update.editor_y <= self.app.editor_content.lines@.len()
        &&& self.update.stage != UpdateStage::Line ==> self.update.editor_y
            < self.app.editor_content.lines@.len()
        &&& self.update.stage == UpdateStage::Parsing ==> self.update.effect.touches(self.y())
        &&& match self.update.effect {
            RowModificationType::SingleLine(row) => row < MAX_LINE_COUNT,
            RowModificationType::AllLinesFrom(row) => row < MAX_LINE_COUNT,
        }
        &&& self.app.line_id_generator < usize::MAX
    }

    /// The event is what the update waits for.
    pub open spec fn awaits(self, event: UpdateEvent<'b>) -> bool {
        match self.update.stage {
            UpdateStage::Parsing => event matches UpdateEvent::Parsed { tokens, evaluation } && {
                &&& references_exist(tokens.tokens@, self.vars.len() as int)
                &&& evaluation_wf(evaluation)
                &&& evaluation matches Ok(Some(evaluated)) ==> if evaluated.assignment {
                    is_assignment(self.line())
                } else {
                    self.app.editor_content.data@[self.y()].line_id > 0
                }
            },
            UpdateStage::Adding => event matches UpdateEvent::Added(sum) && (sum matches Some(
                value,
            ) ==> value.wf()),
            _ => event is Continue,
        }
    }

    /// A line comes to hand. An edited line gets an id if it has none, and loses
    /// the variables that it defined. After the last line, what was edited has
    /// to be drawn again.
    pub open spec fn line_begun(self, after: UpdateState<'b>, action: UpdateAction) -> bool {
        let y = self.y();
        let content = self.app.editor_content;
        if y >= content.lines@.len() {
            &&& action == UpdateAction::Finished
            &&& after.update == self.update.at(UpdateStage::Finished)
            &&& after.app.redraws(
                self.app,
                touched_rows(self.update.effect),
                RedrawTarget::Both,
            )
            &&& after.app.same_but_redraws(self.app)
            &&& after.tokens == self.tokens
            &&& after.results == self.results
            &&& after.vars == self.vars
        } else if !self.update.effect.touches(y) {
            &&& action == UpdateAction::Proceed
            &&& after == UpdateState { update: self.update.at(UpdateStage::Summing), ..self }
        } else {
            let comment = is_comment(self.line());
            &&& action == (if comment {
                UpdateAction::Proceed
            } else {
                UpdateAction::Parse(self.update.editor_y)
            })
            &&& after.update == self.update.at(
                if comment {
                    UpdateStage::Summing
                } else {
                    UpdateStage::Parsing
                },
            )
            &&& after.app.editor_content.lines == content.lines
            &&& after.app.editor_content.data@ == with_line_id(
                content.data@,
                y,
                self.app.line_id_generator as int,
            )
            &&& after.app.line_id_generator == generator_after(
                content.data@,
                y,
                self.app.line_id_generator as int,
            )
            &&& after.app.render_data@ == (if comment {
                Layout {
                    heights: self.app.render_data@.heights.update(y, 1),
                    ..self.app.render_data@
                }
            } else {
                self.app.render_data@
            })
            &&& after.app == NoteCalcApp {
                editor_content: after.app.editor_content,
                line_id_generator: after.app.line_id_generator,
                render_data: after.app.render_data,
                ..self.app
            }
            &&& after.tokens == (if comment {
                self.tokens.update(y, None)
            } else {
                self.tokens
            })
            &&& after.results == (if comment {
                self.results.update(y, Ok(None))
            } else {
                self.results
            })
            &&& after.vars == without_line(self.vars, y)
        }
    }

    /// The line was taken apart and evaluated: its tokens, its result, its
    /// variable and its height are stored.
    pub open spec fn line_parsed(
        self,
        tokens: Tokens<'b>,
        evaluation: Result<Option<EvaluationResult>, ()>,
        after: UpdateState<'b>,
    ) -> bool {
        let y = self.y();
        &&& after.update == self.update.at(UpdateStage::Summing)
        &&& after.tokens == self.tokens.update(y, Some(tokens))
        &&& after.results.len() == self.results.len()
        &&& line_result_view(after.results[y]) == result_of(evaluation)
        &&& after.results == self.results.update(y, after.results[y])
        &&& variables_view(after.vars) == with_value(
            variables_view(self.vars),
            evaluation,
            y,
            self.app.editor_content.data@[y].line_id as int,
            self.line(),
        )
        &&& after.app.render_data@ == Layout {
            heights: self.app.render_data@.heights.update(
                y,
                line_height(
                    Some(tokens),
                    after.results[y],
                    after.vars,
                    edited_height(self.app.matrix_editing, EditorY(self.update.editor_y)),
                ),
            ),
            ..self.app.render_data@
        }
        &&& after.app == NoteCalcApp { render_data: after.app.render_data, ..self.app }
    }

    /// The sum starts anew with the line at hand.
    pub open spec fn sum_starts(self) -> bool {
        self.update.sum_is_null || starts_with_dashes(self.line())
    }

    /// The variables with another value of the running sum.
    pub open spec fn with_sum(self, value: Result<CalcResultView, ()>) -> Seq<VariableView> {
        let vars = variables_view(self.vars);
        let sum = vars[SUM_VARIABLE_INDEX as int];
        vars.update(SUM_VARIABLE_INDEX as int, VariableView { value, ..sum })
    }

    /// The result of the line goes into the running sum: as its first value, or
    /// by an addition that is asked for. A sum that failed stays failed.
    pub open spec fn line_summed(self, after: UpdateState<'b>, action: UpdateAction) -> bool {
        let y = self.y();
        &&& after.app == self.app
        &&& after.tokens == self.tokens
        &&& after.results == self.results
        &&& match line_result_view(self.results[y]) {
            Ok(Some(value)) => if self.sum_starts() {
                &&& action == UpdateAction::Proceed
                &&& after.update == self.update.next_line(false)
                &&& variables_view(after.vars) == self.with_sum(Ok(value))
            } else if self.vars[SUM_VARIABLE_INDEX as int].value is Ok {
                &&& action == UpdateAction::Add(self.update.editor_y)
                &&& after.update == self.update.at(UpdateStage::Adding)
                &&& after.vars == self.vars
            } else {
                &&& action == UpdateAction::Proceed
                &&& after.update == self.update.next_line(false)
                &&& after.vars == self.vars
            },
            _ => {
                &&& action == UpdateAction::Proceed
                &&& after.update == self.update.next_line(self.sum_starts())
                &&& after.vars == self.vars
            },
        }
    }

    /// The result of the line was added to the running sum, or could not be.
    pub open spec fn sum_added(
        self,
        sum: Option<CalcResult>,
        after: UpdateState<'b>,
        action: UpdateAction,
    ) -> bool {
        &&& action == UpdateAction::Proceed
        &&& after.app == self.app
        &&& after.tokens == self.tokens
        &&& after.results == self.results
        &&& after.update == self.update.next_line(self.update.sum_is_null)
        &&& variables_view(after.vars) == self.with_sum(
            match sum {
                Some(value) => Ok(value@),
                None => Err(()),
            },
        )
    }

    /// What one step of the update does.
    pub open spec fn stepped(
        self,
        event: UpdateEvent<'b>,
        after: UpdateState<'b>,
        action: UpdateAction,
    ) -> bool {
        match self.update.stage {
            UpdateStage::Line => self.line_begun(after, action),
            UpdateStage::Parsing => match event {
                UpdateEvent::Parsed { tokens, evaluation } => {
                    &&& self.line_parsed(tokens, evaluation, after)
                    &&& action == UpdateAction::Proceed
                },
                _ => false,
            },
            UpdateStage::Summing => self.line_summed(after, action),
            UpdateStage::Adding => match event {
                UpdateEvent::Added(sum) => self.sum_added(sum, after, action),
                _ => false,
            },
            UpdateStage::Finished => false,
        }
    }
}

impl<'b> UpdateState<'b> {
    /// How many steps an update can still take.
    pub open spec fn steps_left(self) -> int {
        let lines = self.app.editor_content.lines@.len() - self.y();
        match self.update.stage {
            UpdateStage::Line => 4 * lines + 3,
            UpdateStage::Parsing => 4 * lines + 2,
            UpdateStage::Summing => 4 * lines + 1,
            UpdateStage::Adding => 4 * lines,
            UpdateStage::Finished => 0,
        }
    }
}

/// An update comes to an end: every step brings it closer.
pub proof fn law_update_comes_to_an_end<'b>(
    before: UpdateState<'b>,
    event: UpdateEvent<'b>,
    after: UpdateState<'b>,
    action: UpdateAction,
)
    requires
        before.wf(),
        before.awaits(event),
        before.stepped(event, after, action),
    ensures
        0 <= after.steps_left() < before.steps_left(),
        action == UpdateAction::Finished <==> after.update.stage == UpdateStage::Finished,
{
}

/// An update leaves the text alone, and of the lines that were not edited also
/// the tokens, the results, the ids and the heights.
pub proof fn law_update_leaves_other_lines_alone<'b>(
    before: UpdateState<'b>,
    event: UpdateEvent<'b>,
    after: UpdateState<'b>,
    action: UpdateAction,
    row: int,
)
    requires
        before.wf(),
        before.awaits(event),
        before.stepped(event, after, action),
        0 <= row < before.app.editor_content.lines@.len(),
        !before.update.effect.touches(row),
    ensures
        after.app.editor_content.lines == before.app.editor_content.lines,
        after.tokens[row] == before.tokens[row],
        after.results[row] == before.results[row],
        after.app.editor_content.data@[row] == before.app.editor_content.data@[row],
        after.app.render_data@.heights[row] == before.app.render_data@.heights[row],
        after.update.effect == before.update.effect,
{
}

pub(crate) proof fn lemma_without_line_keeps_sum(vars: Seq<Variable>, row: int)
    requires
        vars.len() > SUM_VARIABLE_INDEX,
        vars[SUM_VARIABLE_INDEX as int].name@ == sum_name(),
        variables_wf(vars),
    ensures
        without_line(vars, row).len() > SUM_VARIABLE_INDEX,
        without_line(vars, row)[SUM_VARIABLE_INDEX as int] == vars[SUM_VARIABLE_INDEX as int],
        variables_wf(without_line(vars, row)),
    decreases vars.len(),
{
    let shorter = vars.drop_last();
    if vars.len() > 1 {
        lemma_without_line_keeps_sum(shorter, row);
    } else {
        assert(without_line(shorter, row) =~= Seq::empty());
    }
}

fn set_sum(vars: &mut Vec<Variable>, value: Result<CalcResult, ()>)
    requires
        old(vars)@.len() > SUM_VARIABLE_INDEX,
        variables_wf(old(vars)@),
        value_wf(value),
    ensures
        variables_view(final(vars)@) == variables_view(old(vars)@).update(
            SUM_VARIABLE_INDEX as int,
            VariableView {
                value: value_view(value),
                ..variables_view(old(vars)@)[SUM_VARIABLE_INDEX as int]
            },
        ),
        variables_wf(final(vars)@),
        final(vars)@.len() == old(vars)@.len(),
        final(vars)@[SUM_VARIABLE_INDEX as int].name == old(
            vars,
        )@[SUM_VARIABLE_INDEX as int].name,
{
    vars[SUM_VARIABLE_INDEX].value = value;
}

/// Replacing the value of the running sum replaces nothing else.
proof fn lemma_sum_replaced(before: Seq<Variable>, after: Seq<Variable>)
    requires
        before.len() > SUM_VARIABLE_INDEX,
        after == before.update(SUM_VARIABLE_INDEX as int, after[SUM_VARIABLE_INDEX as int]),
        after[SUM_VARIABLE_INDEX as int] == (Variable {
            value: after[SUM_VARIABLE_INDEX as int].value,
            ..before[SUM_VARIABLE_INDEX as int]
        }),
        value_wf(after[SUM_VARIABLE_INDEX as int].value),
        variables_wf(before),
    ensures
        variables_wf(after),
        variables_view(after) == variables_view(before).update(
            SUM_VARIABLE_INDEX as int,
            VariableView {
                value: value_view(after[SUM_VARIABLE_INDEX as int].value),
                ..variables_view(before)[SUM_VARIABLE_INDEX as int]
            },
        ),
{
}

impl NoteCalcApp {
    /// Takes a result into the running sum: as its first value, if there is none
    /// yet. Else the answer tells whether the result has to be added; to a sum
    /// that failed nothing is added.
    pub fn sum_result(
        sum_var: &mut Variable,
        result: &CalcResult,
        sum_is_null: &mut bool,
    ) -> (needs_addition: bool)
        requires
            result.wf(),
        ensures
            if *old(sum_is_null) {
                &&& !needs_addition
                &&& final(sum_var).value is Ok
                &&& value_view(final(sum_var).value) == Ok::<CalcResultView, ()>(result@)
                &&& value_wf(final(sum_var).value)
                &&& *final(sum_var) == (Variable {
                    value: final(sum_var).value,
                    ..*old(sum_var)
                })
            } else {
                &&& needs_addition == old(sum_var).value is Ok
                &&& *final(sum_var) == *old(sum_var)
            },
            !*final(sum_is_null),
    {
        if *sum_is_null {
            sum_var.value = Ok(result.clone());
            *sum_is_null = false;
            false
        } else {
            sum_var.value.is_ok()
        }
    }

    fn begin_line<'b>(
        &mut self,
        update: &mut TokenUpdate,
        tokens: &mut AppTokens<'b>,
        results: &mut Results,
        vars: &mut Vec<Variable>,
    ) -> (action: UpdateAction)
        requires
            (UpdateState {
                app: *old(self),
                update: *old(update),
                tokens: old(tokens).0@,
                results: old(results).0@,
                vars: old(vars)@,
            }).wf(),
            old(update).stage == UpdateStage::Line,
        ensures
            (UpdateState {
                app: *old(self),
                update: *old(update),
                tokens: old(tokens).0@,
                results: old(results).0@,
                vars: old(vars)@,
            }).line_begun(
                UpdateState {
                    app: *final(self),
                    update: *final(update),
                    tokens: final(tokens).0@,
                    results: final(results).0@,
                    vars: final(vars)@,
                },
                action,
            ),
            (final(update).stage != UpdateStage::Finished && final(self).line_id_generator
                < usize::MAX) ==> (UpdateState {
                app: *final(self),
                update: *final(update),
                tokens: final(tokens).0@,
                results: final(results).0@,
                vars: final(vars)@,
            }).wf(),
    {
        let y = update.editor_y;
        proof {
            lemma_without_line_keeps_sum(vars@, y as int);
        }
        if y >= self.editor_content.line_count() {
            let flags = match update.effect {
                RowModificationType::SingleLine(row) => EditorRowFlags::single_row(row),
                RowModificationType::AllLinesFrom(row) => EditorRowFlags::all_rows_starting_at(
                    row,
                ),
            };
            assert(flags.rows() =~= touched_rows(update.effect));
            self.set_redraw_flag(flags, RedrawTarget::Both);
            update.stage = UpdateStage::Finished;
            return UpdateAction::Finished;
        }
        let touched = match update.effect {
            RowModificationType::SingleLine(row) => row == y,
            RowModificationType::AllLinesFrom(row) => y >= row,
        };
        if !touched {
            update.stage = UpdateStage::Summing;
            return UpdateAction::Proceed;
        }
        let data = *self.editor_content.get_data(y);
        if data.line_id == 0 {
            self.editor_content.set_data(
                y,
                LineData { line_id: self.line_id_generator, result_format: data.result_format },
            );
            self.line_id_generator += 1;
        }
        let needs_parsing = NoteCalcApp::parse_tokens(
            self.editor_content.get_line_valid_chars(y),
            y,
            vars,
        );
        if needs_parsing {
            update.stage = UpdateStage::Parsing;
            UpdateAction::Parse(y)
        } else {
            tokens.set(EditorY::new(y), None);
            results.set(EditorY::new(y), Ok(None));
            self.render_data.set_rendered_height(EditorY::new(y), 1);
            update.stage = UpdateStage::Summing;
            UpdateAction::Proceed
        }
    }

    fn store_line<'b>(
        &mut self,
        update: &mut TokenUpdate,
        line_tokens: Tokens<'b>,
        evaluation: Result<Option<EvaluationResult>, ()>,
        tokens: &mut AppTokens<'b>,
        results: &mut Results,
        vars: &mut Vec<Variable>,
    )
        requires
            ({
                let before = UpdateState {
                    app: *old(self),
                    update: *old(update),
                    tokens: old(tokens).0@,
                    results: old(results).0@,
                    vars: old(vars)@,
                };
                &&& before.wf()
                &&& before.update.stage == UpdateStage::Parsing
                &&& before.awaits(UpdateEvent::Parsed { tokens: line_tokens, evaluation })
            }),
        ensures
            ({
                let before = UpdateState {
                    app: *old(self),
                    update: *old(update),
                    tokens: old(tokens).0@,
                    results: old(results).0@,
                    vars: old(vars)@,
                };
                let after = UpdateState {
                    app: *final(self),
                    update: *final(update),
                    tokens: final(tokens).0@,
                    results: final(results).0@,
                    vars: final(vars)@,
                };
                &&& before.line_parsed(line_tokens, evaluation, after)
                &&& after.wf()
            }),
    {
        let y = update.editor_y;
        let editor_y = EditorY::new(y);
        NoteCalcApp::evaluate_tokens_and_save_result(
            vars,
            y,
            &self.editor_content,
            &evaluation,
            self.editor_content.get_line_valid_chars(y),
        );
        tokens.set(editor_y, Some(line_tokens));
        let result: LineResult = match evaluation {
            Ok(Some(evaluated)) => Ok(Some(evaluated.result)),
            Ok(None) => Ok(None),
            Err(_) => Err(()),
        };
        results.set(editor_y, result);
        NoteCalcApp::update_rendered_height(
            editor_y,
            &mut self.render_data,
            &self.matrix_editing,
            tokens,
            results,
            vars,
        );
        update.stage = UpdateStage::Summing;
    }

    fn sum_line<'b>(
        &self,
        update: &mut TokenUpdate,
        results: &Results,
        vars: &mut Vec<Variable>,
        Ghost(tokens): Ghost<Seq<Option<Tokens<'b>>>>,
    ) -> (action: UpdateAction)
        requires
            (UpdateState {
                app: *self,
                update: *old(update),
                tokens,
                results: results.0@,
                vars: old(vars)@,
            }).wf(),
            old(update).stage == UpdateStage::Summing,
        ensures
            ({
                let before = UpdateState {
                    app: *self,
                    update: *old(update),
                    tokens,
                    results: results.0@,
                    vars: old(vars)@,
                };
                let after = UpdateState {
                    app: *self,
                    update: *final(update),
                    tokens,
                    results: results.0@,
                    vars: final(vars)@,
                };
                &&& before.line_summed(after, action)
                &&& after.wf()
            }),
    {
        let ghost before = vars@;
        let y = update.editor_y;
        let line = self.editor_content.get_line_valid_chars(y);
        let mut sum_is_null = update.sum_is_null || line_starts_with_dashes(line);
        if let Ok(Some(result)) = &results[EditorY::new(y)] {
            let needs_addition = NoteCalcApp::sum_result(
                &mut vars[SUM_VARIABLE_INDEX],
                result,
                &mut sum_is_null,
            );
            proof {
                lemma_sum_replaced(before, vars@);
                if vars@[SUM_VARIABLE_INDEX as int] == before[SUM_VARIABLE_INDEX as int] {
                    assert(vars@ =~= before);
                }
            }
            if needs_addition {
                update.stage = UpdateStage::Adding;
                return UpdateAction::Add(y);
            }
        }
        update.sum_is_null = sum_is_null;
        update.editor_y = y + 1;
        update.stage = UpdateStage::Line;
        UpdateAction::Proceed
    }

    /// One step of the update of the lines after an edit: the edited lines are
    /// taken apart and evaluated, and all results are summed up. The answer says
    /// what has to be done before the next step.
    pub fn update_tokens_and_redraw_requirements<'b>(
        &mut self,
        update: &mut TokenUpdate,
        event: UpdateEvent<'b>,
        tokens: &mut AppTokens<'b>,
        results: &mut Results,
        vars: &mut Vec<Variable>,
    ) -> (action: UpdateAction)
        requires
            ({
                let before = UpdateState {
                    app: *old(self),
                    update: *old(update),
                    tokens: old(tokens).0@,
                    results: old(results).0@,
                    vars: old(vars)@,
                };
                before.wf() && before.awaits(event)
            }),
        ensures
            old(self).layout_wf() ==> final(self).layout_wf(),
            ({
                let before = UpdateState {
                    app: *old(self),
                    update: *old(update),
                    tokens: old(tokens).0@,
                    results: old(results).0@,
                    vars: old(vars)@,
                };
                let after = UpdateState {
                    app: *final(self),
                    update: *final(update),
                    tokens: final(tokens).0@,
                    results: final(results).0@,
                    vars: final(vars)@,
                };
                &&& before.stepped(event, after, action)
                &&& (after.update.stage != UpdateStage::Finished && after.app.line_id_generator
                    < usize::MAX) ==> after.wf()
            }),
    {
        match update.stage {
            UpdateStage::Line => self.begin_line(update, tokens, results, vars),
            UpdateStage::Parsing => {
                if let UpdateEvent::Parsed { tokens: line_tokens, evaluation } = event {
                    self.store_line(update, line_tokens, evaluation, tokens, results, vars);
                }
                UpdateAction::Proceed
            },
            UpdateStage::Summing => self.sum_line(update, results, vars, Ghost(tokens.0@)),
            UpdateStage::Adding => {
                if let UpdateEvent::Added(sum) = event {
                    match sum {
                        Some(sum) => set_sum(vars, Ok(sum)),
                        None => set_sum(vars, Err(())),
                    }
                    update.editor_y = update.editor_y + 1;
                    update.stage = UpdateStage::Line;
                }
                UpdateAction::Proceed
            },
            UpdateStage::Finished => UpdateAction::Finished,
        }
    }
}

} // verus!
