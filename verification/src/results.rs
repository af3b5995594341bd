use vstd::prelude::*;
use vstd::utf8::is_ascii_chars;

use crate::coords::EditorY;
use crate::row_flags::MAX_LINE_COUNT;

verus! {

/// How a line shows its result.
#[derive(Clone, Copy, PartialEq, Eq, Structural, Debug)]
pub enum ResultFormat {
    Bin,
    Dec,
    Hex,
}

/// How many decimals a number is shown with.
#[derive(Clone, Copy, PartialEq, Eq, Structural, Debug)]
pub enum Precision {
    Full,
    Two,
    Four,
}

/// How long the three parts of a result's text are: what stands before the
/// decimal point, the decimals with their point, and the unit.
#[derive(Clone, Copy, PartialEq, Eq, Structural, Debug)]
pub struct ResultLengths {
    pub int_part_len: usize,
    pub frac_part_len: usize,
    pub unit_part_len: usize,
}

pub open spec fn max_of(a: usize, b: usize) -> usize {
    if a < b {
        b
    } else {
        a
    }
}

impl ResultLengths {
    pub open spec fn zero() -> ResultLengths {
        ResultLengths { int_part_len: 0, frac_part_len: 0, unit_part_len: 0 }
    }

    /// The longer of each part.
    pub open spec fn max(self, other: ResultLengths) -> ResultLengths {
        ResultLengths {
            int_part_len: max_of(self.int_part_len, other.int_part_len),
            frac_part_len: max_of(self.frac_part_len, other.frac_part_len),
            unit_part_len: max_of(self.unit_part_len, other.unit_part_len),
        }
    }

    pub fn set_max(&mut self, other: &ResultLengths)
        ensures
            *final(self) == old(self).max(*other),
    {
        if self.int_part_len < other.int_part_len {
            self.int_part_len = other.int_part_len;
        }
        if self.frac_part_len < other.frac_part_len {
            self.frac_part_len = other.frac_part_len;
        }
        if self.unit_part_len < other.unit_part_len {
            self.unit_part_len = other.unit_part_len;
        }
    }
}

/// A result written out: its text, and how the text divides into parts. Where
/// there is a unit, one space stands before it.
pub struct ResultText {
    pub text: String,
    pub lengths: ResultLengths,
}

impl ResultText {
    /// The text is ASCII and at least as long as its parts.
    pub open spec fn wf(self) -> bool {
        &&& is_ascii_chars(self.text@)
        &&& self.lengths.int_part_len + self.lengths.frac_part_len <= self.text@.len()
        &&& self.lengths.unit_part_len > 0 ==> self.lengths.int_part_len
            + self.lengths.frac_part_len + 1 <= self.text@.len()
    }
}

impl Clone for ResultText {
    fn clone(&self) -> (r: ResultText)
        ensures
            r == *self,
    {
        ResultText { text: self.text.clone(), lengths: self.lengths }
    }
}

/// The texts of one number, one per format.
pub struct FormatTexts {
    pub bin: ResultText,
    pub dec: ResultText,
    pub hex: ResultText,
}

impl FormatTexts {
    pub open spec fn in_format(self, format: ResultFormat) -> ResultText {
        match format {
            ResultFormat::Bin => self.bin,
            ResultFormat::Dec => self.dec,
            ResultFormat::Hex => self.hex,
        }
    }

    pub fn text(&self, format: ResultFormat) -> (r: &ResultText)
        ensures
            *r == self.in_format(format),
    {
        match format {
            ResultFormat::Bin => &self.bin,
            ResultFormat::Dec => &self.dec,
            ResultFormat::Hex => &self.hex,
        }
    }
}

impl Clone for FormatTexts {
    fn clone(&self) -> (r: FormatTexts)
        ensures
            r == *self,
    {
        FormatTexts { bin: self.bin.clone(), dec: self.dec.clone(), hex: self.hex.clone() }
    }
}

/// A result that is no matrix, as it is shown.
pub struct ScalarResult {
    pub full: FormatTexts,
    pub two: FormatTexts,
    pub four: FormatTexts,
}

impl ScalarResult {
    pub open spec fn text_of(self, format: ResultFormat, precision: Precision) -> ResultText {
        match precision {
            Precision::Full => self.full,
            Precision::Two => self.two,
            Precision::Four => self.four,
        }.in_format(format)
    }

    pub open spec fn wf(self) -> bool {
        forall|format: ResultFormat, precision: Precision|
            (#[trigger] self.text_of(format, precision)).wf()
    }

    pub fn text(&self, format: ResultFormat, precision: Precision) -> (r: &ResultText)
        ensures
            *r == self.text_of(format, precision),
    {
        let texts = match precision {
            Precision::Full => &self.full,
            Precision::Two => &self.two,
            Precision::Four => &self.four,
        };
        texts.text(format)
    }
}

impl Clone for ScalarResult {
    fn clone(&self) -> (r: ScalarResult)
        ensures
            r == *self,
    {
        ScalarResult { full: self.full.clone(), two: self.two.clone(), four: self.four.clone() }
    }
}

/// A matrix of numbers, row after row.
pub struct MatrixData {
    pub row_count: usize,
    pub col_count: usize,
    pub cells: Vec<ScalarResult>,
    /// The whole matrix written in one line, with four decimals.
    pub inline: FormatTexts,
}

impl MatrixData {
    pub open spec fn wf(self) -> bool {
        &&& self.row_count >= 1
        &&& self.col_count >= 1
        &&& self.cells@.len() == self.row_count * self.col_count
        &&& forall|i: int| 0 <= i < self.cells@.len() ==> (#[trigger] self.cells@[i]).wf()
    }
}

/// What a line evaluates to.
pub enum CalcResult {
    Scalar(ScalarResult),
    Matrix(MatrixData),
}

/// A result's contents.
#[verifier::ext_equal]
pub enum CalcResultView {
    Scalar(ScalarResult),
    Matrix {
        row_count: usize,
        col_count: usize,
        cells: Seq<ScalarResult>,
        inline: FormatTexts,
    },
}

impl View for CalcResult {
    type V = CalcResultView;

    open spec fn view(&self) -> CalcResultView {
        match *self {
            CalcResult::Scalar(s) => CalcResultView::Scalar(s),
            CalcResult::Matrix(m) => CalcResultView::Matrix {
                row_count: m.row_count,
                col_count: m.col_count,
                cells: m.cells@,
                inline: m.inline,
            },
        }
    }
}

impl CalcResult {
    pub open spec fn wf(self) -> bool {
        match self {
            CalcResult::Scalar(s) => s.wf(),
            CalcResult::Matrix(m) => m.wf(),
        }
    }
}

impl Clone for CalcResult {
    fn clone(&self) -> (r: CalcResult)
        ensures
            r@ == self@,
            r.wf() == self.wf(),
    {
        match self {
            CalcResult::Scalar(s) => CalcResult::Scalar(s.clone()),
            CalcResult::Matrix(m) => {
                let mut cells: Vec<ScalarResult> = Vec::new();
                let mut i: usize = 0;
                while i < m.cells.len()
                    invariant
                        i <= m.cells@.len(),
                        cells@ == m.cells@.take(i as int),
                    decreases m.cells@.len() - i,
                {
                    cells.push(m.cells[i].clone());
                    i += 1;
                }
                assert(cells@ =~= m.cells@);
                CalcResult::Matrix(
                    MatrixData {
                        row_count: m.row_count,
                        col_count: m.col_count,
                        cells,
                        inline: m.inline.clone(),
                    },
                )
            },
        }
    }
}

/// The result of one line: an error, nothing, or a value.
pub type LineResult = Result<Option<CalcResult>, ()>;

pub open spec fn line_result_wf(result: LineResult) -> bool {
    match result {
        Ok(Some(value)) => value.wf(),
        _ => true,
    }
}

/// A line result's contents.
pub open spec fn line_result_view(result: LineResult) -> Result<Option<CalcResultView>, ()> {
    match result {
        Ok(Some(value)) => Ok(Some(value@)),
        Ok(None) => Ok(None),
        Err(_) => Err(()),
    }
}

/// What evaluating a text gave, and what kind of expression the text was.
pub struct EvaluationResult {
    pub there_was_unit_conversion: bool,
    pub there_was_operation: bool,
    pub assignment: bool,
    pub result: CalcResult,
}

/// A name that later lines can use, and its value.
pub struct Variable {
    pub name: Vec<char>,
    pub value: Result<CalcResult, ()>,
    pub defined_at_row: usize,
}

/// A variable's contents.
#[verifier::ext_equal]
pub struct VariableView {
    pub name: Seq<char>,
    pub value: Result<CalcResultView, ()>,
    pub defined_at_row: int,
}

pub open spec fn value_view(value: Result<CalcResult, ()>) -> Result<CalcResultView, ()> {
    match value {
        Ok(v) => Ok(v@),
        Err(_) => Err(()),
    }
}

pub open spec fn value_wf(value: Result<CalcResult, ()>) -> bool {
    match value {
        Ok(v) => v.wf(),
        Err(_) => true,
    }
}

impl View for Variable {
    type V = VariableView;

    open spec fn view(&self) -> VariableView {
        VariableView {
            name: self.name@,
            value: value_view(self.value),
            defined_at_row: self.defined_at_row as int,
        }
    }
}

pub open spec fn variables_view(vars: Seq<Variable>) -> Seq<VariableView> {
    Seq::new(vars.len(), |i: int| vars[i]@)
}

pub open spec fn variables_wf(vars: Seq<Variable>) -> bool {
    forall|i: int| 0 <= i < vars.len() ==> value_wf((#[trigger] vars[i]).value)
}

/// The results of all the lines.
pub struct Results(pub Vec<LineResult>);

impl Results {
    /// There is a result for each of the lines that the calculator handles.
    pub open spec fn wf(self) -> bool {
        &&& self.0@.len() == MAX_LINE_COUNT
        &&& forall|i: int| 0 <= i < self.0@.len() ==> line_result_wf(#[trigger] self.0@[i])
    }

    pub fn new() -> (r: Results)
        ensures
            r.wf(),
            forall|i: int|
                0 <= i < MAX_LINE_COUNT ==> line_result_view(#[trigger] r.0@[i]) == Ok::<
                    Option<CalcResultView>,
                    (),
                >(None),
    {
        let mut v: Vec<LineResult> = Vec::with_capacity(MAX_LINE_COUNT);
        let mut i: usize = 0;
        while i < MAX_LINE_COUNT
            invariant
                i <= MAX_LINE_COUNT,
                v@.len() == i,
                forall|k: int| 0 <= k < i ==> (#[trigger] v@[k]) is Ok && v@[k]->Ok_0 is None,
            decreases MAX_LINE_COUNT - i,
        {
            v.push(Ok(None));
            i += 1;
        }
        Results(v)
    }

    pub fn as_slice(&self) -> (r: &[LineResult])
        ensures
            r@ == self.0@,
    {
        self.0.as_slice()
    }
}

impl std::ops::Index<EditorY> for Results {
    type Output = LineResult;

    fn index(&self, index: EditorY) -> (r: &LineResult)
        ensures
            *r == self.0@[index.0 as int],
    {
        &self.0[index.0]
    }
}

impl vstd::std_specs::core::IndexSpecImpl<EditorY> for Results {
    open spec fn index_req(&self, index: &EditorY) -> bool {
        index.0 < self.0@.len()
    }
}

impl Results {
    /// Stores the result of a line.
    pub fn set(&mut self, index: EditorY, result: LineResult)
        requires
            index.0 < old(self).0@.len(),
        ensures
            final(self).0@ == old(self).0@.update(index.0 as int, result),
    {
        self.0[index.0] = result;
    }
}

} // verus!
