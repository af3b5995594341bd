use notecalc::app::{NoteCalcApp, RedrawTarget, LEFT_GUTTER_WIDTH};
use notecalc::buckets::{OutputMessage, RenderBuckets};
use notecalc::content::{EditorContent, LineData};
use notecalc::coords::{EditorY, Pos, RenderPosY, Selection};
use notecalc::editor::{
    Editor, EditorCommand, EditorInputEvent, InputModifiers, RowModificationType,
};
use notecalc::events::FocusedEditor;
use notecalc::objects::{EditorObjectType, EditorObjects};
use notecalc::results::{
    CalcResult, EvaluationResult, FormatTexts, MatrixData, ResultFormat, ResultLengths, ResultText,
    Results, ScalarResult, Variable,
};
use notecalc::row_flags::EditorRowFlags;
use notecalc::selection_sum::{SelectionQuestion, SelectionValue, SumAction};
use notecalc::tokens::{AppTokens, OperatorTokenType, Token, TokenType, Tokens};
use notecalc::update::{TokenUpdate, UpdateAction, UpdateEvent};
use std::ops::RangeInclusive;
use typed_arena::Arena;

/// A plain text editor: what the calculator expects to stand behind it.
struct TextEditor<T> {
    last_column: usize,
    clipboard: String,
    history: Vec<(Vec<Vec<char>>, Vec<T>, Selection)>,
    next_blink_at: u32,
}

impl<T: Copy + Default> TextEditor<T> {
    fn new() -> TextEditor<T> {
        TextEditor { last_column: 0, clipboard: String::new(), history: Vec::new(), next_blink_at: 0 }
    }

    fn select(&mut self, editor: &mut Editor, selection: Selection) {
        editor.selection = selection;
        self.last_column = selection.get_cursor_pos().column;
    }

    fn move_to(&mut self, editor: &mut Editor, pos: Pos, extend: bool) {
        let start = editor.selection.start;
        editor.selection = if extend && pos != start {
            Selection::range(start, pos)
        } else {
            Selection::single(pos)
        };
    }

    fn save(&mut self, editor: &Editor, content: &EditorContent<T>) {
        self.history.push((content.lines.clone(), content.data.clone(), editor.selection));
    }

    /// Removes what is selected and leaves the cursor there.
    fn remove_selected(
        &mut self,
        editor: &mut Editor,
        content: &mut EditorContent<T>,
    ) -> RowModificationType {
        let (first, second) = editor.selection.get_range();
        let tail: Vec<char> = content.lines[second.row][second.column..].to_vec();
        content.lines[first.row].truncate(first.column);
        content.lines[first.row].extend(tail);
        content.lines.drain(first.row + 1..=second.row);
        content.data.drain(first.row + 1..=second.row);
        self.select(editor, Selection::single(first));
        if first.row == second.row {
            RowModificationType::SingleLine(first.row)
        } else {
            RowModificationType::AllLinesFrom(first.row)
        }
    }

    fn split_line(&mut self, editor: &mut Editor, content: &mut EditorContent<T>) {
        let pos = editor.selection.get_cursor_pos();
        let rest = content.lines[pos.row].split_off(pos.column);
        content.lines.insert(pos.row + 1, rest);
        content.data.insert(pos.row + 1, T::default());
        self.select(editor, Selection::single_r_c(pos.row + 1, 0));
    }

    fn type_char(&mut self, editor: &mut Editor, content: &mut EditorContent<T>, ch: char) {
        let pos = editor.selection.get_cursor_pos();
        content.lines[pos.row].insert(pos.column, ch);
        self.select(editor, Selection::single_r_c(pos.row, pos.column + 1));
    }

    fn insert_text(
        &mut self,
        editor: &mut Editor,
        content: &mut EditorContent<T>,
        text: &str,
    ) -> Option<RowModificationType> {
        self.save(editor, content);
        let removed = if editor.selection.is_range() {
            Some(self.remove_selected(editor, content))
        } else {
            None
        };
        let row = editor.selection.get_cursor_pos().row;
        for ch in text.chars() {
            if ch == '\n' {
                self.split_line(editor, content);
            } else {
                self.type_char(editor, content, ch);
            }
        }
        match removed {
            Some(RowModificationType::AllLinesFrom(from)) => {
                Some(RowModificationType::AllLinesFrom(from))
            }
            _ if text.contains('\n') => Some(RowModificationType::AllLinesFrom(row)),
            _ => Some(RowModificationType::SingleLine(row)),
        }
    }

    fn take_key(
        &mut self,
        editor: &mut Editor,
        content: &mut EditorContent<T>,
        input: EditorInputEvent,
        modifiers: InputModifiers,
    ) -> Option<RowModificationType> {
        let pos = editor.selection.get_cursor_pos();
        let selected = editor.selection.is_range();
        let (first, second) = editor.selection.get_range();
        let last_row = content.lines.len() - 1;
        if modifiers.ctrl {
            return self.take_shortcut(editor, content, input);
        }
        match input {
            EditorInputEvent::Left => {
                let to = if selected && !modifiers.shift {
                    first
                } else if pos.column > 0 {
                    Pos::from_row_column(pos.row, pos.column - 1)
                } else if pos.row > 0 {
                    Pos::from_row_column(pos.row - 1, content.lines[pos.row - 1].len())
                } else {
                    pos
                };
                self.move_to(editor, to, modifiers.shift);
                self.last_column = to.column;
                None
            }
            EditorInputEvent::Right => {
                let to = if selected && !modifiers.shift {
                    second
                } else if pos.column < content.lines[pos.row].len() {
                    Pos::from_row_column(pos.row, pos.column + 1)
                } else if pos.row < last_row {
                    Pos::from_row_column(pos.row + 1, 0)
                } else {
                    pos
                };
                self.move_to(editor, to, modifiers.shift);
                self.last_column = to.column;
                None
            }
            EditorInputEvent::Up => {
                let to = if pos.row > 0 {
                    let len = content.lines[pos.row - 1].len();
                    Pos::from_row_column(pos.row - 1, self.last_column.min(len))
                } else {
                    Pos::from_row_column(0, 0)
                };
                self.move_to(editor, to, modifiers.shift);
                None
            }
            EditorInputEvent::Down => {
                let to = if pos.row < last_row {
                    let len = content.lines[pos.row + 1].len();
                    Pos::from_row_column(pos.row + 1, self.last_column.min(len))
                } else {
                    Pos::from_row_column(pos.row, content.lines[pos.row].len())
                };
                self.move_to(editor, to, modifiers.shift);
                None
            }
            EditorInputEvent::Home => {
                self.move_to(editor, pos.with_column(0), modifiers.shift);
                self.last_column = 0;
                None
            }
            EditorInputEvent::End => {
                let to = pos.with_column(content.lines[pos.row].len());
                self.move_to(editor, to, modifiers.shift);
                self.last_column = to.column;
                None
            }
            EditorInputEvent::PageUp => {
                self.move_to(editor, Pos::from_row_column(0, 0), modifiers.shift);
                None
            }
            EditorInputEvent::PageDown => {
                let len = content.lines[last_row].len();
                let to = Pos::from_row_column(last_row, self.last_column.min(len));
                self.move_to(editor, to, modifiers.shift);
                None
            }
            EditorInputEvent::Esc => {
                self.move_to(editor, pos, false);
                None
            }
            EditorInputEvent::Enter => {
                self.save(editor, content);
                if selected {
                    self.remove_selected(editor, content);
                }
                self.split_line(editor, content);
                Some(RowModificationType::AllLinesFrom(first.row))
            }
            EditorInputEvent::Backspace | EditorInputEvent::Del if selected => {
                self.save(editor, content);
                Some(self.remove_selected(editor, content))
            }
            EditorInputEvent::Backspace => {
                let to = if pos.column > 0 {
                    Pos::from_row_column(pos.row, pos.column - 1)
                } else if pos.row > 0 {
                    Pos::from_row_column(pos.row - 1, content.lines[pos.row - 1].len())
                } else {
                    return None;
                };
                self.save(editor, content);
                editor.selection = Selection::range(to, pos);
                Some(self.remove_selected(editor, content))
            }
            EditorInputEvent::Del => {
                let to = if pos.column < content.lines[pos.row].len() {
                    Pos::from_row_column(pos.row, pos.column + 1)
                } else if pos.row < last_row {
                    Pos::from_row_column(pos.row + 1, 0)
                } else {
                    return None;
                };
                self.save(editor, content);
                editor.selection = Selection::range(pos, to);
                Some(self.remove_selected(editor, content))
            }
            EditorInputEvent::Tab => {
                let blanks = " ".repeat(4 - pos.column % 4);
                self.insert_text(editor, content, &blanks)
            }
            EditorInputEvent::Char(ch) => self.insert_text(editor, content, &ch.to_string()),
        }
    }

    fn take_shortcut(
        &mut self,
        editor: &mut Editor,
        content: &mut EditorContent<T>,
        input: EditorInputEvent,
    ) -> Option<RowModificationType> {
        let (first, second) = editor.selection.get_range();
        match input {
            EditorInputEvent::Char('a') => {
                let last_row = content.lines.len() - 1;
                let end = Pos::from_row_column(last_row, content.lines[last_row].len());
                self.select(editor, Selection::range(Pos::from_row_column(0, 0), end));
                None
            }
            EditorInputEvent::Char('c') => {
                self.clipboard = selected_text(content, first, second);
                None
            }
            EditorInputEvent::Char('x') if first != second => {
                self.save(editor, content);
                self.clipboard = selected_text(content, first, second);
                Some(self.remove_selected(editor, content))
            }
            EditorInputEvent::Char('x') => {
                self.save(editor, content);
                self.clipboard = content.lines[first.row].iter().collect();
                content.lines.remove(first.row);
                content.data.remove(first.row);
                if content.lines.is_empty() {
                    content.lines.push(Vec::new());
                    content.data.push(T::default());
                }
                let row = first.row.min(content.lines.len() - 1);
                self.select(editor, Selection::single_r_c(row, 0));
                Some(RowModificationType::AllLinesFrom(first.row))
            }
            EditorInputEvent::Char('z') => {
                let (lines, data, selection) = self.history.pop()?;
                let row = selection.get_first().row;
                content.lines = lines;
                content.data = data;
                self.select(editor, selection);
                Some(RowModificationType::AllLinesFrom(row))
            }
            _ => None,
        }
    }

    /// Makes the cursor appear or disappear twice a second.
    fn tick(&mut self, editor: &mut Editor, now: u32) -> bool {
        if now < self.next_blink_at {
            return false;
        }
        editor.cursor_shown = !editor.cursor_shown;
        self.next_blink_at = now + 500;
        true
    }
}

fn selected_text<T: Copy>(content: &EditorContent<T>, first: Pos, second: Pos) -> String {
    let mut text = String::new();
    for row in first.row..=second.row {
        let line = &content.lines[row];
        let from = if row == first.row { first.column } else { 0 };
        let to = if row == second.row { second.column } else { line.len() };
        text.extend(&line[from..to]);
        if row < second.row {
            text.push('\n');
        }
    }
    text
}

/// A number with its unit, or a matrix of them.
#[derive(Clone, Debug)]
enum Value {
    Number(f64, String),
    Matrix(usize, usize, Vec<Value>),
}

fn grouped(digits: &str, size: usize) -> String {
    let mut text = String::new();
    for (i, ch) in digits.chars().enumerate() {
        if i > 0 && (digits.len() - i) % size == 0 {
            text.push(' ');
        }
        text.push(ch);
    }
    text
}

fn dec_parts(number: f64, decimals: usize) -> (String, String) {
    let text = format!("{:.*}", decimals, number.abs());
    let (whole, fraction) = match text.split_once('.') {
        Some((whole, fraction)) => (whole, fraction.trim_end_matches('0')),
        None => (text.as_str(), ""),
    };
    let sign = if number < 0.0 { "-" } else { "" };
    let fraction = if fraction.is_empty() { String::new() } else { format!(".{}", fraction) };
    (format!("{}{}", sign, grouped(whole, 3)), fraction)
}

fn result_text(whole: String, fraction: String, unit: &str) -> ResultText {
    let lengths = ResultLengths {
        int_part_len: whole.len(),
        frac_part_len: fraction.len(),
        unit_part_len: unit.len(),
    };
    let blank = if unit.is_empty() { "" } else { " " };
    ResultText { text: format!("{}{}{}{}", whole, fraction, blank, unit), lengths }
}

fn format_texts(number: f64, unit: &str, decimals: usize) -> FormatTexts {
    let (whole, fraction) = dec_parts(number, decimals);
    FormatTexts {
        bin: result_text(grouped(&format!("{:b}", number as i64), 8), String::new(), unit),
        dec: result_text(whole, fraction, unit),
        hex: result_text(grouped(&format!("{:X}", number as i64), 2), String::new(), unit),
    }
}

fn scalar(number: f64, unit: &str) -> ScalarResult {
    ScalarResult {
        full: format_texts(number, unit, 10),
        two: format_texts(number, unit, 2),
        four: format_texts(number, unit, 4),
    }
}

fn shown(value: &Value) -> CalcResult {
    match value {
        Value::Number(number, unit) => CalcResult::Scalar(scalar(*number, unit)),
        Value::Matrix(row_count, col_count, cells) => {
            let numbers: Vec<ScalarResult> = cells
                .iter()
                .map(|cell| match cell {
                    Value::Number(number, unit) => scalar(*number, unit),
                    Value::Matrix(..) => scalar(0.0, ""),
                })
                .collect();
            let mut inline = String::from("[");
            for (i, cell) in numbers.iter().enumerate() {
                if i > 0 {
                    inline.push_str(if i % col_count == 0 { "; " } else { ", " });
                }
                inline.push_str(&cell.four.dec.text);
            }
            inline.push(']');
            let written = || result_text(inline.clone(), String::new(), "");
            CalcResult::Matrix(MatrixData {
                row_count: *row_count,
                col_count: *col_count,
                cells: numbers,
                inline: FormatTexts { bin: written(), dec: written(), hex: written() },
            })
        }
    }
}

fn number_of(result: &ScalarResult) -> Value {
    let text = &result.full.dec;
    let len = text.lengths.int_part_len + text.lengths.frac_part_len;
    let number: String = text.text[..len].chars().filter(|ch| *ch != ' ').collect();
    Value::Number(number.parse().unwrap(), text.text[len..].trim().to_owned())
}

fn value_of(result: &CalcResult) -> Value {
    match result {
        CalcResult::Scalar(result) => number_of(result),
        CalcResult::Matrix(mat) => Value::Matrix(
            mat.row_count,
            mat.col_count,
            mat.cells.iter().map(number_of).collect(),
        ),
    }
}

fn added(a: &Value, b: &Value, sign: f64) -> Option<Value> {
    match (a, b) {
        (Value::Number(x, unit), Value::Number(y, other)) if unit == other => {
            Some(Value::Number(x + sign * y, unit.clone()))
        }
        (Value::Matrix(rows, cols, cells), Value::Matrix(rows2, cols2, others))
            if rows == rows2 && cols == cols2 =>
        {
            let sums: Option<Vec<Value>> =
                cells.iter().zip(others).map(|(x, y)| added(x, y, sign)).collect();
            Some(Value::Matrix(*rows, *cols, sums?))
        }
        _ => None,
    }
}

fn multiplied(a: &Value, b: &Value) -> Option<Value> {
    match (a, b) {
        (Value::Number(x, unit), Value::Number(y, other)) => {
            let product = if unit.is_empty() {
                other.clone()
            } else if other.is_empty() {
                unit.clone()
            } else if unit == other {
                format!("{}^2", unit)
            } else {
                format!("{} {}", unit, other)
            };
            Some(Value::Number(x * y, product))
        }
        (Value::Matrix(rows, inner, cells), Value::Matrix(inner2, cols, others)) => {
            if inner != inner2 {
                return None;
            }
            let mut products = Vec::new();
            for row in 0..*rows {
                for col in 0..*cols {
                    let mut sum = multiplied(&cells[row * inner], &others[col])?;
                    for i in 1..*inner {
                        let product =
                            multiplied(&cells[row * inner + i], &others[i * cols + col])?;
                        sum = added(&sum, &product, 1.0)?;
                    }
                    products.push(sum);
                }
            }
            Some(Value::Matrix(*rows, *cols, products))
        }
        _ => None,
    }
}

/// The variables that a line can use: the running sum, and what is defined above.
fn is_visible(variable: &Variable, row: usize) -> bool {
    variable.name == ['s', 'u', 'm'] || variable.defined_at_row < row
}

/// Takes a line apart. Blanks and words that mean nothing are literals.
fn tokenize<'a>(line: &'a [char], row: usize, vars: &[Variable]) -> Vec<Token<'a>> {
    let mut tokens: Vec<Token<'a>> = Vec::new();
    let mut at = 0;
    let mut in_matrix = false;
    while at < line.len() {
        let rest = &line[at..];
        let known = vars
            .iter()
            .enumerate()
            .filter(|(_, variable)| is_visible(variable, row) && rest.starts_with(&variable.name))
            .filter(|(_, variable)| {
                let next = rest.get(variable.name.len());
                variable.name[0] == '&' || !next.map_or(false, |ch| ch.is_alphanumeric())
            })
            .last();
        let run = |wanted: fn(char) -> bool| rest.iter().take_while(|ch| wanted(**ch)).count();
        let (len, typ) = if let Some((var_index, variable)) = known {
            if variable.name[0] == '&' {
                (variable.name.len(), TokenType::LineReference { var_index })
            } else {
                (variable.name.len(), TokenType::Variable { var_index })
            }
        } else if rest[0].is_ascii_digit() {
            (run(|ch| ch.is_ascii_digit() || ch == '.'), TokenType::NumberLiteral)
        } else if rest[0].is_whitespace() {
            (run(|ch| ch.is_whitespace()), TokenType::StringLiteral)
        } else if rest[0].is_alphabetic() || rest[0] == '$' {
            let len = run(|ch| ch.is_alphanumeric() || ch == '_' || ch == '$');
            let word: String = rest[..len].iter().collect();
            let after_number =
                tokens.last().map_or(false, |token| token.typ == TokenType::NumberLiteral);
            if after_number && ["m", "km", "$"].contains(&word.as_str()) {
                (len, TokenType::Unit)
            } else {
                (len, TokenType::StringLiteral)
            }
        } else if rest[0] == '[' && rest.contains(&']') {
            in_matrix = true;
            let body = &rest[..rest.iter().position(|ch| *ch == ']').unwrap()];
            let row_count = 1 + body.iter().filter(|ch| **ch == ';').count();
            let separators = body.iter().filter(|ch| **ch == ',').count();
            let col_count = 1 + separators / row_count;
            (1, TokenType::Operator(OperatorTokenType::Matrix { row_count, col_count }))
        } else if rest[0] == ']' && in_matrix {
            in_matrix = false;
            (1, TokenType::Operator(OperatorTokenType::BracketClose))
        } else if rest[0] == ',' && in_matrix {
            (1, TokenType::Operator(OperatorTokenType::Comma))
        } else if rest[0] == ';' && in_matrix {
            (1, TokenType::Operator(OperatorTokenType::Semicolon))
        } else if "+-*/=()".contains(rest[0]) {
            (1, TokenType::Operator(OperatorTokenType::Other))
        } else {
            (1, TokenType::StringLiteral)
        };
        tokens.push(Token { ptr: &rest[..len], typ });
        at += len;
    }
    tokens
}

/// Evaluates the tokens of a line. Literals count for nothing.
struct Evaluator<'t> {
    tokens: Vec<Token<'t>>,
    at: usize,
    vars: &'t [Variable],
    there_was_operation: bool,
}

impl<'t> Evaluator<'t> {
    fn next_operator(&self) -> Option<char> {
        self.tokens.get(self.at).and_then(|token| match token.typ {
            TokenType::Operator(_) => Some(token.ptr[0]),
            _ => None,
        })
    }

    fn sum(&mut self) -> Option<Value> {
        let mut value = self.product()?;
        while let Some(operator) = self.next_operator() {
            let sign = match operator {
                '+' => 1.0,
                '-' => -1.0,
                _ => break,
            };
            self.at += 1;
            self.there_was_operation = true;
            value = added(&value, &self.product()?, sign)?;
        }
        Some(value)
    }

    fn product(&mut self) -> Option<Value> {
        let mut value = self.factor()?;
        while self.next_operator() == Some('*') {
            self.at += 1;
            self.there_was_operation = true;
            value = multiplied(&value, &self.factor()?)?;
        }
        Some(value)
    }

    fn factor(&mut self) -> Option<Value> {
        let token = *self.tokens.get(self.at)?;
        self.at += 1;
        match token.typ {
            TokenType::NumberLiteral => {
                let number: String = token.ptr.iter().collect();
                let unit = match self.tokens.get(self.at) {
                    Some(next) if next.typ == TokenType::Unit => {
                        self.at += 1;
                        next.ptr.iter().collect()
                    }
                    _ => String::new(),
                };
                Some(Value::Number(number.parse().ok()?, unit))
            }
            TokenType::Variable { var_index } | TokenType::LineReference { var_index } => {
                self.vars[var_index].value.as_ref().ok().map(value_of)
            }
            TokenType::Operator(OperatorTokenType::Matrix { row_count, col_count }) => {
                let mut cells = Vec::new();
                loop {
                    cells.push(self.sum()?);
                    let closed = self.next_operator() == Some(']');
                    self.at += 1;
                    if closed {
                        break;
                    }
                }
                if cells.len() == row_count * col_count {
                    Some(Value::Matrix(row_count, col_count, cells))
                } else {
                    None
                }
            }
            TokenType::Operator(_) => match token.ptr[0] {
                '+' => self.factor(),
                '-' => multiplied(&Value::Number(-1.0, String::new()), &self.factor()?),
                '(' => {
                    let value = self.sum()?;
                    self.at += 1;
                    Some(value)
                }
                _ => None,
            },
            _ => None,
        }
    }
}

/// What a line is worth, whether something was computed, and whether it is
/// assigned to a name.
fn evaluate(tokens: &[Token], vars: &[Variable]) -> Result<Option<(Value, bool, bool)>, ()> {
    let equals = tokens.iter().position(|token| token.ptr[0] == '=');
    let named = |at: usize| tokens[..at].iter().any(|token| !token.ptr[0].is_whitespace());
    let assigned = equals.filter(|at| named(*at));
    let from = assigned.map_or(0, |at| at + 1);
    let meaningful: Vec<Token> = tokens[from..]
        .iter()
        .filter(|token| token.typ != TokenType::StringLiteral)
        .copied()
        .collect();
    if meaningful.is_empty() {
        return Ok(None);
    }
    let mut evaluator =
        Evaluator { tokens: meaningful, at: 0, vars, there_was_operation: false };
    let value = evaluator.sum().ok_or(())?;
    if evaluator.at < evaluator.tokens.len() {
        return Err(());
    }
    Ok(Some((value, evaluator.there_was_operation, assigned.is_some())))
}

/// The calculator with an editor and an evaluator.
struct Pad {
    app: NoteCalcApp,
    arena: &'static Arena<char>,
    text: TextEditor<LineData>,
    cell: TextEditor<usize>,
    tokens: AppTokens<'static>,
    results: Results,
    vars: Vec<Variable>,
    editor_objects: EditorObjects,
}

impl Pad {
    fn new(client_height: usize) -> Pad {
        Pad {
            app: NoteCalcApp::new(120, client_height),
            arena: Box::leak(Box::new(Arena::new())),
            text: TextEditor::new(),
            cell: TextEditor::new(),
            tokens: AppTokens::new(),
            results: Results::new(),
            vars: vec![Variable { name: vec!['s', 'u', 'm'], value: Err(()), defined_at_row: 0 }],
            editor_objects: EditorObjects::new(),
        }
    }

    fn content(&self) -> String {
        self.app.editor_content.get_content()
    }

    fn select(&mut self, selection: Selection) {
        self.text.select(&mut self.app.editor, selection);
    }

    /// Does what the calculator asks for; answers what the last request edited.
    fn run(&mut self, commands: Vec<EditorCommand>) -> Option<RowModificationType> {
        let mut edited = None;
        for command in commands {
            let editor = &mut self.app.editor;
            let content = &mut self.app.editor_content;
            edited = match command {
                EditorCommand::Select(selection) => {
                    self.text.select(editor, selection);
                    None
                }
                EditorCommand::SetCursor(pos) => {
                    self.text.select(editor, Selection::single(pos));
                    None
                }
                EditorCommand::Input(input, modifiers) => {
                    self.text.take_key(editor, content, input, modifiers)
                }
                EditorCommand::InsertText(text) => self.text.insert_text(editor, content, &text),
                EditorCommand::Click(pos) => {
                    let row = pos.row.min(content.lines.len() - 1);
                    let column = pos.column.min(content.lines[row].len());
                    self.text.select(editor, Selection::single_r_c(row, column));
                    None
                }
                EditorCommand::Drag(pos) => {
                    let row = pos.row.min(content.lines.len() - 1);
                    let column = pos.column.min(content.lines[row].len());
                    self.text.move_to(editor, Pos::from_row_column(row, column), true);
                    None
                }
                EditorCommand::BlinkCursor => {
                    editor.cursor_shown = true;
                    None
                }
                EditorCommand::CellInput(input, modifiers) => {
                    let edited = self.app.matrix_editing.as_mut().unwrap();
                    let content = &mut edited.editor_content;
                    self.cell.take_key(&mut edited.editor, content, input, modifiers);
                    None
                }
            };
        }
        edited
    }

    fn parsed(&self, row: usize) -> (Tokens<'static>, Result<Option<EvaluationResult>, ()>) {
        let line: &'static [char] =
            self.arena.alloc_extend(self.app.editor_content.lines[row].iter().copied());
        let tokens = tokenize(line, row, &self.vars);
        let evaluation = evaluate(&tokens, &self.vars).map(|value| {
            value.map(|(value, there_was_operation, assignment)| EvaluationResult {
                there_was_unit_conversion: false,
                there_was_operation,
                assignment,
                result: shown(&value),
            })
        });
        let shunting_output_stack = tokens.iter().map(|token| token.typ).collect();
        (Tokens { tokens, shunting_output_stack }, evaluation)
    }

    fn update(&mut self, effect: RowModificationType) {
        let mut update = TokenUpdate::new(effect);
        let mut event = UpdateEvent::Continue;
        loop {
            let action = self.app.update_tokens_and_redraw_requirements(
                &mut update,
                event,
                &mut self.tokens,
                &mut self.results,
                &mut self.vars,
            );
            event = match action {
                UpdateAction::Finished => return,
                UpdateAction::Proceed => UpdateEvent::Continue,
                UpdateAction::Parse(row) => {
                    let (tokens, evaluation) = self.parsed(row);
                    UpdateEvent::Parsed { tokens, evaluation }
                }
                UpdateAction::Add(row) => {
                    let sum = value_of(self.vars[0].value.as_ref().unwrap());
                    let result = self.results[EditorY::new(row)].as_ref().unwrap();
                    let value = value_of(result.as_ref().unwrap());
                    UpdateEvent::Added(added(&sum, &value, 1.0).map(|sum| shown(&sum)))
                }
            };
        }
    }

    fn paste<S: Into<String>>(&mut self, text: S) {
        let commands = self.app.handle_paste(text.into());
        if let Some(effect) = self.run(commands) {
            self.update(effect);
        }
    }

    fn set_normalized_content(&mut self, text: &str) {
        let (commands, effect) = self.app.set_normalized_content(text);
        self.run(commands);
        self.update(effect);
    }

    fn input(
        &mut self,
        input: EditorInputEvent,
        modifiers: InputModifiers,
    ) -> Option<RowModificationType> {
        let outcome = self.app.handle_input_and_update_tokens_plus_redraw_requirements(
            input,
            modifiers,
            &self.tokens,
            &self.results,
            &self.vars,
            &mut self.editor_objects,
        );
        let edited = self.run(outcome.commands);
        let effect = self.app.finish_input(outcome.next, edited, &self.editor_objects);
        if let Some(effect) = effect {
            self.update(effect);
        }
        effect
    }

    fn alt_key_released(&mut self) {
        if let Some((commands, effect)) = self.app.alt_key_released(&self.results) {
            self.run(commands);
            self.update(effect);
        }
    }

    fn click(&mut self, x: usize, y: RenderPosY) {
        let outcome = self.app.handle_click(x, y, &self.editor_objects);
        self.run(outcome.commands);
        if let Some(selection) = outcome.clicked_from {
            self.app.finish_click(selection);
        }
    }

    fn drag(&mut self, x: usize, y: RenderPosY) {
        let commands = self.app.handle_drag(x, y);
        self.run(commands);
    }

    fn handle_time(&mut self, now: u32) -> bool {
        let blinked = match self.app.focused_editor() {
            FocusedEditor::Text => self.text.tick(&mut self.app.editor, now),
            FocusedEditor::MatrixCell => {
                let edited = self.app.matrix_editing.as_mut().unwrap();
                self.cell.tick(&mut edited.editor, now)
            }
        };
        self.app.handle_time(blinked)
    }

    /// The text that is shown for the value of what is selected.
    fn selected_value(&self) -> Option<String> {
        if !self.app.editor.selection.is_range() {
            return None;
        }
        let question =
            NoteCalcApp::evaluate_selection(&self.app.editor, &self.app.editor_content);
        match question {
            SelectionQuestion::Text { row, text, format } => {
                let tokens = tokenize(&text, row, &self.vars);
                let value = evaluate(&tokens, &self.vars).map(|value| {
                    value.map(|(value, there_was_operation, _)| SelectionValue {
                        there_was_operation,
                        texts: match shown(&value) {
                            CalcResult::Scalar(result) => result.four,
                            CalcResult::Matrix(mat) => mat.inline,
                        },
                    })
                });
                NoteCalcApp::selection_text(&value, format)
            }
            SelectionQuestion::Rows(mut sum) => {
                let results = self.results.as_slice();
                let mut action = sum.advance(results);
                while action == SumAction::Add {
                    let so_far = value_of(sum.sum.as_ref().unwrap());
                    let line = value_of(results[sum.row].as_ref().unwrap().as_ref().unwrap());
                    let next = added(&so_far, &line, 1.0).map(|sum| shown(&sum));
                    action = sum.added(next, results);
                }
                match action {
                    SumAction::Done => sum.text(),
                    _ => None,
                }
            }
        }
    }

    fn render_with<F: FnOnce(&RenderBuckets, &NoteCalcApp)>(&mut self, look: F) -> [u8; 128] {
        let mut result_buffer = [0u8; 128];
        {
            let mut render_buckets = RenderBuckets::new();
            let selected_value = self.selected_value();
            self.app.render(
                &mut render_buckets,
                &mut result_buffer,
                self.arena,
                &self.tokens,
                &self.results,
                &self.vars,
                &mut self.editor_objects,
                &selected_value,
            );
            look(&render_buckets, &self.app);
        }
        result_buffer
    }

    fn render(&mut self) -> [u8; 128] {
        self.render_with(|_, _| {})
    }

    fn copy_selected_rows_with_result_to_clipboard(&self) -> String {
        let mut result_buffer = [0u8; 128];
        let lines = &self.app.editor_content.lines;
        let line_tokens: Vec<Vec<Token>> = lines
            .iter()
            .enumerate()
            .map(|(row, line)| tokenize(line, row, &self.vars))
            .collect();
        self.app.copy_selected_rows_with_result_to_clipboard(
            &mut RenderBuckets::new(),
            &mut result_buffer,
            &line_tokens,
            &self.vars,
            &self.results,
        )
    }
}

#[test]
fn bug1() {
    let mut pad = Pad::new(35);
    pad.paste("[123, 2, 3; 4567981, 5, 6] * [1; 2; 3;4]");

    pad.select(Selection::single_r_c(0, 33));
    pad.input(EditorInputEvent::Right, InputModifiers::alt());
    pad.render();
}

#[test]
fn bug2() {
    let mut pad = Pad::new(35);
    pad.paste("[123, 2, 3; 4567981, 5, 6] * [1; 2; 3;4]");
    pad.select(Selection::single_r_c(0, 1));

    pad.input(EditorInputEvent::Right, InputModifiers::alt());
    pad.render();
    pad.input(EditorInputEvent::Down, InputModifiers::none());
    pad.render();
}

#[test]
fn bug3() {
    let mut pad = Pad::new(35);
    pad.paste("1\n\
            2+");
    pad.select(Selection::single_r_c(1, 2));
    pad.input(EditorInputEvent::Up, InputModifiers::alt());
    pad.alt_key_released();
    pad.render();
}

#[test]
fn bug4() {
    let mut pad = Pad::new(35);
    pad.paste("1\n\
            ");
    pad.render();
    pad.select(Selection::single_r_c(1, 0));
    pad.input(EditorInputEvent::Up, InputModifiers::alt());
    pad.alt_key_released();
    pad.render();
    assert_eq!(
        "1\n\
         &[1]",
        pad.content()
    );
}

#[test]
fn bug5() {
    let mut pad = Pad::new(35);
    pad.paste("123\na ");

    pad.input(EditorInputEvent::Up, InputModifiers::alt());
    pad.alt_key_released();
    assert_eq!(3, pad.tokens[EditorY::new(1)].as_ref().unwrap().tokens.len());
}

#[test]
fn it_is_not_allowed_to_ref_lines_below() {
    let mut pad = Pad::new(35);
    pad.paste("1\n\
            2+\n3\n4");
    pad.render();
    pad.select(Selection::single_r_c(1, 2));
    pad.input(EditorInputEvent::Down, InputModifiers::alt());
    pad.alt_key_released();
    pad.render();
    assert_eq!(
        "1\n\
            2+\n3\n4",
        pad.content()
    );
}

#[test]
fn it_is_not_allowed_to_ref_lines_below2() {
    let mut pad = Pad::new(35);
    pad.paste("1\n\
            2+\n3\n4");
    pad.render();
    pad.select(Selection::single_r_c(1, 2));
    pad.input(EditorInputEvent::Up, InputModifiers::alt());
    pad.input(EditorInputEvent::Down, InputModifiers::alt());
    pad.alt_key_released();
    pad.render();
    assert_eq!(
        "1\n\
            2+&[1]\n3\n4",
        pad.content()
    );
}

#[test]
fn remove_matrix_backspace() {
    let mut pad = Pad::new(35);
    pad.paste("abcd [1,2,3;4,5,6]");
    pad.render();
    pad.input(EditorInputEvent::Backspace, InputModifiers::none());
    assert_eq!("abcd ", pad.content());
}

#[test]
fn matrix_step_in_dir() {
    // from right
    {
        let mut pad = Pad::new(35);
        pad.paste("abcd [1,2,3;4,5,6]");
        pad.render();
        pad.input(EditorInputEvent::Left, InputModifiers::none());
        pad.render();
        pad.input(EditorInputEvent::Char('1'), InputModifiers::none());
        pad.input(EditorInputEvent::Enter, InputModifiers::none());
        assert_eq!("abcd [1,2,1;4,5,6]", pad.content());
    }
    // from left
    {
        let mut pad = Pad::new(35);
        pad.paste("abcd [1,2,3;4,5,6]");
        pad.select(Selection::single_r_c(0, 5));
        pad.render();
        pad.input(EditorInputEvent::Right, InputModifiers::none());
        pad.render();
        pad.input(EditorInputEvent::Char('9'), InputModifiers::none());
        pad.input(EditorInputEvent::Enter, InputModifiers::none());
        assert_eq!("abcd [9,2,3;4,5,6]", pad.content());
    }
    // from below
    {
        let mut pad = Pad::new(35);
        pad.paste("abcd [1,2,3;4,5,6]\naaaaaaaaaaaaaaaaaa");
        pad.select(Selection::single_r_c(1, 7));
        pad.render();
        pad.input(EditorInputEvent::Up, InputModifiers::none());
        pad.render();
        pad.input(EditorInputEvent::Char('9'), InputModifiers::none());
        pad.input(EditorInputEvent::Enter, InputModifiers::none());
        assert_eq!(
            "abcd [1,2,3;9,5,6]\naaaaaaaaaaaaaaaaaa",
            pad.content()
        );
    }
    // from above
    {
        let mut pad = Pad::new(35);
        pad.paste("aaaaaaaaaaaaaaaaaa\nabcd [1,2,3;4,5,6]");
        pad.select(Selection::single_r_c(0, 7));
        pad.render();
        pad.input(EditorInputEvent::Down, InputModifiers::none());
        pad.render();
        pad.input(EditorInputEvent::Char('9'), InputModifiers::none());
        pad.input(EditorInputEvent::Enter, InputModifiers::none());
        assert_eq!(
            "aaaaaaaaaaaaaaaaaa\nabcd [9,2,3;4,5,6]",
            pad.content()
        );
    }
}

#[test]
fn cursor_is_put_after_the_matrix_after_finished_editing() {
    let mut pad = Pad::new(35);
    pad.paste("abcd [1,2,3;4,5,6]");
    pad.render();
    pad.input(EditorInputEvent::Left, InputModifiers::none());
    pad.render();
    pad.input(EditorInputEvent::Char('6'), InputModifiers::none());
    pad.render();
    pad.input(EditorInputEvent::Enter, InputModifiers::none());
    pad.render();
    pad.input(EditorInputEvent::Char('9'), InputModifiers::none());
    assert_eq!(pad.content(), "abcd [1,2,6;4,5,6]9");
}

#[test]
fn remove_matrix_del() {
    let mut pad = Pad::new(35);
    pad.paste("abcd [1,2,3;4,5,6]");
    pad.select(Selection::single_r_c(0, 5));
    pad.render();
    pad.input(EditorInputEvent::Del, InputModifiers::none());
    assert_eq!("abcd ", pad.content());
}

#[test]
fn test_moving_inside_a_matrix() {
    // right to left, cursor at end
    {
        let mut pad = Pad::new(35);
        pad.paste("abcd [1,2,3;4,5,6]");
        pad.render();
        pad.input(EditorInputEvent::Left, InputModifiers::none());
        pad.render();
        pad.input(EditorInputEvent::Left, InputModifiers::none());
        pad.input(EditorInputEvent::Left, InputModifiers::none());
        pad.input(EditorInputEvent::Char('9'), InputModifiers::none());
        pad.input(EditorInputEvent::Enter, InputModifiers::none());
        pad.render();
        assert_eq!("abcd [1,9,3;4,5,6]", pad.content());
    }
    // left to right, cursor at start
    {
        let mut pad = Pad::new(35);
        pad.paste("abcd [1,2,3;4,5,6]");
        pad.select(Selection::single_r_c(0, 5));
        pad.render();
        pad.input(EditorInputEvent::Right, InputModifiers::none());
        pad.render();
        pad.input(EditorInputEvent::Right, InputModifiers::none());
        pad.input(EditorInputEvent::Right, InputModifiers::none());
        pad.input(EditorInputEvent::Char('9'), InputModifiers::none());
        pad.input(EditorInputEvent::Enter, InputModifiers::none());
        pad.render();
        assert_eq!("abcd [1,2,9;4,5,6]", pad.content());
    }
    // vertical movement down, cursor tries to keep its position
    {
        let mut pad = Pad::new(35);
        pad.paste("abcd [1111,22,3;44,55555,666]");
        pad.select(Selection::single_r_c(0, 5));
        pad.render();
        pad.input(EditorInputEvent::Right, InputModifiers::none());
        pad.render();
        // inside the matrix
        pad.input(EditorInputEvent::Down, InputModifiers::none());
        pad.render();
        pad.input(EditorInputEvent::Char('9'), InputModifiers::none());
        pad.render();
        pad.input(EditorInputEvent::Enter, InputModifiers::none());
        pad.render();
        assert_eq!(
            "abcd [1111,22,3;9,55555,666]",
            pad.content()
        );
    }

    // vertical movement up, cursor tries to keep its position
    {
        let mut pad = Pad::new(35);
        pad.paste("abcd [1111,22,3;44,55555,666]");
        pad.select(Selection::single_r_c(0, 5));
        pad.render();
        pad.input(EditorInputEvent::Right, InputModifiers::none());
        pad.render();
        // inside the matrix
        pad.input(EditorInputEvent::Down, InputModifiers::none());
        pad.input(EditorInputEvent::Up, InputModifiers::none());
        pad.render();
        pad.input(EditorInputEvent::Char('9'), InputModifiers::none());
        pad.render();
        pad.input(EditorInputEvent::Enter, InputModifiers::none());
        pad.render();
        assert_eq!(
            "abcd [9,22,3;44,55555,666]",
            pad.content()
        );
    }
}

#[test]
fn test_moving_inside_a_matrix_with_tab() {
    let mut pad = Pad::new(35);
    pad.paste("[1,2,3;4,5,6]");
    pad.render();
    pad.input(EditorInputEvent::Home, InputModifiers::none());
    pad.input(EditorInputEvent::Right, InputModifiers::none());

    pad.input(EditorInputEvent::Tab, InputModifiers::none());
    pad.input(EditorInputEvent::Char('7'), InputModifiers::none());
    pad.input(EditorInputEvent::Tab, InputModifiers::none());
    pad.input(EditorInputEvent::Char('8'), InputModifiers::none());
    pad.input(EditorInputEvent::Tab, InputModifiers::none());
    pad.input(EditorInputEvent::Char('9'), InputModifiers::none());
    pad.input(EditorInputEvent::Tab, InputModifiers::none());
    pad.input(EditorInputEvent::Char('0'), InputModifiers::none());
    pad.input(EditorInputEvent::Tab, InputModifiers::none());
    pad.input(EditorInputEvent::Char('9'), InputModifiers::none());
    pad.input(EditorInputEvent::Tab, InputModifiers::none());
    pad.input(EditorInputEvent::Char('4'), InputModifiers::none());
    pad.render();
    assert_eq!("[1,7,8;9,0,9]4", pad.content());
}

#[test]
fn test_leaving_a_matrix_with_tab() {
    let mut pad = Pad::new(35);
    pad.paste("[1,2,3;4,5,6]");
    pad.render();
    pad.input(EditorInputEvent::Left, InputModifiers::none());
    pad.render();
    pad.input(EditorInputEvent::Tab, InputModifiers::none());
    pad.input(EditorInputEvent::Tab, InputModifiers::none());
    pad.input(EditorInputEvent::Tab, InputModifiers::none());
    // the next tab should leave the matrix
    pad.input(EditorInputEvent::Tab, InputModifiers::none());
    pad.input(EditorInputEvent::Char('7'), InputModifiers::none());
    pad.render();
    assert_eq!("[1,2,3;4,5,6]7", pad.content());
}

#[test]
fn end_btn_matrix() {
    {
        let mut pad = Pad::new(35);
        pad.paste("abcd [1111,22,3;44,55555,666] qq");
        pad.select(Selection::single_r_c(0, 5));
        pad.render();
        pad.input(EditorInputEvent::Right, InputModifiers::none());
        pad.render();
        // inside the matrix
        pad.input(EditorInputEvent::End, InputModifiers::none());
        pad.render();
        pad.input(EditorInputEvent::Char('9'), InputModifiers::none());
        pad.render();
        pad.input(EditorInputEvent::Enter, InputModifiers::none());
        pad.render();
        assert_eq!(
            "abcd [1111,22,9;44,55555,666] qq",
            pad.content()
        );
    }
    // pressing twice, exits the matrix
    {
        let mut pad = Pad::new(35);
        pad.paste("abcd [1111,22,3;44,55555,666] qq");
        pad.select(Selection::single_r_c(0, 5));
        pad.render();
        pad.input(EditorInputEvent::Right, InputModifiers::none());
        // inside the matrix
        pad.input(EditorInputEvent::End, InputModifiers::none());
        pad.render();
        pad.input(EditorInputEvent::End, InputModifiers::none());
        pad.render();
        pad.input(EditorInputEvent::Char('9'), InputModifiers::none());
        pad.render();
        assert_eq!(
            "abcd [1111,22,3;44,55555,666] qq9",
            pad.content()
        );
    }
}

#[test]
fn home_btn_matrix() {
    {
        let mut pad = Pad::new(35);
        pad.paste("abcd [1111,22,3;44,55555,666]");
        pad.render();
        pad.input(EditorInputEvent::Left, InputModifiers::none());
        pad.render();
        // inside the matrix
        pad.input(EditorInputEvent::Home, InputModifiers::none());
        pad.render();
        pad.input(EditorInputEvent::Char('9'), InputModifiers::none());
        pad.render();
        pad.input(EditorInputEvent::Enter, InputModifiers::none());
        pad.render();
        assert_eq!(
            "abcd [9,22,3;44,55555,666]",
            pad.content()
        );
    }
    {
        let mut pad = Pad::new(35);
        pad.paste("abcd [1111,22,3;44,55555,666]");
        pad.render();
        pad.input(EditorInputEvent::Left, InputModifiers::none());
        // inside the matrix
        pad.input(EditorInputEvent::Home, InputModifiers::none());
        pad.render();
        pad.input(EditorInputEvent::Home, InputModifiers::none());
        pad.render();
        pad.input(EditorInputEvent::Char('6'), InputModifiers::none());
        pad.render();
        assert_eq!(
            "6abcd [1111,22,3;44,55555,666]",
            pad.content()
        );
    }
}

#[test]
fn bug8() {
    let mut pad = Pad::new(35);
    pad.paste("16892313\n14 * ");
    pad.select(Selection::single_r_c(1, 5));
    pad.render();
    pad.input(EditorInputEvent::Up, InputModifiers::alt());
    pad.alt_key_released();
    assert_eq!("16892313\n14 * &[1]", pad.content());
    pad.render();
    pad.handle_time(1000);
    pad.input(EditorInputEvent::Backspace, InputModifiers::none());
    assert_eq!("16892313\n14 * ", pad.content());

    pad.input(EditorInputEvent::Char('z'), InputModifiers::ctrl());
    assert_eq!("16892313\n14 * &[1]", pad.content());

    pad.input(EditorInputEvent::Right, InputModifiers::none()); // end selection
    pad.render();
    pad.input(EditorInputEvent::Left, InputModifiers::none());
    pad.input(EditorInputEvent::Char('a'), InputModifiers::none());
    assert_eq!("16892313\n14 * a&[1]", pad.content());

    pad.input(EditorInputEvent::Char(' '), InputModifiers::none());
    pad.render();
    pad.input(EditorInputEvent::Right, InputModifiers::none());
    pad.input(EditorInputEvent::Char('b'), InputModifiers::none());
    assert_eq!("16892313\n14 * a &[1]b", pad.content());

    pad.input(EditorInputEvent::Left, InputModifiers::none());
    pad.input(EditorInputEvent::Left, InputModifiers::none());
    pad.input(EditorInputEvent::Left, InputModifiers::none());
    pad.input(EditorInputEvent::Right, InputModifiers::none());
    pad.input(EditorInputEvent::Char('c'), InputModifiers::none());
    assert_eq!("16892313\n14 * a c&[1]b", pad.content());
}

#[test]
fn test_referenced_line_calc() {
    let mut pad = Pad::new(35);
    pad.paste("2\n3 * ");
    pad.select(Selection::single_r_c(1, 4));
    pad.render();
    pad.input(EditorInputEvent::Up, InputModifiers::alt());
    pad.alt_key_released();
    assert_eq!("2\n3 * &[1]", pad.content());
    let result_buffer = pad.render();

    assert_results(&["2", "6"][..], &result_buffer);
}

#[test]
fn test_line_ref_normalization() {
    let mut pad = Pad::new(35);
    pad.paste("1\n2\n3\n4\n5\n6\n7\n8\n9\n10\n11\n12\n13\n");
    pad.select(Selection::single_r_c(12, 2));
    pad.render();
    // remove a line
    pad.input(EditorInputEvent::Up, InputModifiers::none());
    pad.input(EditorInputEvent::Up, InputModifiers::none());
    pad.input(EditorInputEvent::Char('x'), InputModifiers::ctrl());

    // Move to end
    pad.input(EditorInputEvent::PageDown, InputModifiers::none());
    pad.input(EditorInputEvent::End, InputModifiers::none());
    // ALT
    pad.input(EditorInputEvent::Up, InputModifiers::alt());
    pad.alt_key_released();
    pad.input(EditorInputEvent::Up, InputModifiers::alt());
    pad.alt_key_released();
    pad.input(EditorInputEvent::Up, InputModifiers::alt());
    pad.alt_key_released();
    assert_eq!(
        "1\n2\n3\n4\n5\n6\n7\n8\n9\n10\n12\n13\n&[13]&[13]&[13]",
        &pad.content()
    );
    assert_eq!(
        "1\n2\n3\n4\n5\n6\n7\n8\n9\n10\n12\n13\n&[12]&[12]&[12]\n",
        &pad.app.get_normalized_content()
    );
}

#[test]
fn test_line_ref_denormalization() {
    let mut pad = Pad::new(35);
    pad.set_normalized_content("1111\n2222\n14 * &[2]&[2]&[2]\n");
    assert_eq!(1, pad.app.editor_content.get_data(0).line_id);
    assert_eq!(2, pad.app.editor_content.get_data(1).line_id);
    assert_eq!(3, pad.app.editor_content.get_data(2).line_id);
}

#[test]
fn test_scroll_y_reset() {
    let mut pad = Pad::new(35);
    pad.app.render_data.scroll_y = 1;
    pad.set_normalized_content("1111\n2222\n14 * &[2]&[2]&[2]\n");
    assert_eq!(0, pad.app.render_data.scroll_y);
}

#[test]
fn test_that_set_content_rerenders_everything() {
    let mut pad = Pad::new(35);
    pad.set_normalized_content("1\n2\n3");

    assert!(pad.app.editor_area_redraw.need(EditorY::new(0)));
    assert!(pad.app.result_area_redraw.need(EditorY::new(0)));
    assert!(pad.app.editor_area_redraw.need(EditorY::new(1)));
    assert!(pad.app.result_area_redraw.need(EditorY::new(1)));
    assert!(pad.app.editor_area_redraw.need(EditorY::new(2)));
    assert!(pad.app.result_area_redraw.need(EditorY::new(2)));
    pad.render();
    assert!(!pad.app.editor_area_redraw.need(EditorY::new(0)));
    assert!(!pad.app.result_area_redraw.need(EditorY::new(0)));
    assert!(!pad.app.editor_area_redraw.need(EditorY::new(1)));
    assert!(!pad.app.result_area_redraw.need(EditorY::new(1)));
    assert!(!pad.app.editor_area_redraw.need(EditorY::new(2)));
    assert!(!pad.app.result_area_redraw.need(EditorY::new(2)));
    pad.set_normalized_content("1111\n2222\n14 * &[2]&[2]&[2]\n");
    assert!(pad.app.editor_area_redraw.need(EditorY::new(0)));
    assert!(pad.app.result_area_redraw.need(EditorY::new(0)));
    assert!(pad.app.editor_area_redraw.need(EditorY::new(1)));
    assert!(pad.app.result_area_redraw.need(EditorY::new(1)));
    assert!(pad.app.editor_area_redraw.need(EditorY::new(2)));
    assert!(pad.app.result_area_redraw.need(EditorY::new(2)));
}

#[test]
fn no_memory_deallocation_bug_in_line_selection() {
    let mut pad = Pad::new(35);
    pad.paste("1\n2\n3\n4\n5\n6\n7\n8\n9\n10\n11\n12\n13\n");
    pad.select(Selection::single_r_c(12, 2));
    pad.render();
    pad.input(EditorInputEvent::Up, InputModifiers::shift());
    pad.render();
}

#[test]
fn matrix_deletion() {
    let mut pad = Pad::new(35);
    pad.paste(" [1,2,3]");
    pad.select(Selection::single_r_c(0, 0));
    pad.render();
    pad.input(EditorInputEvent::Del, InputModifiers::none());
    assert_eq!("[1,2,3]", pad.content());
}

#[test]
fn matrix_insertion_bug() {
    let mut pad = Pad::new(35);
    pad.paste("[1,2,3]");
    pad.select(Selection::single_r_c(0, 0));
    pad.render();
    pad.input(EditorInputEvent::Char('a'), InputModifiers::none());
    assert_eq!("a[1,2,3]", pad.content());
    pad.input(EditorInputEvent::Enter, InputModifiers::none());
    assert_eq!("a\n[1,2,3]", pad.content());
}

#[test]
fn matrix_insertion_bug2() {
    let mut pad = Pad::new(35);
    pad.paste("'[X] nth, sum fv");
    pad.render();
    pad.select(Selection::single_r_c(0, 0));
    pad.input(EditorInputEvent::Del, InputModifiers::none());
    let result_buffer = pad.render();
    assert_results(&["Err"][..], &result_buffer);
}

fn assert_results(expected_results: &[&str], result_buffer: &[u8]) {
    let mut i = 0;
    let mut ok_chars = Vec::with_capacity(32);
    let expected_len = expected_results.iter().map(|it| it.len()).sum();
    for r in expected_results.iter() {
        for ch in r.bytes() {
            assert_eq!(
                result_buffer[i] as char,
                ch as char,
                "at {}: {:?}, result_buffer: {:?}",
                i,
                String::from_utf8(ok_chars).unwrap(),
                &result_buffer[0..expected_len]
                    .iter()
                    .map(|it| *it as char)
                    .collect::<Vec<char>>()
            );
            ok_chars.push(ch);
            i += 1;
        }
        ok_chars.push(',' as u8);
        ok_chars.push(' ' as u8);
    }
    assert_eq!(result_buffer[i], 0, "more results than expected",);
}

#[test]
fn sum_can_be_nullified() {
    let mut pad = Pad::new(35);
    pad.paste("3m * 2m
--
1
2
sum");
    let result_buffer = pad.render();
    assert_results(&["6 m^2", "", "1", "2", "3"][..], &result_buffer);
}

#[test]
fn no_sum_value_in_case_of_error() {
    let mut pad = Pad::new(35);
    pad.paste("3m * 2m\n\
            4\n\
            sum");
    let result_buffer = pad.render();
    assert_results(&["6 m^2", "4", "Err"][..], &result_buffer);
}

#[test]
fn test_ctrl_c() {
    let mut pad = Pad::new(35);
    pad.paste("aaaaaaaaa");
    pad.render();
    pad.input(EditorInputEvent::Left, InputModifiers::shift());
    pad.input(EditorInputEvent::Left, InputModifiers::shift());
    pad.input(EditorInputEvent::Left, InputModifiers::shift());
    pad.input(EditorInputEvent::Char('c'), InputModifiers::ctrl());
    assert_eq!("aaa", pad.text.clipboard);
}

#[test]
fn test_changing_output_style_for_selected_rows() {
    let mut pad = Pad::new(35);
    pad.paste("2\n\
                4\n\
                5");
    pad.render();
    pad.input(EditorInputEvent::Up, InputModifiers::shift());
    pad.input(EditorInputEvent::Up, InputModifiers::shift());
    pad.input(EditorInputEvent::Left, InputModifiers::alt());

    let result_buffer = pad.render();
    assert_results(&["10", "100", "101"][..], &result_buffer);
}

#[test]
fn test_matrix_sum() {
    let mut pad = Pad::new(35);
    pad.paste("[1,2,3]\nsum");
    let result_buffer = pad.render();
    // both the first line and the 'sum' line renders a matrix, which leaves the result buffer empty
    assert_results(&["\u{0}"][..], &result_buffer);
}

fn assert_rich_copy(content: &str, expected: &str, selected_range: RangeInclusive<usize>) {
    let mut pad = Pad::new(35);
    pad.paste(content);
    pad.select(Selection::range(
        Pos::from_row_column(*selected_range.start(), 0),
        Pos::from_row_column(*selected_range.end(), 0),
    ));
    pad.render();
    assert_eq!(expected, &pad.copy_selected_rows_with_result_to_clipboard());
}

#[test]
fn test_rich_copy() {
    assert_rich_copy("1", "1  ‖ 1\n", 0..=0);
    assert_rich_copy("1 + 2", "1 + 2  ‖ 3\n", 0..=0);
    assert_rich_copy("23", "23  ‖ 23\n", 0..=0);
    assert_rich_copy(
        "1\n\
       23",
        "1   ‖  1\n\
         23  ‖ 23\n",
        0..=1,
    );
    assert_rich_copy(
        "1\n\
       23\n\
       99999.66666",
        "1   ‖  1\n\
             23  ‖ 23\n",
        0..=1,
    );
    assert_rich_copy(
        "1\n\
       23\n\
       99999.66666",
        "1            ‖      1\n\
         23           ‖     23\n\
         99999.66666  ‖ 99 999.66666\n",
        0..=2,
    );
    assert_rich_copy("[1]", "[1]  ‖ [1]\n", 0..=0);
    assert_rich_copy(
        "[1]\n\
         [23]",
        "[1]  ‖ [1]\n",
        0..=0,
    );
    assert_rich_copy(
        "[1]\n\
         [23]",
        "[1]   ‖ [ 1]\n\
         [23]  ‖ [23]\n",
        0..=1,
    );
    assert_rich_copy("[1,2,3]", "[1  2  3]  ‖ [1  2  3]\n", 0..=0);
    assert_rich_copy(
        "[1,2,3]\n[33, 44, 55]",
        "[1  2  3]     ‖ [ 1   2   3]\n\
         [33  44  55]  ‖ [33  44  55]\n",
        0..=1,
    );
    assert_rich_copy(
        "[1;2;3]",
        "⎡1⎤  ‖ ⎡1⎤\n\
         ⎢2⎥  ‖ ⎢2⎥\n\
         ⎣3⎦  ‖ ⎣3⎦\n",
        0..=0,
    );
    assert_rich_copy(
        "[1, 2, 3] * [1;2;3]",
        "            ⎡1⎤  ‖\n\
         [1  2  3] * ⎢2⎥  ‖ [14]
            ⎣3⎦  ‖\n",
        0..=0,
    );
    // test alignment
    assert_rich_copy(
        "[1, 2, 3]\n'asd\n[1, 2, 3]\n[10, 20, 30]",
        "[1  2  3]     ‖ [1  2  3]\n\
         'asd          ‖\n\
         [1  2  3]     ‖ [ 1   2   3]\n\
         [10  20  30]  ‖ [10  20  30]\n",
        0..=3,
    );
}

#[test]
fn test_line_ref_selection() {
    // left
    {
        let mut pad = Pad::new(35);
        pad.paste("16892313\n14 * ");
        pad.select(Selection::single_r_c(1, 5));
        pad.render();
        pad.input(EditorInputEvent::Up, InputModifiers::alt());
        pad.alt_key_released();
        pad.render();
        pad.input(EditorInputEvent::Left, InputModifiers::shift());
        pad.input(EditorInputEvent::Backspace, InputModifiers::none());
        assert_eq!("16892313\n14 * &[1", pad.content());
    }
    // right
    {
        let mut pad = Pad::new(35);
        pad.paste("16892313\n14 * ");
        pad.select(Selection::single_r_c(1, 5));
        pad.render();
        pad.input(EditorInputEvent::Up, InputModifiers::alt());
        pad.alt_key_released();

        pad.render();
        pad.input(EditorInputEvent::Left, InputModifiers::none());
        pad.input(EditorInputEvent::Right, InputModifiers::shift());
        pad.input(EditorInputEvent::Del, InputModifiers::none());
        assert_eq!("16892313\n14 * [1]", pad.content());
    }
}

#[test]
fn test_pressing_tab_on_m_char() {
    {
        let mut pad = Pad::new(35);
        pad.paste("m");
        pad.render();
        pad.input(EditorInputEvent::Tab, InputModifiers::none());
        pad.render();
        assert_eq!("[0]", pad.content());
    }
    {
        let mut pad = Pad::new(35);
        pad.paste("am");
        pad.render();
        pad.input(EditorInputEvent::Tab, InputModifiers::none());
        pad.render();
        assert_eq!("am  ", pad.content());
    }
    {
        let mut pad = Pad::new(35);
        pad.paste("a m");
        pad.render();
        pad.input(EditorInputEvent::Tab, InputModifiers::none());
        pad.render();
        assert_eq!("a [0]", pad.content());
    }
}

#[test]
fn test_that_cursor_is_inside_matrix_on_creation() {
    let mut pad = Pad::new(35);
    pad.paste("m");
    pad.input(EditorInputEvent::Tab, InputModifiers::none());
    pad.input(EditorInputEvent::Char('1'), InputModifiers::none());
    pad.input(EditorInputEvent::Enter, InputModifiers::none());
    assert_eq!("[1]", pad.content());
}

#[test]
fn test_matrix_alt_plus_right() {
    {
        let mut pad = Pad::new(35);
        pad.paste("[1]");
        pad.render();
        pad.input(EditorInputEvent::Left, InputModifiers::none());
        pad.render();
        pad.input(EditorInputEvent::Right, InputModifiers::alt());
        pad.input(EditorInputEvent::Enter, InputModifiers::none());
        assert_eq!("[1,0]", pad.content());
    }
    {
        let mut pad = Pad::new(35);
        pad.paste("[1]");
        pad.render();
        pad.input(EditorInputEvent::Left, InputModifiers::none());
        pad.render();
        pad.input(EditorInputEvent::Right, InputModifiers::alt());
        pad.input(EditorInputEvent::Right, InputModifiers::alt());
        pad.input(EditorInputEvent::Right, InputModifiers::alt());
        pad.input(EditorInputEvent::Enter, InputModifiers::none());
        assert_eq!("[1,0,0,0]", pad.content());
    }
    {
        let mut pad = Pad::new(35);
        pad.paste("[1;2]");
        pad.render();
        pad.input(EditorInputEvent::Left, InputModifiers::none());
        pad.render();
        pad.input(EditorInputEvent::Right, InputModifiers::alt());
        pad.input(EditorInputEvent::Enter, InputModifiers::none());
        assert_eq!("[1,0;2,0]", pad.content());
    }
}

#[test]
fn test_matrix_alt_plus_left() {
    {
        let mut pad = Pad::new(35);
        pad.paste("[1]");
        pad.render();
        pad.input(EditorInputEvent::Left, InputModifiers::none());
        pad.render();
        pad.input(EditorInputEvent::Left, InputModifiers::alt());
        pad.input(EditorInputEvent::Enter, InputModifiers::none());
        assert_eq!("[1]", pad.content());
    }
    {
        let mut pad = Pad::new(35);
        pad.paste("[1, 2, 3]");
        pad.render();
        pad.input(EditorInputEvent::Left, InputModifiers::none());
        pad.render();
        pad.input(EditorInputEvent::Left, InputModifiers::alt());
        pad.input(EditorInputEvent::Enter, InputModifiers::none());
        assert_eq!("[1,2]", pad.content());
    }
    {
        let mut pad = Pad::new(35);
        pad.paste("[1, 2, 3]");
        pad.render();
        pad.input(EditorInputEvent::Left, InputModifiers::none());
        pad.render();
        pad.input(EditorInputEvent::Left, InputModifiers::alt());
        pad.input(EditorInputEvent::Left, InputModifiers::alt());
        pad.input(EditorInputEvent::Enter, InputModifiers::none());
        assert_eq!("[1]", pad.content());
    }
    {
        let mut pad = Pad::new(35);
        pad.paste("[1, 2, 3; 4,5,6]");
        pad.render();
        pad.input(EditorInputEvent::Left, InputModifiers::none());
        pad.render();
        pad.input(EditorInputEvent::Left, InputModifiers::alt());
        pad.input(EditorInputEvent::Enter, InputModifiers::none());
        assert_eq!("[1,2;4,5]", pad.content());
    }
}

#[test]
fn test_matrix_alt_plus_down() {
    {
        let mut pad = Pad::new(35);
        pad.paste("[1]");
        pad.render();
        pad.input(EditorInputEvent::Left, InputModifiers::none());
        pad.render();
        pad.input(EditorInputEvent::Down, InputModifiers::alt());
        pad.input(EditorInputEvent::Enter, InputModifiers::none());
        assert_eq!("[1;0]", pad.content());
    }
    {
        let mut pad = Pad::new(35);
        pad.paste("[1]");
        pad.render();
        pad.input(EditorInputEvent::Left, InputModifiers::none());
        pad.render();
        pad.input(EditorInputEvent::Down, InputModifiers::alt());
        pad.input(EditorInputEvent::Down, InputModifiers::alt());
        pad.input(EditorInputEvent::Down, InputModifiers::alt());
        pad.input(EditorInputEvent::Enter, InputModifiers::none());
        assert_eq!("[1;0;0;0]", pad.content());
    }
    {
        let mut pad = Pad::new(35);
        pad.paste("[1,2]");
        pad.render();
        pad.input(EditorInputEvent::Left, InputModifiers::none());
        pad.render();
        pad.input(EditorInputEvent::Down, InputModifiers::alt());
        // this render is important, it tests a bug!
        pad.render();
        pad.input(EditorInputEvent::Enter, InputModifiers::none());
        assert_eq!("[1,2;0,0]", pad.content());
    }
}

#[test]
fn test_matrix_alt_plus_up() {
    {
        let mut pad = Pad::new(35);
        pad.paste("[1]");
        pad.render();
        pad.input(EditorInputEvent::Left, InputModifiers::none());
        pad.render();
        pad.input(EditorInputEvent::Up, InputModifiers::alt());
        pad.input(EditorInputEvent::Enter, InputModifiers::none());
        assert_eq!("[1]", pad.content());
    }
    {
        let mut pad = Pad::new(35);
        pad.paste("[1; 2; 3]");
        pad.render();
        pad.input(EditorInputEvent::Left, InputModifiers::none());
        pad.render();
        pad.input(EditorInputEvent::Up, InputModifiers::alt());
        pad.input(EditorInputEvent::Enter, InputModifiers::none());
        assert_eq!("[1;2]", pad.content());
    }
    {
        let mut pad = Pad::new(35);
        pad.paste("[1; 2; 3]");
        pad.render();
        pad.input(EditorInputEvent::Left, InputModifiers::none());
        pad.render();
        pad.input(EditorInputEvent::Up, InputModifiers::alt());
        pad.input(EditorInputEvent::Up, InputModifiers::alt());
        pad.input(EditorInputEvent::Enter, InputModifiers::none());
        assert_eq!("[1]", pad.content());
    }
    {
        let mut pad = Pad::new(35);
        pad.paste("[1, 2, 3; 4,5,6]");
        pad.render();
        pad.input(EditorInputEvent::Left, InputModifiers::none());
        pad.render();
        pad.input(EditorInputEvent::Up, InputModifiers::alt());
        pad.input(EditorInputEvent::Enter, InputModifiers::none());
        assert_eq!("[1,2,3]", pad.content());
    }
}

#[test]
fn test_autocompletion_single() {
    let mut pad = Pad::new(35);
    pad.paste("apple = 12$");
    pad.render();
    pad.input(EditorInputEvent::Enter, InputModifiers::none());
    pad.input(EditorInputEvent::Char('a'), InputModifiers::none());
    pad.input(EditorInputEvent::Tab, InputModifiers::none());
    assert_eq!("apple = 12$\napple", pad.content());
}

#[test]
fn test_autocompletion_var_name_with_space() {
    let mut pad = Pad::new(35);
    pad.paste("some apples = 12$");
    pad.render();
    pad.input(EditorInputEvent::Enter, InputModifiers::none());
    pad.input(EditorInputEvent::Char('s'), InputModifiers::none());
    pad.input(EditorInputEvent::Char('o'), InputModifiers::none());
    pad.input(EditorInputEvent::Tab, InputModifiers::none());
    assert_eq!(
        "some apples = 12$\nsome apples",
        pad.content()
    );
}

#[test]
fn test_autocompletion_var_name_with_space2() {
    let mut pad = Pad::new(35);
    pad.paste("some apples = 12$");
    pad.render();
    pad.input(EditorInputEvent::Enter, InputModifiers::none());
    pad.input(EditorInputEvent::Char('s'), InputModifiers::none());
    pad.input(EditorInputEvent::Char('o'), InputModifiers::none());
    pad.input(EditorInputEvent::Char('m'), InputModifiers::none());
    pad.input(EditorInputEvent::Char('e'), InputModifiers::none());
    pad.input(EditorInputEvent::Tab, InputModifiers::none());
    assert_eq!(
        "some apples = 12$\nsome apples",
        pad.content()
    );
}

#[test]
fn test_autocompletion_var_name_with_space3() {
    let mut pad = Pad::new(35);
    pad.paste("men BMR = 12");
    pad.render();
    pad.input(EditorInputEvent::Enter, InputModifiers::none());
    pad.input(EditorInputEvent::Char('m'), InputModifiers::none());
    pad.input(EditorInputEvent::Char('e'), InputModifiers::none());
    pad.input(EditorInputEvent::Char('n'), InputModifiers::none());
    pad.input(EditorInputEvent::Char(' '), InputModifiers::none());
    pad.input(EditorInputEvent::Left, InputModifiers::none());
    pad.input(EditorInputEvent::Tab, InputModifiers::none());
    assert_eq!("men BMR = 12\nmen BMR ", pad.content());
}

#[test]
fn test_autocompletion_only_above_vars() {
    let mut pad = Pad::new(35);
    pad.paste("apple = 12$");
    pad.render();
    pad.input(EditorInputEvent::Home, InputModifiers::none());
    pad.input(EditorInputEvent::Enter, InputModifiers::none());
    pad.input(EditorInputEvent::Up, InputModifiers::none());
    pad.input(EditorInputEvent::Char('a'), InputModifiers::none());
    pad.input(EditorInputEvent::Tab, InputModifiers::none());
    assert_eq!("a   \napple = 12$", pad.content());
}

#[test]
fn test_autocompletion_two_vars() {
    let mut pad = Pad::new(35);
    pad.paste("apple = 12$\nbanana = 7$\n");
    pad.render();
    pad.input(EditorInputEvent::Char('a'), InputModifiers::none());
    pad.input(EditorInputEvent::Tab, InputModifiers::none());
    assert_eq!(
        "apple = 12$\nbanana = 7$\napple",
        pad.content()
    );

    pad.input(EditorInputEvent::Char(' '), InputModifiers::none());
    pad.input(EditorInputEvent::Char('b'), InputModifiers::none());
    pad.input(EditorInputEvent::Tab, InputModifiers::none());
    assert_eq!(
        "apple = 12$\nbanana = 7$\napple banana",
        pad.content()
    );
}

#[test]
fn test_that_no_autocompletion_for_multiple_results() {
    let mut pad = Pad::new(35);
    pad.paste("apple = 12$\nananas = 7$\n");
    pad.render();
    pad.input(EditorInputEvent::Char('a'), InputModifiers::none());
    pad.input(EditorInputEvent::Tab, InputModifiers::none());
    assert_eq!(
        "apple = 12$\nananas = 7$\na   ",
        pad.content()
    );
}

#[test]
fn test_click_1() {
    let mut pad = Pad::new(35);
    pad.paste("'1st row\n[1;2;3] some text\n'3rd row");
    pad.render();
    // click after the vector in 2nd row
    pad.click(LEFT_GUTTER_WIDTH + 4, RenderPosY::new(2));
    pad.input(EditorInputEvent::Char('X'), InputModifiers::none());
    assert_eq!(
        "'1st row\n[1;2;3] Xsome text\n'3rd row",
        pad.content()
    );
}

#[test]
fn test_click() {
    let mut pad = Pad::new(35);
    pad.paste("'1st row\nsome text [1;2;3]\n'3rd row");
    pad.render();
    // click after the vector in 2nd row
    pad.click(LEFT_GUTTER_WIDTH + 4, RenderPosY::new(2));
    pad.input(EditorInputEvent::Char('X'), InputModifiers::none());
    assert_eq!(
        "'1st row\nsomeX text [1;2;3]\n'3rd row",
        pad.content()
    );
}

#[test]
fn test_click_after_eof() {
    let mut pad = Pad::new(35);
    pad.paste("'1st row\n[1;2;3] some text\n'3rd row");
    pad.render();
    pad.click(LEFT_GUTTER_WIDTH + 40, RenderPosY::new(2));
    pad.input(EditorInputEvent::Char('X'), InputModifiers::none());
    assert_eq!(
        "'1st row\n[1;2;3] some textX\n'3rd row",
        pad.content()
    );
}

#[test]
fn test_click_after_eof2() {
    let mut pad = Pad::new(35);
    pad.paste("'1st row\n[1;2;3] some text\n'3rd row");
    pad.render();
    pad.click(LEFT_GUTTER_WIDTH + 40, RenderPosY::new(40));
    pad.input(EditorInputEvent::Char('X'), InputModifiers::none());
    assert_eq!(
        "'1st row\n[1;2;3] some text\n'3rd rowX",
        pad.content()
    );
}

#[test]
fn test_variable() {
    let mut pad = Pad::new(35);
    pad.paste("apple = 12");
    pad.render();
    pad.input(EditorInputEvent::Enter, InputModifiers::none());
    pad.paste("apple + 2");
    let result_buffer = pad.render();
    assert_results(&["12", "14"][..], &result_buffer);
}

#[test]
fn test_variable_must_be_defined() {
    let mut pad = Pad::new(35);
    pad.paste("apple = 12");
    pad.render();
    pad.input(EditorInputEvent::Home, InputModifiers::none());
    pad.input(EditorInputEvent::Enter, InputModifiers::none());
    pad.input(EditorInputEvent::Up, InputModifiers::none());
    pad.paste("apple + 2");

    let result_buffer = pad.render();
    assert_results(&["2", "12"][..], &result_buffer);
}

#[test]
fn test_variable_redefine() {
    let mut pad = Pad::new(35);
    pad.paste("apple = 12");
    pad.render();
    pad.input(EditorInputEvent::Enter, InputModifiers::none());
    pad.paste("apple + 2");
    pad.input(EditorInputEvent::Enter, InputModifiers::none());
    pad.paste("apple = 0");
    pad.input(EditorInputEvent::Enter, InputModifiers::none());
    pad.paste("apple + 3");
    let result_buffer = pad.render();
    assert_results(&["12", "14", "0", "3"][..], &result_buffer);
}

#[test]
fn test_backspace_bug_editor_obj_deletion_for_simple_tokens() {
    let mut pad = Pad::new(35);
    pad.paste("asd sad asd asd sX");
    pad.render();
    pad.input(EditorInputEvent::Backspace, InputModifiers::none());
    assert_eq!("asd sad asd asd s", pad.content());
}

#[test]
fn test_rendering_while_cursor_move() {
    let mut pad = Pad::new(35);
    pad.paste("apple = 12$\nasd q");
    pad.render();
    pad.input(EditorInputEvent::Up, InputModifiers::none());
    pad.render();
}

#[test]
fn stepping_into_a_matrix_renders_it_some_lines_below() {
    let mut pad = Pad::new(35);
    pad.paste("asdsad\n[1;2;3;4]");
    pad.select(Selection::single_r_c(0, 2));
    pad.render();

    pad.input(EditorInputEvent::Down, InputModifiers::none());
    assert!(pad.app.editor_area_redraw.need(EditorY::new(0)));
    assert!(pad.app.editor_area_redraw.need(EditorY::new(1)));

    assert_eq!(pad.editor_objects[EditorY::new(0)].len(), 1);
    assert_eq!(pad.editor_objects[EditorY::new(1)].len(), 1);

    assert_eq!(pad.app.render_data.get_rendered_height(EditorY::new(0)), 1);
    assert_eq!(pad.app.render_data.get_rendered_height(EditorY::new(1)), 4);
    assert_eq!(
        pad.app.render_data.get_render_y(EditorY::new(0)),
        Some(RenderPosY::new(0))
    );
    assert_eq!(
        pad.app.render_data.get_render_y(EditorY::new(1)),
        Some(RenderPosY::new(1))
    );

    pad.render();
    assert!(!pad.app.editor_area_redraw.need(EditorY::new(0)));
    assert!(!pad.app.editor_area_redraw.need(EditorY::new(1)));

    assert_eq!(pad.editor_objects[EditorY::new(0)].len(), 1);
    assert_eq!(pad.editor_objects[EditorY::new(1)].len(), 1);
    assert_eq!(pad.app.render_data.get_rendered_height(EditorY::new(0)), 1);
    assert_eq!(pad.app.render_data.get_rendered_height(EditorY::new(1)), 4);
    assert_eq!(
        pad.app.render_data.get_render_y(EditorY::new(0)),
        Some(RenderPosY::new(0))
    );
    assert_eq!(
        pad.app.render_data.get_render_y(EditorY::new(1)),
        Some(RenderPosY::new(1))
    );
}

#[test]
fn end_matrix_editing_should_rerender_matrix_row_too() {
    let mut pad = Pad::new(35);
    pad.paste("asdsad\n[1;2;3;4]");
    pad.select(Selection::single_r_c(0, 2));
    pad.render();

    // step into matrix
    pad.input(EditorInputEvent::Down, InputModifiers::none());
    assert!(pad.app.editor_area_redraw.need(EditorY::new(0)));
    assert!(pad.app.editor_area_redraw.need(EditorY::new(1)));

    pad.render();
    assert!(!pad.app.editor_area_redraw.need(EditorY::new(0)));
    assert!(!pad.app.editor_area_redraw.need(EditorY::new(1)));

    // leave matrix
    pad.input(EditorInputEvent::Up, InputModifiers::none());
    assert!(!pad.app.editor_area_redraw.need(EditorY::new(0)));
    assert!(!pad.app.result_area_redraw.need(EditorY::new(0)));
    assert!(pad.app.editor_area_redraw.need(EditorY::new(1)));
    assert!(pad.app.result_area_redraw.need(EditorY::new(1)));
}

#[test]
fn clicks_rerender_prev_row_too() {
    let mut pad = Pad::new(35);
    pad.paste("asdsad\n[1;2;3;4]");
    pad.render();

    pad.click(4, RenderPosY::new(0));
    assert!(pad.app.editor_area_redraw.need(EditorY::new(0)));
    assert!(pad.app.editor_area_redraw.need(EditorY::new(1)));
}

#[test]
fn all_the_selected_rows_are_rerendered() {
    let mut pad = Pad::new(35);
    pad.paste("first\nasdsad\n[1;2;3;4]");
    pad.render();
    pad.input(EditorInputEvent::Up, InputModifiers::shift());
    assert!(!pad.app.editor_area_redraw.need(EditorY::new(0)));
    assert!(!pad.app.result_area_redraw.need(EditorY::new(0)));
    assert!(pad.app.editor_area_redraw.need(EditorY::new(1)));
    assert!(pad.app.result_area_redraw.need(EditorY::new(1)));
    assert!(pad.app.editor_area_redraw.need(EditorY::new(2)));
    assert!(pad.app.result_area_redraw.need(EditorY::new(2)));

    pad.render();
    pad.input(EditorInputEvent::Up, InputModifiers::shift());
    assert!(pad.app.editor_area_redraw.need(EditorY::new(0)));
    assert!(pad.app.result_area_redraw.need(EditorY::new(0)));
    assert!(pad.app.editor_area_redraw.need(EditorY::new(1)));
    assert!(pad.app.result_area_redraw.need(EditorY::new(1)));
    assert!(pad.app.editor_area_redraw.need(EditorY::new(2)));
    assert!(pad.app.result_area_redraw.need(EditorY::new(2)));
}

#[test]
fn when_selection_shrinks_upward_rerender_prev_row() {
    let mut pad = Pad::new(35);
    pad.paste("first\nasdsad\n[1;2;3;4]");
    pad.select(Selection::single_r_c(0, 0));
    pad.input(EditorInputEvent::Down, InputModifiers::shift());
    pad.input(EditorInputEvent::Down, InputModifiers::shift());
    pad.render();

    pad.input(EditorInputEvent::Up, InputModifiers::shift());
    assert!(pad.app.editor_area_redraw.need(EditorY::new(0)));
    assert!(pad.app.result_area_redraw.need(EditorY::new(0)));
    assert!(pad.app.editor_area_redraw.need(EditorY::new(1)));
    assert!(pad.app.result_area_redraw.need(EditorY::new(1)));
    assert!(pad.app.editor_area_redraw.need(EditorY::new(2)));
    assert!(pad.app.result_area_redraw.need(EditorY::new(2)));
}

#[test]
fn when_selection_shrinks_downward_rerender_prev_row() {
    let mut pad = Pad::new(35);
    pad.paste("first\nasdsad\n[1;2;3;4]");
    pad.render();
    pad.input(EditorInputEvent::Up, InputModifiers::shift());
    pad.input(EditorInputEvent::Up, InputModifiers::shift());
    pad.render();
    pad.input(EditorInputEvent::Down, InputModifiers::shift());
    assert!(pad.app.editor_area_redraw.need(EditorY::new(0)));
    assert!(pad.app.result_area_redraw.need(EditorY::new(0)));
    assert!(pad.app.editor_area_redraw.need(EditorY::new(1)));
    assert!(pad.app.result_area_redraw.need(EditorY::new(1)));
    assert!(pad.app.editor_area_redraw.need(EditorY::new(2)));
    assert!(pad.app.result_area_redraw.need(EditorY::new(2)));
}

#[test]
fn all_the_selected_rows_are_rerendered_on_ticking() {
    let mut pad = Pad::new(35);
    pad.paste("first\nasdsad\n[1;2;3;4]");
    pad.input(EditorInputEvent::Up, InputModifiers::shift());
    pad.input(EditorInputEvent::Up, InputModifiers::shift());
    pad.render();
    assert!(!pad.app.editor_area_redraw.need(EditorY::new(0)));
    assert!(!pad.app.result_area_redraw.need(EditorY::new(0)));
    assert!(!pad.app.editor_area_redraw.need(EditorY::new(1)));
    assert!(!pad.app.result_area_redraw.need(EditorY::new(1)));
    assert!(!pad.app.editor_area_redraw.need(EditorY::new(2)));
    assert!(!pad.app.result_area_redraw.need(EditorY::new(2)));

    pad.handle_time(1000);
    assert!(pad.app.editor_area_redraw.need(EditorY::new(0)));
    assert!(!pad.app.result_area_redraw.need(EditorY::new(0)));
    assert!(pad.app.editor_area_redraw.need(EditorY::new(1)));
    assert!(!pad.app.result_area_redraw.need(EditorY::new(1)));
    assert!(pad.app.editor_area_redraw.need(EditorY::new(2)));
    assert!(!pad.app.result_area_redraw.need(EditorY::new(2)));
}

#[test]
fn all_the_selected_rows_are_rerendered_on_cancellation() {
    let mut pad = Pad::new(35);
    pad.paste("r1\nr2 asdsad\nr3 [1;2;3;4]");
    pad.render();
    pad.input(EditorInputEvent::Up, InputModifiers::shift());
    pad.input(EditorInputEvent::Up, InputModifiers::shift());
    pad.render();
    // cancels selection
    pad.input(EditorInputEvent::Left, InputModifiers::none());

    assert!(pad.app.editor_area_redraw.need(EditorY::new(0)));
    assert!(pad.app.result_area_redraw.need(EditorY::new(0)));
    assert!(pad.app.editor_area_redraw.need(EditorY::new(1)));
    assert!(pad.app.result_area_redraw.need(EditorY::new(1)));
    assert!(pad.app.editor_area_redraw.need(EditorY::new(2)));
    assert!(pad.app.result_area_redraw.need(EditorY::new(2)));
}

#[test]
fn navigating_up_renders() {
    let mut pad = Pad::new(35);
    pad.paste("r1\nr2 asdsad\nr3 [1;2;3;4]");
    pad.render();
    pad.input(EditorInputEvent::Up, InputModifiers::none());
    assert!(!pad.app.editor_area_redraw.need(EditorY::new(0)));
    assert!(!pad.app.result_area_redraw.need(EditorY::new(0)));
    assert!(pad.app.editor_area_redraw.need(EditorY::new(1)));
    assert!(pad.app.result_area_redraw.need(EditorY::new(1)));
    assert!(pad.app.editor_area_redraw.need(EditorY::new(2)));
    assert!(pad.app.result_area_redraw.need(EditorY::new(2)));
}

#[test]
fn all_the_selected_rows_are_rerendered_on_cancellation2() {
    let mut pad = Pad::new(35);
    pad.paste("asdsad\n[1;2;3;4]");
    pad.render();
    pad.input(EditorInputEvent::Up, InputModifiers::shift());
    pad.input(EditorInputEvent::Up, InputModifiers::shift());
    pad.render();
    // cancels selection
    pad.click(4, RenderPosY::new(0));
    assert!(pad.app.editor_area_redraw.need(EditorY::new(0)));
    assert!(pad.app.result_area_redraw.need(EditorY::new(0)));
    assert!(pad.app.editor_area_redraw.need(EditorY::new(1)));
    assert!(pad.app.result_area_redraw.need(EditorY::new(1)));
}

#[test]
fn line_ref_movement_render() {
    let mut pad = Pad::new(35);
    pad.paste("first\nasdsad\n[1;2;3;4]");
    pad.render();
    pad.input(EditorInputEvent::Up, InputModifiers::alt());
    assert!(!pad.app.editor_area_redraw.need(EditorY::new(0)));
    assert!(!pad.app.result_area_redraw.need(EditorY::new(0)));
    assert!(pad.app.editor_area_redraw.need(EditorY::new(1)));
    assert!(pad.app.result_area_redraw.need(EditorY::new(1)));

    pad.render();
    pad.input(EditorInputEvent::Up, InputModifiers::alt());
    assert!(pad.app.editor_area_redraw.need(EditorY::new(0)));
    assert!(pad.app.result_area_redraw.need(EditorY::new(0)));
    assert!(pad.app.editor_area_redraw.need(EditorY::new(1)));
    assert!(pad.app.result_area_redraw.need(EditorY::new(1)));

    pad.render();
    pad.alt_key_released();
    assert!(pad.app.editor_area_redraw.need(EditorY::new(0)));
    assert!(pad.app.result_area_redraw.need(EditorY::new(0)));
    assert!(!pad.app.editor_area_redraw.need(EditorY::new(1)));
    assert!(!pad.app.result_area_redraw.need(EditorY::new(1)));
    assert!(!pad.app.editor_area_redraw.need(EditorY::new(2)));
    assert!(!pad.app.result_area_redraw.need(EditorY::new(2)));
}

#[test]
fn line_ref_movement_render_with_actual_insertion() {
    let mut pad = Pad::new(35);
    pad.paste("firs 1t\nasdsad\n[1;2;3;4]");
    pad.render();
    pad.input(EditorInputEvent::Up, InputModifiers::alt());
    assert!(!pad.app.editor_area_redraw.need(EditorY::new(0)));
    assert!(!pad.app.result_area_redraw.need(EditorY::new(0)));
    assert!(pad.app.editor_area_redraw.need(EditorY::new(1)));
    assert!(pad.app.result_area_redraw.need(EditorY::new(1)));
    assert!(!pad.app.editor_area_redraw.need(EditorY::new(2)));
    assert!(!pad.app.result_area_redraw.need(EditorY::new(2)));

    pad.render();
    pad.input(EditorInputEvent::Up, InputModifiers::alt());

    assert!(pad.app.editor_area_redraw.need(EditorY::new(0)));
    assert!(pad.app.result_area_redraw.need(EditorY::new(0)));
    assert!(pad.app.editor_area_redraw.need(EditorY::new(1)));
    assert!(pad.app.result_area_redraw.need(EditorY::new(1)));
    assert!(!pad.app.editor_area_redraw.need(EditorY::new(2)));
    assert!(!pad.app.result_area_redraw.need(EditorY::new(2)));

    pad.render();
    pad.alt_key_released();

    assert!(pad.app.editor_area_redraw.need(EditorY::new(0)));
    assert!(pad.app.result_area_redraw.need(EditorY::new(0)));
    assert!(!pad.app.editor_area_redraw.need(EditorY::new(1)));
    assert!(!pad.app.result_area_redraw.need(EditorY::new(1)));
    assert!(pad.app.editor_area_redraw.need(EditorY::new(2)));
    assert!(pad.app.result_area_redraw.need(EditorY::new(2)));
}

#[test]
fn dragging_right_gutter_rerenders_everyhting() {
    let mut pad = Pad::new(35);
    pad.paste("firs 1t\nasdsad\n[1;2;3;4]");
    pad.render();
    pad.click(pad.app.render_data.result_gutter_x, RenderPosY::new(0));
    assert!(!pad.app.editor_area_redraw.need(EditorY::new(0)));
    assert!(!pad.app.result_area_redraw.need(EditorY::new(0)));
    assert!(!pad.app.editor_area_redraw.need(EditorY::new(1)));
    assert!(!pad.app.result_area_redraw.need(EditorY::new(1)));
    assert!(!pad.app.editor_area_redraw.need(EditorY::new(2)));
    assert!(!pad.app.result_area_redraw.need(EditorY::new(2)));

    pad.drag(pad.app.render_data.result_gutter_x - 1, RenderPosY::new(0));

    assert!(pad.app.editor_area_redraw.need(EditorY::new(0)));
    assert!(pad.app.result_area_redraw.need(EditorY::new(0)));
    assert!(pad.app.editor_area_redraw.need(EditorY::new(1)));
    assert!(pad.app.result_area_redraw.need(EditorY::new(1)));
    assert!(pad.app.editor_area_redraw.need(EditorY::new(2)));
    assert!(pad.app.result_area_redraw.need(EditorY::new(2)));
}

#[test]
fn test_sum_rerender() {
    {
        let mut pad = Pad::new(35);
        pad.paste("1\n2\n3\nsum");
        let result_buffer = pad.render();
        assert_results(&["1", "2", "3", "6"][..], &result_buffer);
    }
    {
        let mut pad = Pad::new(35);
        pad.paste("1\n2\n3\nsum");
        pad.input(EditorInputEvent::Up, InputModifiers::none());
        let result_buffer = pad.render();
        assert_results(&["1", "2", "3", "6"][..], &result_buffer);
    }
    {
        let mut pad = Pad::new(35);
        pad.paste("1\n2\n3\nsum");
        pad.input(EditorInputEvent::Up, InputModifiers::none());
        pad.input(EditorInputEvent::Up, InputModifiers::none());
        let result_buffer = pad.render();
        assert_results(&["1", "2", "3", "6"][..], &result_buffer);
    }
    {
        let mut pad = Pad::new(35);
        pad.paste("1\n2\n3\nsum");
        pad.input(EditorInputEvent::Up, InputModifiers::none());
        pad.input(EditorInputEvent::Up, InputModifiers::none());
        pad.input(EditorInputEvent::Down, InputModifiers::none());
        let result_buffer = pad.render();
        assert_results(&["1", "2", "3", "6"][..], &result_buffer);
    }
    {
        let mut pad = Pad::new(35);
        pad.paste("1\n2\n3\nsum");
        pad.input(EditorInputEvent::Up, InputModifiers::none());
        pad.input(EditorInputEvent::Up, InputModifiers::none());
        pad.input(EditorInputEvent::Down, InputModifiers::none());
        pad.input(EditorInputEvent::Down, InputModifiers::none());
        let result_buffer = pad.render();
        assert_results(&["1", "2", "3", "6"][..], &result_buffer);
    }
}

#[test]
fn test_sum_rerender_with_ignored_lines() {
    {
        let mut pad = Pad::new(35);
        pad.paste("1\n'2\n3\nsum");
        let result_buffer = pad.render();
        assert_results(&["1", "3", "4"][..], &result_buffer);
    }
    {
        let mut pad = Pad::new(35);
        pad.paste("1\n'2\n3\nsum");
        pad.input(EditorInputEvent::Up, InputModifiers::none());
        let result_buffer = pad.render();
        assert_results(&["1", "3", "4"][..], &result_buffer);
    }
    {
        let mut pad = Pad::new(35);
        pad.paste("1\n'2\n3\nsum");
        pad.input(EditorInputEvent::Up, InputModifiers::none());
        pad.input(EditorInputEvent::Up, InputModifiers::none());
        let result_buffer = pad.render();
        assert_results(&["1", "3", "4"][..], &result_buffer);
    }
    {
        let mut pad = Pad::new(35);
        pad.paste("1\n'2\n3\nsum");
        pad.input(EditorInputEvent::Up, InputModifiers::none());
        pad.input(EditorInputEvent::Down, InputModifiers::none());
        let result_buffer = pad.render();
        assert_results(&["1", "3", "4"][..], &result_buffer);
    }
    {
        let mut pad = Pad::new(35);
        pad.paste("1\n'2\n3\nsum");
        pad.input(EditorInputEvent::Up, InputModifiers::none());
        pad.input(EditorInputEvent::Down, InputModifiers::none());
        let result_buffer = pad.render();
        assert_results(&["1", "3", "4"][..], &result_buffer);
    }
}

#[test]
fn test_sum_rerender_with_sum_reset() {
    {
        let mut pad = Pad::new(35);
        pad.paste("1\n--2\n3\nsum");
        let result_buffer = pad.render();
        assert_results(&["1", "3", "3"][..], &result_buffer);
    }
    {
        let mut pad = Pad::new(35);
        pad.paste("1\n--2\n3\nsum");
        pad.input(EditorInputEvent::Up, InputModifiers::none());
        let result_buffer = pad.render();
        assert_results(&["1", "3", "3"][..], &result_buffer);
    }
}

#[test]
fn test_paste_long_text() {
    let mut pad = Pad::new(35);
    pad.paste("a\nb\na\nb\na\nb\na\nb\na\nb\na\nb\n1");
    for i in 0..12 {
        assert!(pad.app.editor_area_redraw.need(EditorY::new(i)));
        assert!(pad.app.result_area_redraw.need(EditorY::new(i)));
    }

    let result_buffer = pad.render();
    assert_results(
        &["", "", "", "", "", "", "", "", "", "", "", "1"][..],
        &result_buffer,
    );
}

#[test]
fn test_thousand_separator_and_alignment_in_result() {
    let mut pad = Pad::new(35);
    pad.paste("1\n2.3\n2222\n4km");
    pad.select(Selection::single_r_c(2, 0));
    // set result to binary repr
    pad.input(EditorInputEvent::Left, InputModifiers::alt());

    pad.render_with(|render_buckets, _| {
        let base_y = render_buckets.ascii_texts[0].column;
        assert_eq!(render_buckets.ascii_texts[0].text, "1".as_bytes());
        assert_eq!(render_buckets.ascii_texts[0].row, RenderPosY::new(0));

        assert_eq!(render_buckets.ascii_texts[1].text, "2".as_bytes());
        assert_eq!(render_buckets.ascii_texts[1].row, RenderPosY::new(1));
        assert_eq!(render_buckets.ascii_texts[1].column, base_y);

        assert_eq!(render_buckets.ascii_texts[2].text, ".3".as_bytes());
        assert_eq!(render_buckets.ascii_texts[2].row, RenderPosY::new(1));
        assert_eq!(render_buckets.ascii_texts[2].column, base_y + 1);

        assert_eq!(
            render_buckets.ascii_texts[3].text,
            "1000 10101110".as_bytes()
        );
        assert_eq!(render_buckets.ascii_texts[3].row, RenderPosY::new(2));
        assert_eq!(render_buckets.ascii_texts[3].column, base_y - 12);

        assert_eq!(render_buckets.ascii_texts[4].text, "4".as_bytes());
        assert_eq!(render_buckets.ascii_texts[4].row, RenderPosY::new(3));
        assert_eq!(render_buckets.ascii_texts[4].column, base_y);

        assert_eq!(render_buckets.ascii_texts[5].text, "km".as_bytes());
        assert_eq!(render_buckets.ascii_texts[5].row, RenderPosY::new(3));
        assert_eq!(render_buckets.ascii_texts[5].column, base_y + 2);
    });
}

#[test]
fn test_ctrl_x() {
    let mut pad = Pad::new(35);
    pad.paste("0\n1\n2\n3\n4\n5\n6\n7\n8\n9\n10\n11\n12");
    pad.render();

    pad.input(EditorInputEvent::Up, InputModifiers::shift());
    pad.input(EditorInputEvent::Up, InputModifiers::shift());
    pad.input(EditorInputEvent::Up, InputModifiers::shift());
    pad.input(EditorInputEvent::Char('x'), InputModifiers::ctrl());
    for i in 0..9 {
        assert!(!pad.app.editor_area_redraw.need(EditorY::new(i)));
        assert!(!pad.app.result_area_redraw.need(EditorY::new(i)));
    }
    for i in 9..12 {
        assert!(pad.app.editor_area_redraw.need(EditorY::new(i)));
        assert!(pad.app.result_area_redraw.need(EditorY::new(i)));
    }

    let result_buffer = pad.render();
    assert_results(
        &["0", "1", "2", "3", "4", "5", "6", "7", "8", "9"][..],
        &result_buffer,
    );
}

#[test]
fn selection_in_the_first_row_should_not_panic() {
    let mut pad = Pad::new(35);
    pad.paste("1+1\nasd");
    pad.input(EditorInputEvent::Up, InputModifiers::none());
    pad.input(EditorInputEvent::Home, InputModifiers::shift());

    pad.render();
}

#[test]
fn test_removing_height_matrix_rerenders_everything_below_it() {
    let mut pad = Pad::new(35);
    pad.paste("a\nb\n[1;2;3]\nb\na\nb\na\nb\na\nb\na\nb\n1");
    pad.select(Selection::single(Pos::from_row_column(2, 7)));

    pad.render();

    // step into the vector
    pad.input(EditorInputEvent::Backspace, InputModifiers::none());

    for i in 0..2 {
        assert!(!pad.app.editor_area_redraw.need(EditorY::new(i)));
        assert!(!pad.app.result_area_redraw.need(EditorY::new(i)));
    }
    for i in 2..12 {
        assert!(pad.app.editor_area_redraw.need(EditorY::new(i)));
        assert!(pad.app.result_area_redraw.need(EditorY::new(i)));
    }
}

#[test]
fn test_that_removed_tail_rows_are_cleared() {
    let mut pad = Pad::new(35);
    pad.paste("a\nb\n[1;2;3]\nX\na\n1");
    pad.select(Selection::single(Pos::from_row_column(3, 0)));

    pad.render();
    assert_ne!(
        pad.app.render_data.get_render_y(EditorY::new(5)),
        Some(RenderPosY::new(0))
    );

    // removing a line
    pad.input(EditorInputEvent::Backspace, InputModifiers::none());

    // they must not be 0, otherwise the renderer can't decide if they needed to be cleared,
    assert_ne!(
        pad.app.render_data.get_render_y(EditorY::new(5)),
        Some(RenderPosY::new(0))
    );

    pad.render();

    assert_eq!(pad.app.render_data.get_render_y(EditorY::new(5)), None);
}

#[test]
fn test_that_pressing_enter_eof_moves_scrollbar_down() {
    let mut pad = Pad::new(35);
    // editor height is 36 in tests, so create a 35 line text
    pad.paste("a\n".repeat(35));
    pad.select(Selection::single(Pos::from_row_column(3, 0)));

    pad.render();
    assert_ne!(
        pad.app.render_data.get_render_y(EditorY::new(5)),
        Some(RenderPosY::new(0))
    );

    // removing a line
    pad.input(EditorInputEvent::Backspace, InputModifiers::none());
}

#[test]
fn navigating_to_bottom_no_panic() {
    let mut pad = Pad::new(35);
    pad.paste("aaaaaaaaaaaa\n".repeat(34));

    pad.render();

    // removing a line
    pad.input(EditorInputEvent::PageDown, InputModifiers::none());
}

#[test]
fn ctrl_a_plus_typing() {
    let mut pad = Pad::new(25);
    pad.paste("1\n".repeat(34));
    pad.select(Selection::single(Pos::from_row_column(0, 0)));

    pad.render();

    pad.input(EditorInputEvent::Char('a'), InputModifiers::ctrl());

    pad.render();

    pad.input(EditorInputEvent::Char('1'), InputModifiers::none());

    pad.render();
}

#[test]
fn test_that_scrollbar_stops_at_bottom() {
    let client_height = 25;
    let mut pad = Pad::new(client_height);
    pad.paste("1\n".repeat(client_height * 2));
    pad.select(Selection::single(Pos::from_row_column(0, 0)));

    pad.render();

    pad.input(EditorInputEvent::PageDown, InputModifiers::none());

    assert_eq!(pad.app.render_data.scroll_y, client_height - 1);
}

#[test]
fn test_that_no_full_refresh_when_stepping_into_last_line() {
    let client_height = 25;
    let mut pad = Pad::new(client_height);
    pad.paste("1\n".repeat(client_height * 2));
    pad.select(Selection::single(Pos::from_row_column(0, 0)));

    pad.render();

    // step into last-1 line
    for _ in 0..(client_height - 2) {
        pad.input(EditorInputEvent::Down, InputModifiers::none());
    }
    // rerender so flags are cleared
    pad.render();

    // step into last line
    pad.input(EditorInputEvent::Down, InputModifiers::none());
    assert_eq!(pad.app.render_data.scroll_y, 0);
    assert_eq!(pad.app.editor_area_redraw.need(EditorY::new(0)), false);
    assert_eq!(pad.app.result_area_redraw.need(EditorY::new(0)), false);

    // this step scrolls down one
    // step into last line
    pad.input(EditorInputEvent::Down, InputModifiers::none());
    assert_eq!(pad.app.render_data.scroll_y, 1);
    for i in 0..client_height {
        assert_eq!(pad.app.editor_area_redraw.need(EditorY::new(i)), true);
        assert_eq!(pad.app.result_area_redraw.need(EditorY::new(i)), true);
    }
}

#[test]
fn test_that_paste_rerenders_the_modified_area_when_scrolled_down() {
    let client_height = 25;
    let mut pad = Pad::new(client_height);
    pad.paste("1\n".repeat(client_height * 2));
    pad.select(Selection::single(Pos::from_row_column(
            client_height - 10,
            0,
        )));

    pad.render();

    // paste at (client_height-10, 0)
    pad.paste("2\n".repeat(5));

    for i in 0..5 {
        assert_eq!(
            pad.app.editor_area_redraw
                .need(EditorY::new(client_height - 10 + i)),
            true
        );
        assert_eq!(
            pad.app.result_area_redraw
                .need(EditorY::new(client_height - 10 + i)),
            true
        );
    }
}

#[test]
fn test_that_removed_lines_are_cleared() {
    let client_height = 25;
    let mut pad = Pad::new(client_height);
    pad.paste("1\n".repeat(client_height * 2));
    pad.select(Selection::single(Pos::from_row_column(0, 0)));

    pad.render();

    pad.input(EditorInputEvent::Char('a'), InputModifiers::ctrl());

    pad.render();

    pad.input(EditorInputEvent::Char('1'), InputModifiers::none());

    for i in 1..(client_height * 2 - 1) {
        assert!(pad.app.editor_area_redraw.need(EditorY::new(i)));
        assert!(pad.app.result_area_redraw.need(EditorY::new(i)));
    }

    pad.render_with(|render_buckets, app| {
        // [0] SetColor
        // [1] clears the scrollbar
        // [2] clears the first row
        match &render_buckets.clear_commands[2] {
            OutputMessage::RenderRectangle { x, y, w, h } => {
                assert_eq!(*x, LEFT_GUTTER_WIDTH);
                assert_eq!(y.as_usize(), 0);
                assert_eq!(*w, 121);
                assert_eq!(*h, 1);
            }
            _ => assert!(false),
        }

        // [3] clears everything below it
        match &render_buckets.clear_commands[3] {
            OutputMessage::RenderRectangle { x, y, w, h } => {
                assert_eq!(*x, LEFT_GUTTER_WIDTH);
                assert_eq!(y.as_usize(), 0);
                assert!(*w > app.render_data.current_editor_width);
                // assert_eq!(*h, client_height);
            }
            _ => assert!(false),
        }
    });

    assert_eq!(
        None,
        pad.app.render_data
            .get_render_y(EditorY::new(client_height * 2 - 1))
    );
}

#[test]
fn test_that_no_overscrolling() {
    let mut pad = Pad::new(35);
    pad.paste("1\n2\n3\n");
    pad.render();

    pad.app.handle_wheel(1);
    assert_eq!(0, pad.app.render_data.scroll_y);
}

#[test]
fn test_that_no_overscrolling2() {
    let mut pad = Pad::new(35);
    pad.paste("aaaaaaaaaaaa\n".repeat(35));
    pad.render();

    pad.app.handle_wheel(1);
    assert_eq!(1, pad.app.render_data.scroll_y);
    pad.app.handle_wheel(1);
    assert_eq!(1, pad.app.render_data.scroll_y);
}

#[test]
fn test_that_scrolled_result_is_not_rendered() {
    {
        let mut pad = Pad::new(35);
        pad.paste("1\n2\n3\n");
        pad.paste("aaaaaaaaaaaa\n".repeat(34));

        let result_buffer = pad.render();
        assert_results(&["1", "2", "3"][..], &result_buffer);
        assert_eq!(
            pad.app.render_data.get_render_y(EditorY::new(0)),
            Some(RenderPosY::new(0))
        );
        assert_eq!(
            pad.app.render_data.get_render_y(EditorY::new(1)),
            Some(RenderPosY::new(1))
        );
        assert_eq!(
            pad.app.render_data.get_render_y(EditorY::new(2)),
            Some(RenderPosY::new(2))
        );
        assert_eq!(pad.app.render_data.get_render_y(EditorY::new(35)), None);
        assert_eq!(pad.app.render_data.get_render_y(EditorY::new(36)), None);
        assert_eq!(pad.app.render_data.get_render_y(EditorY::new(37)), None);
        assert_eq!(pad.app.render_data.get_render_y(EditorY::new(38)), None);
    }

    {
        let mut pad = Pad::new(35);
        pad.paste("1\n2\n3\n");
        pad.paste("aaaaaaaaaaaa\n".repeat(34));
        pad.render();

        pad.app.handle_wheel(1);
        let result_buffer = pad.render();
        assert_results(&["2", "3"][..], &result_buffer);
        assert_eq!(pad.app.render_data.get_render_y(EditorY::new(0)), None);
        assert_eq!(
            pad.app.render_data.get_render_y(EditorY::new(1)),
            Some(RenderPosY::new(0))
        );
        assert_eq!(
            pad.app.render_data.get_render_y(EditorY::new(2)),
            Some(RenderPosY::new(1))
        );
        assert_eq!(
            pad.app.render_data.get_render_y(EditorY::new(35)),
            Some(RenderPosY::new(34))
        );
        assert_eq!(pad.app.render_data.get_render_y(EditorY::new(36)), None);
        assert_eq!(pad.app.render_data.get_render_y(EditorY::new(37)), None);
        assert_eq!(pad.app.render_data.get_render_y(EditorY::new(38)), None);
    }

    {
        let mut pad = Pad::new(35);
        pad.paste("1\n2\n3\n");
        pad.paste("aaaaaaaaaaaa\n".repeat(34));
        pad.render();

        pad.app.handle_wheel(1);
        pad.app.handle_wheel(1);
        let result_buffer = pad.render();
        assert_results(&["3"][..], &result_buffer);
        assert_eq!(pad.app.render_data.get_render_y(EditorY::new(0)), None);
        assert_eq!(pad.app.render_data.get_render_y(EditorY::new(1)), None);
        assert_eq!(
            pad.app.render_data.get_render_y(EditorY::new(2)),
            Some(RenderPosY::new(0))
        );
        assert_eq!(
            pad.app.render_data.get_render_y(EditorY::new(35)),
            Some(RenderPosY::new(33))
        );
        assert_eq!(
            pad.app.render_data.get_render_y(EditorY::new(36)),
            Some(RenderPosY::new(34))
        );
        assert_eq!(pad.app.render_data.get_render_y(EditorY::new(37)), None);
        assert_eq!(pad.app.render_data.get_render_y(EditorY::new(38)), None);
    }

    {
        let mut pad = Pad::new(35);
        pad.paste("1\n2\n3\n");
        pad.paste("aaaaaaaaaaaa\n".repeat(34));
        pad.render();

        pad.app.handle_wheel(1);
        pad.app.handle_wheel(1);
        pad.app.handle_wheel(1);
        let result_buffer = pad.render();
        assert_results(&[""][..], &result_buffer);
        assert_eq!(pad.app.render_data.get_render_y(EditorY::new(0)), None);
        assert_eq!(pad.app.render_data.get_render_y(EditorY::new(1)), None);
        assert_eq!(pad.app.render_data.get_render_y(EditorY::new(2)), None);
        assert_eq!(
            pad.app.render_data.get_render_y(EditorY::new(35)),
            Some(RenderPosY::new(32))
        );
        assert_eq!(
            pad.app.render_data.get_render_y(EditorY::new(36)),
            Some(RenderPosY::new(33))
        );
        assert_eq!(
            pad.app.render_data.get_render_y(EditorY::new(37)),
            Some(RenderPosY::new(34))
        );
        assert_eq!(pad.app.render_data.get_render_y(EditorY::new(38)), None);
    }

    {
        let mut pad = Pad::new(35);
        pad.paste("1\n2\n3\n");
        pad.paste("aaaaaaaaaaaa\n".repeat(34));
        pad.render();

        pad.app.handle_wheel(1);
        pad.app.handle_wheel(1);
        pad.app.handle_wheel(1);
        pad.app.handle_wheel(0);
        let result_buffer = pad.render();
        assert_results(&["3"][..], &result_buffer);
        assert_eq!(pad.app.render_data.get_render_y(EditorY::new(0)), None);
        assert_eq!(pad.app.render_data.get_render_y(EditorY::new(1)), None);
        assert_eq!(
            pad.app.render_data.get_render_y(EditorY::new(2)),
            Some(RenderPosY::new(0))
        );
        assert_eq!(
            pad.app.render_data.get_render_y(EditorY::new(35)),
            Some(RenderPosY::new(33))
        );
        assert_eq!(
            pad.app.render_data.get_render_y(EditorY::new(36)),
            Some(RenderPosY::new(34))
        );
        assert_eq!(pad.app.render_data.get_render_y(EditorY::new(37)), None);
        assert_eq!(pad.app.render_data.get_render_y(EditorY::new(38)), None);
    }

    {
        let mut pad = Pad::new(35);
        pad.paste("1\n2\n3\n");
        pad.paste("aaaaaaaaaaaa\n".repeat(34));
        pad.render();

        pad.app.handle_wheel(1);
        pad.app.handle_wheel(1);
        pad.app.handle_wheel(1);
        pad.app.handle_wheel(0);
        pad.app.handle_wheel(0);
        let result_buffer = pad.render();
        assert_results(&["2", "3"][..], &result_buffer);
        assert_eq!(pad.app.render_data.get_render_y(EditorY::new(0)), None);
        assert_eq!(
            pad.app.render_data.get_render_y(EditorY::new(1)),
            Some(RenderPosY::new(0))
        );
        assert_eq!(
            pad.app.render_data.get_render_y(EditorY::new(2)),
            Some(RenderPosY::new(1))
        );
        assert_eq!(
            pad.app.render_data.get_render_y(EditorY::new(35)),
            Some(RenderPosY::new(34))
        );
        assert_eq!(pad.app.render_data.get_render_y(EditorY::new(36)), None);
        assert_eq!(pad.app.render_data.get_render_y(EditorY::new(37)), None);
        assert_eq!(pad.app.render_data.get_render_y(EditorY::new(38)), None);
    }

    {
        let mut pad = Pad::new(35);
        pad.paste("1\n2\n3\n");
        pad.paste("aaaaaaaaaaaa\n".repeat(34));
        pad.render();

        pad.app.handle_wheel(1);
        pad.app.handle_wheel(1);
        pad.app.handle_wheel(1);
        pad.app.handle_wheel(0);
        pad.app.handle_wheel(0);
        pad.app.handle_wheel(0);
        let result_buffer = pad.render();
        assert_results(&["1", "2", "3"][..], &result_buffer);
        assert_eq!(
            pad.app.render_data.get_render_y(EditorY::new(0)),
            Some(RenderPosY::new(0))
        );
        assert_eq!(
            pad.app.render_data.get_render_y(EditorY::new(1)),
            Some(RenderPosY::new(1))
        );
        assert_eq!(
            pad.app.render_data.get_render_y(EditorY::new(2)),
            Some(RenderPosY::new(2))
        );
        assert_eq!(pad.app.render_data.get_render_y(EditorY::new(35)), None);
        assert_eq!(pad.app.render_data.get_render_y(EditorY::new(36)), None);
        assert_eq!(pad.app.render_data.get_render_y(EditorY::new(37)), None);
        assert_eq!(pad.app.render_data.get_render_y(EditorY::new(38)), None);
    }
}

#[test]
fn line_ids_stay_unique() {
    let mut pad = Pad::new(35);
    pad.paste("1\n2\n3");
    pad.select(Selection::single_r_c(0, 1));
    pad.input(EditorInputEvent::Enter, InputModifiers::none());
    pad.paste("4\n5");
    pad.input(EditorInputEvent::Char('x'), InputModifiers::ctrl());
    pad.input(EditorInputEvent::Enter, InputModifiers::none());
    let mut ids: Vec<usize> =
        pad.app.editor_content.data.iter().map(|data| data.line_id).collect();
    assert_eq!(5, ids.len());
    ids.sort();
    ids.dedup();
    assert_eq!(5, ids.len());
    assert!(ids[0] > 0);
}

#[test]
fn lines_that_are_not_marked_are_not_drawn() {
    let mut pad = Pad::new(35);
    pad.paste("1\n2\n[3;4]");
    pad.render_with(|buckets, _| {
        assert!(!buckets.numbers.is_empty());
        assert_eq!(5, buckets.clear_commands.len());
    });
    pad.render_with(|buckets, _| {
        assert!(buckets.numbers.is_empty());
        assert_eq!(2, buckets.clear_commands.len());
    });
    pad.app.set_redraw_flag(EditorRowFlags::single_row(1), RedrawTarget::ResultArea);
    pad.render_with(|buckets, _| {
        assert!(buckets.numbers.is_empty());
        assert_eq!(3, buckets.clear_commands.len());
    });
}

#[test]
fn lines_stand_below_each_other() {
    let mut pad = Pad::new(4);
    pad.paste("1\n[1;2;3]\n'note\n4\n5");
    pad.app.render_data.scroll_y = 0;
    pad.render();
    let place = |pad: &Pad, row: usize| pad.app.render_data.get_render_y(EditorY::new(row));
    assert_eq!(Some(RenderPosY::new(0)), place(&pad, 0));
    assert_eq!(Some(RenderPosY::new(1)), place(&pad, 1));
    assert_eq!(Some(RenderPosY::new(4)), place(&pad, 2));
    assert_eq!(Some(RenderPosY::new(5)), place(&pad, 3));
    assert_eq!(None, place(&pad, 4));
}

#[test]
fn line_numbers_are_aligned_to_the_right() {
    let mut pad = Pad::new(35);
    pad.paste("\n".repeat(11));
    pad.render_with(|buckets, _| {
        let numbers: Vec<String> = buckets.custom_commands[1]
            .iter()
            .filter_map(|message| match message {
                OutputMessage::RenderUtf8Text(text) if text.column == 1 => {
                    Some(text.text.iter().collect())
                }
                _ => None,
            })
            .collect();
        assert_eq!(12, numbers.len());
        assert_eq!(" 1", numbers[0]);
        assert_eq!(" 9", numbers[8]);
        assert_eq!("10", numbers[9]);
        assert_eq!("12", numbers[11]);
    });
}

#[test]
fn notes_are_drawn_as_they_are() {
    let mut pad = Pad::new(35);
    pad.paste("'a note");
    pad.render_with(|buckets, _| {
        assert_eq!(1, buckets.utf8_texts.len());
        let text: String = buckets.utf8_texts[0].text.iter().collect();
        assert_eq!("'a note", text);
        assert_eq!(LEFT_GUTTER_WIDTH, buckets.utf8_texts[0].column);
    });
}

#[test]
fn value_of_the_selection_is_shown() {
    let mut pad = Pad::new(35);
    pad.paste("1\n2\n3");
    pad.select(Selection::range(Pos::from_row_column(0, 0), Pos::from_row_column(2, 1)));
    assert_eq!(Some("6".to_owned()), pad.selected_value());
    pad.render_with(|buckets, _| {
        let shown = buckets.custom_commands.iter().flatten().any(|message| match message {
            OutputMessage::RenderString(text) => text.text.contains('6'),
            _ => false,
        });
        assert!(shown);
    });
}

#[test]
fn errors_are_shown_as_results() {
    let mut pad = Pad::new(35);
    pad.paste("1\n[1,2] * 3\n5");
    let result_buffer = pad.render();
    assert_results(&["1", "Err", "5"][..], &result_buffer);
}

#[test]
fn value_of_the_selection_is_shown_as_where_it_starts() {
    let mut pad = Pad::new(35);
    pad.paste("1\n2\n3");
    pad.app.editor_content.data[2].result_format = ResultFormat::Bin;
    pad.select(Selection::range(Pos::from_row_column(0, 0), Pos::from_row_column(2, 1)));
    assert_eq!(Some("6".to_owned()), pad.selected_value());
    pad.select(Selection::range(Pos::from_row_column(2, 1), Pos::from_row_column(0, 0)));
    assert_eq!(Some("110".to_owned()), pad.selected_value());
}

#[test]
fn objects_cover_a_line_without_gaps() {
    let mut pad = Pad::new(35);
    pad.paste("1234567\n1 + 2 * &[1] + [1,2;3,4] * 5");
    pad.render();
    let objects = &pad.editor_objects[EditorY::new(1)];
    let types: Vec<EditorObjectType> = objects.iter().map(|object| object.typ).collect();
    assert_eq!(
        vec![
            EditorObjectType::SimpleTokens,
            EditorObjectType::LineReference,
            EditorObjectType::SimpleTokens,
            EditorObjectType::Matrix { row_count: 2, col_count: 2 },
            EditorObjectType::SimpleTokens,
        ],
        types
    );
    assert_eq!((0, 0), (objects[0].start_x, objects[0].rendered_x));
    for pair in objects.windows(2) {
        assert_eq!(pair[0].end_x, pair[1].start_x);
        assert_eq!(pair[0].rendered_x + pair[0].rendered_w, pair[1].rendered_x);
    }
    assert_eq!(pad.app.editor_content.line_len(1), objects[4].end_x);
}

#[test]
fn copied_text_is_a_table() {
    let mut pad = Pad::new(35);
    pad.paste("12\n[1,2;3,4]\n\n1000 * 2");
    pad.select(Selection::range(Pos::from_row_column(0, 0), Pos::from_row_column(3, 0)));
    pad.render();
    let text = pad.copy_selected_rows_with_result_to_clipboard();
    assert!(text.ends_with('\n'));
    let lines: Vec<&str> = text.lines().collect();
    let height: usize =
        (0..4).map(|row| pad.app.render_data.get_rendered_height(EditorY::new(row))).sum();
    assert_eq!(height, lines.len());
    for line in lines {
        assert_eq!(Some(10), line.chars().position(|ch| ch == '‖'));
        assert!(!line.ends_with(' '));
    }
}
