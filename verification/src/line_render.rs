use vstd::prelude::*;
use vstd::slice::slice_subrange;

use crate::app::NoteCalcApp;
use crate::buckets::{Frame, RenderBuckets};
use crate::coords::Selection;
use crate::editor::Editor;
use crate::matrix_edit_render::matrix_area;
use crate::matrix_editing::{MatrixEditing, MatrixEditingView};
use crate::matrix_layout::{
    clip_len, lemma_column_x_grows, lemma_largest_is_not_negative, lemma_shown_columns_range,
    seen_len,
};
use crate::matrix_obj_render::{closes_matrix, token_drawn, MatrixTokens};
use crate::matrix_result_render::result_matrix;
use crate::objects::{EditorObject, EditorObjectType};
use crate::render_data::{GlobalRenderData, Layout, PerLineRenderData};
use crate::results::{
    value_wf, CalcResult, Precision, ResultFormat, Variable,
};
use crate::tokens::{OperatorTokenType, Token, TokenType};

verus! {

pub open spec fn editing_view(editing: Option<MatrixEditing>) -> Option<MatrixEditingView> {
    match editing {
        Some(edited) => Some(edited@),
        None => None,
    }
}

/// Where the drawing stands after something that takes `editor_len` characters
/// of the text and `render_len` columns of the screen.
pub open spec fn advanced(
    r: PerLineRenderData,
    editor_len: int,
    render_len: int,
    x_offset: int,
) -> PerLineRenderData {
    PerLineRenderData {
        render_x: (r.render_x + render_len) as usize,
        editor_x: (r.editor_x + editor_len) as usize,
        cursor_render_x_offset: (r.cursor_render_x_offset + x_offset) as isize,
        ..r
    }
}

pub open spec fn can_advance(
    r: PerLineRenderData,
    editor_len: int,
    render_len: int,
    x_offset: int,
) -> bool {
    &&& r.render_x + render_len <= usize::MAX
    &&& r.editor_x + editor_len <= usize::MAX
    &&& isize::MIN <= r.cursor_render_x_offset + x_offset <= isize::MAX
}

/// The value of another line, drawn where a line refers to it.
pub open spec fn reference_drawn(
    frame: Frame,
    value: Result<CalcResult, ()>,
    r: PerLineRenderData,
    limit: int,
    left: int,
    precision: Precision,
) -> Frame {
    let x = r.render_x + left;
    let y = r.render_y.0 as int;
    match value {
        Ok(CalcResult::Matrix(mat)) => result_matrix(mat, precision, None).draw(
            frame,
            x,
            y,
            r.rendered_row_height as int,
        ),
        Ok(CalcResult::Scalar(scalar)) => {
            let text = scalar.text_of(ResultFormat::Dec, Precision::Two).text@;
            frame.line_ref_result(
                text.subrange(0, seen_len(text.len() as int, r.render_x as int, limit)),
                y,
                x,
            )
        },
        Err(_) => frame.line_ref_result(seq!['E', 'r', 'r'], y, x),
    }
}

/// How wide the value of another line is drawn.
pub open spec fn reference_width(
    value: Result<CalcResult, ()>,
    x: int,
    limit: int,
    precision: Precision,
) -> int {
    match value {
        Ok(CalcResult::Matrix(mat)) => result_matrix(mat, precision, None).drawn_width(),
        Ok(CalcResult::Scalar(scalar)) => seen_len(
            scalar.text_of(ResultFormat::Dec, Precision::Two).text@.len() as int,
            x,
            limit,
        ),
        Err(_) => 3,
    }
}

/// How tall the value of another line is drawn.
pub open spec fn reference_height(value: Result<CalcResult, ()>) -> usize {
    match value {
        Ok(CalcResult::Matrix(mat)) => mat.row_count,
        _ => 1,
    }
}

/// The value can be drawn within the line and the numbers of the screen.
pub open spec fn reference_fits(
    value: Result<CalcResult, ()>,
    r: PerLineRenderData,
    left: int,
    precision: Precision,
) -> bool {
    &&& value_wf(value)
    &&& r.render_x + left <= usize::MAX
    &&& value matches Ok(CalcResult::Matrix(mat)) ==> {
        &&& mat.row_count <= r.rendered_row_height
        &&& r.render_y.0 + r.rendered_row_height <= usize::MAX
        &&& r.render_x + left + result_matrix(mat, precision, None).drawn_width() <= usize::MAX
    }
}

/// Where the matrix that opens with token `at` closes.
pub open spec fn closing_token(tokens: Seq<Token>, at: int) -> int
    decreases tokens.len() - at,
{
    if at < 0 || at >= tokens.len() {
        tokens.len() as int
    } else if closes_matrix(tokens[at].typ) {
        at
    } else {
        closing_token(tokens, at + 1)
    }
}

/// How many characters stand between token `at` and the next closing bracket,
/// that bracket counted as one.
pub open spec fn width_up_to_closing(tokens: Seq<Token>, at: int) -> int
    decreases tokens.len() - at,
{
    if at < 0 || at >= tokens.len() || closes_matrix(tokens[at].typ) {
        1
    } else {
        tokens[at].ptr@.len() + width_up_to_closing(tokens, at + 1)
    }
}

/// What the drawing of a line depends on besides its tokens.
pub struct LineContext {
    /// How many columns of the text are seen.
    pub limit: int,
    /// How wide the part left of the text is.
    pub left: int,
    pub selection: Selection,
    pub editing: Option<MatrixEditingView>,
    pub vars: Seq<Variable>,
    /// Whether matrices and references are drawn as such, not as plain text.
    pub as_objects: bool,
    pub precision: Precision,
}

/// A line that is being drawn.
pub struct LineState {
    pub frame: Frame,
    pub r: PerLineRenderData,
    pub objects: Seq<EditorObject>,
}

impl LineContext {
    /// The cursor stands within the text of the matrix at hand, after its first
    /// character.
    pub open spec fn cursor_inside(self, r: PerLineRenderData, text_width: int) -> bool {
        let cursor = self.selection.cursor();
        &&& self.selection.end is None
        &&& cursor.row == r.editor_y.0
        &&& r.editor_x < cursor.column < r.editor_x + text_width
    }

    /// The matrix at hand is the one that is being edited.
    pub open spec fn is_edited(self, r: PerLineRenderData, text_width: int) -> bool {
        self.cursor_inside(r, text_width) && self.editing is Some
    }

    /// The column in which the drawing of a matrix ends.
    pub open spec fn matrix_end(
        self,
        r: PerLineRenderData,
        matrix: MatrixTokens,
        text_width: int,
    ) -> int {
        if self.is_edited(r, text_width) {
            self.editing->0.end_x(r.render_x as int, self.limit)
        } else {
            matrix.end_x(r.render_x as int, self.limit)
        }
    }

    /// How far the cursor moves because a matrix before it is drawn wider or
    /// narrower than its text.
    pub open spec fn matrix_offset(
        self,
        r: PerLineRenderData,
        text_width: int,
        drawn_width: int,
    ) -> int {
        let cursor = self.selection.cursor();
        if cursor.row == r.editor_y.0 && cursor.column >= r.editor_x + text_width {
            drawn_width - text_width
        } else {
            0
        }
    }

    pub open spec fn matrix_step(
        self,
        state: LineState,
        matrix: MatrixTokens,
        text_width: int,
    ) -> LineState {
        let r = state.r;
        let drawn_width = self.matrix_end(r, matrix, text_width) - r.render_x;
        LineState {
            frame: if self.is_edited(r, text_width) {
                let edited = self.editing->0;
                edited.draw(
                    state.frame,
                    matrix_area(
                        r.render_y,
                        r.rendered_row_height,
                        edited.row_count as usize,
                        self.left as usize,
                        self.limit as usize,
                    ),
                    r.render_x as int,
                )
            } else {
                matrix.draw(
                    state.frame,
                    matrix_area(
                        r.render_y,
                        r.rendered_row_height,
                        matrix.row_count,
                        self.left as usize,
                        self.limit as usize,
                    ),
                    r.render_x as int,
                )
            },
            r: advanced(
                r,
                text_width,
                drawn_width,
                self.matrix_offset(r, text_width, drawn_width),
            ),
            objects: state.objects.push(
                EditorObject {
                    typ: EditorObjectType::Matrix {
                        row_count: matrix.row_count,
                        col_count: matrix.col_count,
                    },
                    row: r.editor_y,
                    start_x: r.editor_x,
                    end_x: (r.editor_x + text_width) as usize,
                    rendered_x: r.render_x,
                    rendered_y: r.render_y,
                    rendered_w: drawn_width as usize,
                    rendered_h: matrix.row_count,
                },
            ),
        }
    }

    pub open spec fn matrix_fits(
        self,
        state: LineState,
        matrix: MatrixTokens,
        text_width: int,
    ) -> bool {
        let r = state.r;
        let drawn_width = self.matrix_end(r, matrix, text_width) - r.render_x;
        &&& closing_token(matrix.tokens, 0) < matrix.tokens.len()
        &&& r.render_y.0 + r.rendered_row_height <= usize::MAX
        &&& self.matrix_end(r, matrix, text_width) + self.left <= usize::MAX
        &&& text_width <= isize::MAX
        &&& drawn_width <= isize::MAX
        &&& can_advance(
            r,
            text_width,
            drawn_width,
            self.matrix_offset(r, text_width, drawn_width),
        )
        &&& if self.is_edited(r, text_width) {
            let edited = self.editing->0;
            &&& edited.wf()
            &&& edited.selection_in_cell()
            &&& edited.row_count <= r.rendered_row_height
            &&& edited.cells_can_be_cut(r.render_x as int, self.limit)
        } else {
            &&& matrix.wf()
            &&& matrix.row_count <= r.rendered_row_height
        }
    }

    /// How far the cursor moves because a reference before it is drawn wider or
    /// narrower than its text.
    pub open spec fn reference_offset(
        self,
        r: PerLineRenderData,
        name_len: int,
        drawn_width: int,
    ) -> int {
        if self.selection.cursor().column > r.editor_x {
            drawn_width - name_len
        } else {
            0
        }
    }

    pub open spec fn reference_step(self, state: LineState, var: Variable) -> LineState {
        let r = state.r;
        let name_len = var.name@.len() as int;
        let width = reference_width(var.value, r.render_x as int, self.limit, self.precision);
        LineState {
            frame: reference_drawn(
                state.frame,
                var.value,
                r,
                self.limit,
                self.left,
                self.precision,
            ),
            r: advanced(r, name_len, width, self.reference_offset(r, name_len, width)),
            objects: state.objects.push(
                EditorObject {
                    typ: EditorObjectType::LineReference,
                    row: r.editor_y,
                    start_x: r.editor_x,
                    end_x: (r.editor_x + name_len) as usize,
                    rendered_x: r.render_x,
                    rendered_y: r.render_y,
                    rendered_w: width as usize,
                    rendered_h: reference_height(var.value),
                },
            ),
        }
    }

    pub open spec fn reference_step_fits(self, state: LineState, var: Variable) -> bool {
        let r = state.r;
        let name_len = var.name@.len() as int;
        let width = reference_width(var.value, r.render_x as int, self.limit, self.precision);
        &&& reference_fits(var.value, r, self.left, self.precision)
        &&& name_len <= isize::MAX
        &&& width <= isize::MAX
        &&& can_advance(r, name_len, width, self.reference_offset(r, name_len, width))
    }

    /// Plain tokens in a row make one object.
    pub open spec fn plain_objects(
        self,
        objects: Seq<EditorObject>,
        r: PerLineRenderData,
        len: int,
    ) -> Seq<EditorObject> {
        if objects.len() > 0 && objects.last().typ == EditorObjectType::SimpleTokens {
            let last = objects.last();
            objects.update(
                objects.len() - 1,
                EditorObject {
                    end_x: (last.end_x + len) as usize,
                    rendered_w: (last.rendered_w + len) as usize,
                    ..last
                },
            )
        } else {
            objects.push(
                EditorObject {
                    typ: EditorObjectType::SimpleTokens,
                    row: r.editor_y,
                    start_x: r.editor_x,
                    end_x: (r.editor_x + len) as usize,
                    rendered_x: r.render_x,
                    rendered_y: r.render_y,
                    rendered_w: len as usize,
                    rendered_h: r.rendered_row_height,
                },
            )
        }
    }

    pub open spec fn plain_step(self, state: LineState, token: Token) -> LineState {
        let r = state.r;
        let len = token.ptr@.len() as int;
        LineState {
            frame: token_drawn(
                state.frame,
                token,
                r.render_x as int,
                r.render_y.0 + r.vert_align_offset,
                self.limit,
                self.left,
            ),
            r: advanced(r, len, len, 0),
            objects: self.plain_objects(state.objects, r, len),
        }
    }

    pub open spec fn plain_fits(self, state: LineState, token: Token) -> bool {
        let r = state.r;
        let len = token.ptr@.len() as int;
        let objects = state.objects;
        &&& r.render_x + self.left <= usize::MAX
        &&& r.render_y.0 + r.vert_align_offset <= usize::MAX
        &&& can_advance(r, len, len, 0)
        &&& (objects.len() > 0 && objects.last().typ == EditorObjectType::SimpleTokens) ==> {
            &&& objects.last().end_x + len <= usize::MAX
            &&& objects.last().rendered_w + len <= usize::MAX
        }
    }

    /// The line with what token `at` opens drawn.
    pub open spec fn step(self, state: LineState, tokens: Seq<Token>, at: int) -> LineState {
        match tokens[at].typ {
            TokenType::Operator(
                OperatorTokenType::Matrix { row_count, col_count },
            ) if self.as_objects => self.matrix_step(
                state,
                MatrixTokens { tokens: tokens.skip(at), row_count, col_count },
                width_up_to_closing(tokens, at),
            ),
            TokenType::LineReference { var_index } if self.as_objects => self.reference_step(
                state,
                self.vars[var_index as int],
            ),
            _ => self.plain_step(state, tokens[at]),
        }
    }

    /// Everything that the step computes fits into the numbers of the screen,
    /// and what it draws is whole.
    pub open spec fn step_fits(self, state: LineState, tokens: Seq<Token>, at: int) -> bool {
        match tokens[at].typ {
            TokenType::Operator(
                OperatorTokenType::Matrix { row_count, col_count },
            ) if self.as_objects => self.matrix_fits(
                state,
                MatrixTokens { tokens: tokens.skip(at), row_count, col_count },
                width_up_to_closing(tokens, at),
            ),
            TokenType::LineReference { var_index } if self.as_objects => {
                &&& var_index < self.vars.len()
                &&& self.reference_step_fits(state, self.vars[var_index as int])
            },
            _ => self.plain_fits(state, tokens[at]),
        }
    }

    /// The token after what token `at` opens.
    pub open spec fn next(self, tokens: Seq<Token>, at: int) -> int {
        match tokens[at].typ {
            TokenType::Operator(
                OperatorTokenType::Matrix { row_count, col_count },
            ) if self.as_objects => closing_token(tokens, at) + 1,
            _ => at + 1,
        }
    }

    /// The line with all its tokens from `at` on drawn.
    pub open spec fn draw(self, state: LineState, tokens: Seq<Token>, at: int) -> LineState
        decreases tokens.len() - at,
    {
        if at < 0 || at >= tokens.len() || !(at < self.next(tokens, at) <= tokens.len()) {
            state
        } else {
            self.draw(self.step(state, tokens, at), tokens, self.next(tokens, at))
        }
    }

    pub open spec fn fits(self, state: LineState, tokens: Seq<Token>, at: int) -> bool
        decreases tokens.len() - at,
    {
        if at < 0 || at >= tokens.len() {
            true
        } else {
            &&& at < self.next(tokens, at) <= tokens.len()
            &&& self.step_fits(state, tokens, at)
            &&& self.fits(self.step(state, tokens, at), tokens, self.next(tokens, at))
        }
    }
}

pub open spec fn line_context(
    gr: Layout,
    editor: Editor,
    editing: Option<MatrixEditing>,
    vars: Seq<Variable>,
    as_objects: bool,
    precision: Precision,
) -> LineContext {
    LineContext {
        limit: gr.current_editor_width as int,
        left: gr.left_gutter_width as int,
        selection: editor.selection,
        editing: editing_view(editing),
        vars,
        as_objects,
        precision,
    }
}

proof fn lemma_closing_token_range(tokens: Seq<Token>, at: int)
    requires
        0 <= at <= tokens.len(),
    ensures
        at <= closing_token(tokens, at) <= tokens.len(),
        closing_token(tokens, at) < tokens.len() ==> closes_matrix(
            tokens[closing_token(tokens, at)].typ,
        ),
    decreases tokens.len() - at,
{
    if at < tokens.len() && !closes_matrix(tokens[at].typ) {
        lemma_closing_token_range(tokens, at + 1);
    }
}

proof fn lemma_closing_token_of_rest(tokens: Seq<Token>, at: int, from: int)
    requires
        0 <= at <= from <= tokens.len(),
    ensures
        closing_token(tokens.skip(at), from - at) == closing_token(tokens, from) - at,
    decreases tokens.len() - from,
{
    if from < tokens.len() && !closes_matrix(tokens[from].typ) {
        lemma_closing_token_of_rest(tokens, at, from + 1);
    }
}

pub(crate) proof fn lemma_width_up_to_closing_positive(tokens: Seq<Token>, at: int)
    ensures
        width_up_to_closing(tokens, at) >= 1,
    decreases tokens.len() - at,
{
    if 0 <= at < tokens.len() && !closes_matrix(tokens[at].typ) {
        lemma_width_up_to_closing_positive(tokens, at + 1);
    }
}

pub(crate) proof fn lemma_matrix_end_after_start(matrix: MatrixTokens, x: int, limit: int)
    ensures
        matrix.end_x(x, limit) > x,
{
    let widths = matrix.widths();
    lemma_shown_columns_range(x + 1, widths, limit, 0);
    assert forall|i: int| 0 <= i < widths.len() implies (#[trigger] widths[i]) >= 0 by {
        lemma_largest_is_not_negative(matrix.lens_in_column(i), matrix.row_count as int);
    }
    lemma_column_x_grows(x + 1, widths, 0, matrix.shown(x, limit));
}

pub(crate) proof fn lemma_edited_end_after_start(edited: MatrixEditingView, x: int, limit: int)
    requires
        edited.col_count >= 0,
    ensures
        edited.end_x(x, limit) > x,
{
    let widths = edited.widths();
    lemma_shown_columns_range(x + 1, widths, limit, 0);
    lemma_column_x_grows(x + 1, widths, 0, edited.shown(x, limit));
}

/// Drawing its tokens moves along a line; it does not move the line.
pub proof fn lemma_draw_stays_in_line(
    context: LineContext,
    state: LineState,
    tokens: Seq<Token>,
    at: int,
)
    ensures
        ({
            let r = context.draw(state, tokens, at).r;
            &&& r.editor_y == state.r.editor_y
            &&& r.render_y == state.r.render_y
            &&& r.rendered_row_height == state.r.rendered_row_height
            &&& r.vert_align_offset == state.r.vert_align_offset
        }),
    decreases tokens.len() - at,
{
    if !(at < 0 || at >= tokens.len() || !(at < context.next(tokens, at) <= tokens.len())) {
        lemma_draw_stays_in_line(
            context,
            context.step(state, tokens, at),
            tokens,
            context.next(tokens, at),
        );
    }
}

impl NoteCalcApp {
    /// Draws the value of another line, and tells how wide and tall the drawing is.
    pub fn render_single_result<'text_ptr>(
        render_buckets: &mut RenderBuckets<'text_ptr>,
        result: &Result<CalcResult, ()>,
        r: &PerLineRenderData,
        gr: &GlobalRenderData,
        decimal_count: Precision,
    ) -> (size: (usize, usize))
        requires
            reference_fits(*result, *r, gr.left_gutter_width as int, decimal_count),
        ensures
            final(render_buckets)@ == reference_drawn(
                old(render_buckets)@,
                *result,
                *r,
                gr.current_editor_width as int,
                gr.left_gutter_width as int,
                decimal_count,
            ),
            size.0 == reference_width(
                *result,
                r.render_x as int,
                gr.current_editor_width as int,
                decimal_count,
            ),
            size.1 == reference_height(*result),
    {
        match result {
            Ok(CalcResult::Matrix(mat)) => {
                let rendered_width = NoteCalcApp::render_matrix_result(
                    gr.left_gutter_width + r.render_x,
                    r.render_y,
                    mat,
                    render_buckets,
                    None,
                    r.rendered_row_height,
                    decimal_count,
                );
                (rendered_width, mat.row_count)
            },
            Ok(CalcResult::Scalar(scalar)) => {
                let result_text = scalar.text(ResultFormat::Dec, Precision::Two);
                let text = result_text.text.as_str();
                let text_len = clip_len(text.unicode_len(), r.render_x, gr.current_editor_width);
                render_buckets.push_line_ref_result(
                    text.substring_ascii(0, text_len).to_owned(),
                    r.render_y,
                    r.render_x + gr.left_gutter_width,
                );
                (text_len, 1)
            },
            Err(_) => {
                let text = "Err".to_owned();
                proof {
                    reveal_strlit("Err");
                    assert(text@ =~= seq!['E', 'r', 'r']);
                }
                render_buckets.push_line_ref_result(
                    text,
                    r.render_y,
                    r.render_x + gr.left_gutter_width,
                );
                (3, 1)
            },
        }
    }

    /// Draws the matrix that opens with a token, and tells which token follows it.
    pub fn render_matrix<'text_ptr>(
        token_index: usize,
        tokens: &[Token<'text_ptr>],
        row_count: usize,
        col_count: usize,
        r: &mut PerLineRenderData,
        gr: &GlobalRenderData,
        render_buckets: &mut RenderBuckets<'text_ptr>,
        editor_objects: &mut Vec<EditorObject>,
        editor: &Editor,
        matrix_editing: &Option<MatrixEditing>,
    ) -> (next_token: usize)
        requires
            token_index < tokens@.len(),
            line_context(
                gr@,
                *editor,
                *matrix_editing,
                Seq::empty(),
                true,
                Precision::Full,
            ).matrix_fits(
                LineState {
                    frame: old(render_buckets)@,
                    r: *old(r),
                    objects: old(editor_objects)@,
                },
                MatrixTokens { tokens: tokens@.skip(token_index as int), row_count, col_count },
                width_up_to_closing(tokens@, token_index as int),
            ),
        ensures
            (LineState {
                frame: final(render_buckets)@,
                r: *final(r),
                objects: final(editor_objects)@,
            }) == line_context(
                gr@,
                *editor,
                *matrix_editing,
                Seq::empty(),
                true,
                Precision::Full,
            ).matrix_step(
                LineState {
                    frame: old(render_buckets)@,
                    r: *old(r),
                    objects: old(editor_objects)@,
                },
                MatrixTokens { tokens: tokens@.skip(token_index as int), row_count, col_count },
                width_up_to_closing(tokens@, token_index as int),
            ),
            next_token == closing_token(tokens@, token_index as int) + 1,
    {
        let ghost matrix = MatrixTokens {
            tokens: tokens@.skip(token_index as int),
            row_count,
            col_count,
        };
        let ghost full_width = width_up_to_closing(tokens@, token_index as int);
        let ghost closing = closing_token(tokens@, token_index as int);
        proof {
            lemma_closing_token_of_rest(tokens@, token_index as int, token_index as int);
            lemma_closing_token_range(tokens@, token_index as int);
        }
        let mut text_width: usize = 0;
        let mut end_token_index: usize = token_index;
        while !(tokens[end_token_index].typ == TokenType::Operator(
            OperatorTokenType::BracketClose,
        ))
            invariant
                token_index <= end_token_index <= closing < tokens@.len(),
                closing == closing_token(tokens@, end_token_index as int),
                text_width + width_up_to_closing(tokens@, end_token_index as int) == full_width,
                full_width <= isize::MAX,
            decreases tokens@.len() - end_token_index,
        {
            proof {
                lemma_width_up_to_closing_positive(tokens@, end_token_index + 1);
                lemma_closing_token_range(tokens@, end_token_index + 1);
            }
            text_width += tokens[end_token_index].ptr.len();
            end_token_index += 1;
        }
        text_width += 1;
        end_token_index += 1;

        let cursor_pos = editor.get_selection().get_cursor_pos();
        let cursor_inside_matrix: bool = !editor.get_selection().is_range() && cursor_pos.row
            == r.editor_y.as_usize() && cursor_pos.column > r.editor_x && cursor_pos.column
            < r.editor_x + text_width;
        let new_render_x: usize = match matrix_editing {
            Some(mat_editor) if cursor_inside_matrix => {
                proof {
                    lemma_edited_end_after_start(
                        mat_editor@,
                        r.render_x as int,
                        gr.current_editor_width as int,
                    );
                }
                mat_editor.render(
                    r.render_x,
                    r.render_y,
                    gr.current_editor_width,
                    gr.left_gutter_width,
                    render_buckets,
                    r.rendered_row_height,
                )
            },
            _ => {
                proof {
                    lemma_matrix_end_after_start(
                        matrix,
                        r.render_x as int,
                        gr.current_editor_width as int,
                    );
                }
                NoteCalcApp::render_matrix_obj(
                    r.render_x,
                    r.render_y,
                    gr.current_editor_width,
                    gr.left_gutter_width,
                    row_count,
                    col_count,
                    slice_subrange(tokens, token_index, tokens.len()),
                    render_buckets,
                    r.rendered_row_height,
                )
            },
        };
        let rendered_width: usize = new_render_x - r.render_x;
        editor_objects.push(
            EditorObject {
                typ: EditorObjectType::Matrix { row_count, col_count },
                row: r.editor_y,
                start_x: r.editor_x,
                end_x: r.editor_x + text_width,
                rendered_x: r.render_x,
                rendered_y: r.render_y,
                rendered_w: rendered_width,
                rendered_h: row_count,
            },
        );
        let x_diff: isize = if cursor_pos.row == r.editor_y.as_usize() && cursor_pos.column
            >= r.editor_x + text_width {
            rendered_width as isize - text_width as isize
        } else {
            0
        };
        r.token_render_done(text_width, rendered_width, x_diff);
        end_token_index
    }

    /// Draws a token as text, and counts it to the plain tokens before it.
    fn render_plain_token<'text_ptr>(
        token: &Token<'text_ptr>,
        r: &mut PerLineRenderData,
        gr: &GlobalRenderData,
        render_buckets: &mut RenderBuckets<'text_ptr>,
        editor_objects: &mut Vec<EditorObject>,
        Ghost(context): Ghost<LineContext>,
    )
        requires
            context.limit == gr.current_editor_width,
            context.left == gr.left_gutter_width,
            context.plain_fits(
                LineState {
                    frame: old(render_buckets)@,
                    r: *old(r),
                    objects: old(editor_objects)@,
                },
                *token,
            ),
        ensures
            (LineState {
                frame: final(render_buckets)@,
                r: *final(r),
                objects: final(editor_objects)@,
            }) == context.plain_step(
                LineState {
                    frame: old(render_buckets)@,
                    r: *old(r),
                    objects: old(editor_objects)@,
                },
                *token,
            ),
    {
        let token_len = token.ptr.len();
        let count = editor_objects.len();
        let extends = if count > 0 {
            editor_objects[count - 1].typ == EditorObjectType::SimpleTokens
        } else {
            false
        };
        if extends {
            let mut last = editor_objects[count - 1];
            last.end_x = last.end_x + token_len;
            last.rendered_w = last.rendered_w + token_len;
            editor_objects.set(count - 1, last);
        } else {
            editor_objects.push(
                EditorObject {
                    typ: EditorObjectType::SimpleTokens,
                    row: r.editor_y,
                    start_x: r.editor_x,
                    end_x: r.editor_x + token_len,
                    rendered_x: r.render_x,
                    rendered_y: r.render_y,
                    rendered_w: token_len,
                    rendered_h: r.rendered_row_height,
                },
            );
        }
        NoteCalcApp::draw_token(
            token,
            r.render_x,
            r.render_y.add(r.vert_align_offset),
            gr.current_editor_width,
            gr.left_gutter_width,
            render_buckets,
        );
        r.token_render_done(token_len, token_len, 0);
    }

    /// Draws the tokens of a line, and notes what was drawn where.
    pub fn render_tokens<'text_ptr>(
        tokens: &[Token<'text_ptr>],
        r: &mut PerLineRenderData,
        gr: &GlobalRenderData,
        render_buckets: &mut RenderBuckets<'text_ptr>,
        editor_objects: &mut Vec<EditorObject>,
        editor: &Editor,
        matrix_editing: &Option<MatrixEditing>,
        vars: &[Variable],
        need_matrix_renderer: bool,
        decimal_count: Precision,
    )
        requires
            line_context(
                gr@,
                *editor,
                *matrix_editing,
                vars@,
                need_matrix_renderer,
                decimal_count,
            ).fits(
                LineState { frame: old(render_buckets)@, r: *old(r), objects: Seq::empty() },
                tokens@,
                0,
            ),
        ensures
            (LineState {
                frame: final(render_buckets)@,
                r: *final(r),
                objects: final(editor_objects)@,
            }) == line_context(
                gr@,
                *editor,
                *matrix_editing,
                vars@,
                need_matrix_renderer,
                decimal_count,
            ).draw(
                LineState { frame: old(render_buckets)@, r: *old(r), objects: Seq::empty() },
                tokens@,
                0,
            ),
    {
        let ghost context = line_context(
            gr@,
            *editor,
            *matrix_editing,
            vars@,
            need_matrix_renderer,
            decimal_count,
        );
        let ghost start = LineState { frame: render_buckets@, r: *r, objects: Seq::empty() };
        editor_objects.clear();
        let cursor_pos = editor.get_selection().get_cursor_pos();
        let mut token_index: usize = 0;
        while token_index < tokens.len()
            invariant
                token_index <= tokens@.len(),
                context == line_context(
                    gr@,
                    *editor,
                    *matrix_editing,
                    vars@,
                    need_matrix_renderer,
                    decimal_count,
                ),
                cursor_pos == editor.selection.cursor(),
                context.fits(
                    LineState { frame: render_buckets@, r: *r, objects: editor_objects@ },
                    tokens@,
                    token_index as int,
                ),
                context.draw(start, tokens@, 0) == context.draw(
                    LineState { frame: render_buckets@, r: *r, objects: editor_objects@ },
                    tokens@,
                    token_index as int,
                ),
            decreases tokens@.len() - token_index,
        {
            let token = &tokens[token_index];
            match token.typ {
                TokenType::Operator(
                    OperatorTokenType::Matrix { row_count, col_count },
                ) if need_matrix_renderer => {
                    token_index = NoteCalcApp::render_matrix(
                        token_index,
                        tokens,
                        row_count,
                        col_count,
                        r,
                        gr,
                        render_buckets,
                        editor_objects,
                        editor,
                        matrix_editing,
                    );
                },
                TokenType::LineReference { var_index } if need_matrix_renderer => {
                    let var = &vars[var_index];
                    let (rendered_width, rendered_height) = NoteCalcApp::render_single_result(
                        render_buckets,
                        &var.value,
                        r,
                        gr,
                        decimal_count,
                    );
                    let var_name_len = var.name.len();
                    editor_objects.push(
                        EditorObject {
                            typ: EditorObjectType::LineReference,
                            row: r.editor_y,
                            start_x: r.editor_x,
                            end_x: r.editor_x + var_name_len,
                            rendered_x: r.render_x,
                            rendered_y: r.render_y,
                            rendered_w: rendered_width,
                            rendered_h: rendered_height,
                        },
                    );
                    token_index += 1;
                    let x_offset: isize = if cursor_pos.column > r.editor_x {
                        rendered_width as isize - var_name_len as isize
                    } else {
                        0
                    };
                    r.token_render_done(var_name_len, rendered_width, x_offset);
                },
                _ => {
                    NoteCalcApp::render_plain_token(
                        token,
                        r,
                        gr,
                        render_buckets,
                        editor_objects,
                        Ghost(context),
                    );
                    token_index += 1;
                },
            }
        }
    }
}

} // verus!
