use vstd::prelude::*;

use crate::coords::{EditorY, RenderPosY};
use crate::results::{CalcResult, LineResult, Variable};
use crate::row_flags::MAX_LINE_COUNT;
use crate::tokens::{OperatorTokenType, Token, TokenType};

verus! {

/// The layout of the screen, and where each line stands on it.
pub struct GlobalRenderData {
    pub client_height: usize,
    pub scroll_y: usize,
    pub result_gutter_x: usize,
    pub left_gutter_width: usize,
    pub current_editor_width: usize,
    pub current_result_panel_width: usize,
    /// The screen row of each line, if it is on the screen.
    pub line_render_y: [Option<RenderPosY>; MAX_LINE_COUNT],
    /// How many screen rows each line takes.
    pub line_height: [usize; MAX_LINE_COUNT],
}

/// The contents of `GlobalRenderData`.
#[verifier::ext_equal]
pub struct Layout {
    pub client_height: usize,
    pub scroll_y: usize,
    pub result_gutter_x: usize,
    pub left_gutter_width: usize,
    pub current_editor_width: usize,
    pub current_result_panel_width: usize,
    pub render_ys: Seq<Option<RenderPosY>>,
    pub heights: Seq<usize>,
}

impl View for GlobalRenderData {
    type V = Layout;

    open spec fn view(&self) -> Layout {
        Layout {
            client_height: self.client_height,
            scroll_y: self.scroll_y,
            result_gutter_x: self.result_gutter_x,
            left_gutter_width: self.left_gutter_width,
            current_editor_width: self.current_editor_width,
            current_result_panel_width: self.current_result_panel_width,
            render_ys: self.line_render_y@,
            heights: self.line_height@,
        }
    }
}

impl GlobalRenderData {
    pub fn new(
        client_width: usize,
        client_height: usize,
        result_gutter_x: usize,
        left_gutter_width: usize,
        right_gutter_width: usize,
    ) -> (r: GlobalRenderData)
        requires
            left_gutter_width <= result_gutter_x,
            result_gutter_x + right_gutter_width <= client_width,
        ensures
            r@ == (Layout {
                client_height,
                scroll_y: 0,
                result_gutter_x,
                left_gutter_width,
                current_editor_width: (result_gutter_x - left_gutter_width) as usize,
                current_result_panel_width: (client_width - result_gutter_x
                    - right_gutter_width) as usize,
                render_ys: Seq::new(MAX_LINE_COUNT as nat, |i: int| None),
                heights: Seq::new(MAX_LINE_COUNT as nat, |i: int| 0),
            }),
    {
        let mut r = GlobalRenderData {
            scroll_y: 0,
            result_gutter_x,
            left_gutter_width,
            current_editor_width: 0,
            current_result_panel_width: 0,
            line_render_y: [None;MAX_LINE_COUNT],
            line_height: [0;MAX_LINE_COUNT],
            client_height,
        };
        r.current_editor_width = result_gutter_x - left_gutter_width;
        r.current_result_panel_width = client_width - result_gutter_x - right_gutter_width;
        r
    }

    pub fn get_render_y(&self, y: EditorY) -> (r: Option<RenderPosY>)
        requires
            y.0 < MAX_LINE_COUNT,
        ensures
            r == self@.render_ys[y.0 as int],
    {
        self.line_render_y[y.0]
    }

    pub fn set_render_y(&mut self, y: EditorY, newy: Option<RenderPosY>)
        requires
            y.0 < MAX_LINE_COUNT,
        ensures
            final(self)@ == (Layout {
                render_ys: old(self)@.render_ys.update(y.0 as int, newy),
                ..old(self)@
            }),
    {
        self.line_render_y[y.0] = newy;
    }

    pub fn editor_y_to_render_y(&self) -> (r: &[Option<RenderPosY>])
        ensures
            r@ == self@.render_ys,
    {
        &self.line_render_y
    }

    pub fn get_rendered_height(&self, y: EditorY) -> (r: usize)
        requires
            y.0 < MAX_LINE_COUNT,
        ensures
            r == self@.heights[y.0 as int],
    {
        self.line_height[y.0]
    }

    pub fn set_rendered_height(&mut self, y: EditorY, h: usize)
        requires
            y.0 < MAX_LINE_COUNT,
        ensures
            final(self)@ == (Layout {
                heights: old(self)@.heights.update(y.0 as int, h),
                ..old(self)@
            }),
    {
        self.line_height[y.0] = h;
    }
}

/// How tall one token is drawn.
pub open spec fn token_height(token: Token, vars: Seq<Variable>) -> usize {
    match token.typ {
        TokenType::Operator(OperatorTokenType::Matrix { row_count, col_count: _ }) => row_count,
        TokenType::LineReference { var_index } => match vars[var_index as int].value {
            Ok(CalcResult::Matrix(mat)) => mat.row_count,
            _ => 1,
        },
        _ => 1,
    }
}

/// The largest of `least` and the heights of the tokens.
pub open spec fn max_token_height(tokens: Seq<Token>, vars: Seq<Variable>, least: usize) -> usize
    decreases tokens.len(),
{
    if tokens.len() == 0 {
        least
    } else {
        let before = max_token_height(tokens.drop_last(), vars, least);
        let height = token_height(tokens.last(), vars);
        if height > before {
            height
        } else {
            before
        }
    }
}

/// How tall a line is drawn: as its tallest part, which may be its result or
/// the matrix that is being edited in it.
pub open spec fn row_height(
    result: LineResult,
    tokens: Seq<Token>,
    vars: Seq<Variable>,
    active_mat_edit_height: Option<usize>,
) -> usize {
    let least = match active_mat_edit_height {
        Some(height) => height,
        None => 1,
    };
    let of_tokens = max_token_height(tokens, vars, least);
    match result {
        Ok(Some(CalcResult::Matrix(mat))) => if mat.row_count > of_tokens {
            mat.row_count
        } else {
            of_tokens
        },
        _ => of_tokens,
    }
}

/// The tokens refer to variables that exist.
pub open spec fn references_exist(tokens: Seq<Token>, var_count: int) -> bool {
    forall|i: int|
        #![trigger tokens[i]]
        0 <= i < tokens.len() ==> (tokens[i].typ matches TokenType::LineReference { var_index }
            ==> var_index < var_count)
}

proof fn lemma_max_token_height_at_least(tokens: Seq<Token>, vars: Seq<Variable>, least: usize)
    ensures
        max_token_height(tokens, vars, least) >= least,
    decreases tokens.len(),
{
    if tokens.len() > 0 {
        lemma_max_token_height_at_least(tokens.drop_last(), vars, least);
    }
}

/// A line is at least as tall as each of its tokens, as its result and as one row,
/// or as the matrix that is being edited in it.
pub proof fn law_row_height_covers_every_part(
    result: LineResult,
    tokens: Seq<Token>,
    vars: Seq<Variable>,
    active_mat_edit_height: Option<usize>,
)
    ensures
        forall|i: int|
            0 <= i < tokens.len() ==> token_height(#[trigger] tokens[i], vars) <= row_height(
                result,
                tokens,
                vars,
                active_mat_edit_height,
            ),
        active_mat_edit_height is None ==> row_height(result, tokens, vars, active_mat_edit_height)
            >= 1,
        active_mat_edit_height matches Some(h) ==> row_height(
            result,
            tokens,
            vars,
            active_mat_edit_height,
        ) >= h,
        result matches Ok(Some(CalcResult::Matrix(mat))) ==> row_height(
            result,
            tokens,
            vars,
            active_mat_edit_height,
        ) >= mat.row_count,
    decreases tokens.len(),
{
    let least = match active_mat_edit_height {
        Some(height) => height,
        None => 1,
    };
    lemma_max_token_height_at_least(tokens, vars, least);
    if tokens.len() > 0 {
        law_row_height_covers_every_part(result, tokens.drop_last(), vars, active_mat_edit_height);
        assert forall|i: int| 0 <= i < tokens.len() implies token_height(#[trigger] tokens[i], vars)
            <= row_height(result, tokens, vars, active_mat_edit_height) by {
            if i < tokens.len() - 1 {
                assert(tokens.drop_last()[i] == tokens[i]);
            }
        }
    }
}

/// Where the drawing of one line has got to.
pub struct PerLineRenderData {
    pub editor_x: usize,
    pub editor_y: EditorY,
    pub render_x: usize,
    pub render_y: RenderPosY,
    pub rendered_row_height: usize,
    pub vert_align_offset: usize,
    /// How far the cursor is drawn from its column, because something before
    /// it is drawn wider or narrower than its text.
    pub cursor_render_x_offset: isize,
}

impl PerLineRenderData {
    pub fn new() -> (r: PerLineRenderData)
        ensures
            r == (PerLineRenderData {
                editor_x: 0,
                editor_y: EditorY(0),
                render_x: 0,
                render_y: RenderPosY(0),
                rendered_row_height: 0,
                vert_align_offset: 0,
                cursor_render_x_offset: 0,
            }),
    {
        PerLineRenderData {
            editor_x: 0,
            editor_y: EditorY::new(0),
            render_x: 0,
            render_y: RenderPosY::new(0),
            rendered_row_height: 0,
            vert_align_offset: 0,
            cursor_render_x_offset: 0,
        }
    }

    pub fn inc_editor_y(&mut self)
        requires
            old(self).editor_y.0 < usize::MAX,
        ensures
            *final(self) == (PerLineRenderData {
                editor_y: EditorY((old(self).editor_y.0 + 1) as usize),
                ..*old(self)
            }),
    {
        self.editor_y.0 = self.editor_y.0 + 1;
    }

    pub fn new_line_started(&mut self)
        ensures
            *final(self) == (PerLineRenderData {
                editor_x: 0,
                render_x: 0,
                cursor_render_x_offset: 0,
                ..*old(self)
            }),
    {
        self.editor_x = 0;
        self.render_x = 0;
        self.cursor_render_x_offset = 0;
    }

    pub fn line_render_ended(&mut self, row_height: usize)
        requires
            old(self).render_y.0 + row_height <= usize::MAX,
            old(self).editor_y.0 < usize::MAX,
        ensures
            *final(self) == (PerLineRenderData {
                render_y: RenderPosY((old(self).render_y.0 + row_height) as usize),
                editor_y: EditorY((old(self).editor_y.0 + 1) as usize),
                ..*old(self)
            }),
    {
        self.render_y.0 = self.render_y.0 + row_height;
        self.editor_y.0 = self.editor_y.0 + 1;
    }

    pub fn set_fix_row_height(&mut self, height: usize)
        ensures
            *final(self) == (PerLineRenderData {
                rendered_row_height: height,
                vert_align_offset: 0,
                ..*old(self)
            }),
    {
        self.rendered_row_height = height;
        self.vert_align_offset = 0;
    }

    pub fn calc_rendered_row_height(
        result: &LineResult,
        tokens: &[Token],
        vars: &[Variable],
        active_mat_edit_height: Option<usize>,
    ) -> (r: usize)
        requires
            references_exist(tokens@, vars@.len() as int),
        ensures
            r == row_height(*result, tokens@, vars@, active_mat_edit_height),
    {
        let least: usize = match active_mat_edit_height {
            Some(height) => height,
            None => 1,
        };
        let mut max_height: usize = least;
        let result_row_height: usize = match result {
            Ok(Some(CalcResult::Matrix(mat))) => mat.row_count,
            _ => max_height,
        };
        let mut i: usize = 0;
        while i < tokens.len()
            invariant
                i <= tokens@.len(),
                references_exist(tokens@, vars@.len() as int),
                max_height == max_token_height(tokens@.take(i as int), vars@, least),
            decreases tokens@.len() - i,
        {
            let token = &tokens[i];
            let token_height: usize = match token.typ {
                TokenType::Operator(
                    OperatorTokenType::Matrix { row_count, col_count: _ },
                ) => row_count,
                TokenType::LineReference { var_index } => match &vars[var_index].value {
                    Ok(CalcResult::Matrix(mat)) => mat.row_count,
                    _ => 1,
                },
                _ => 1,
            };
            assert(tokens@.take(i as int + 1).drop_last() =~= tokens@.take(i as int));
            if token_height > max_height {
                max_height = token_height;
            }
            i += 1;
        }
        assert(tokens@.take(i as int) =~= tokens@);
        proof {
            lemma_max_token_height_at_least(tokens@, vars@, least);
        }
        if max_height < result_row_height {
            result_row_height
        } else {
            max_height
        }
    }

    pub fn token_render_done(&mut self, editor_len: usize, render_len: usize, x_offset: isize)
        requires
            old(self).render_x + render_len <= usize::MAX,
            old(self).editor_x + editor_len <= usize::MAX,
            isize::MIN <= old(self).cursor_render_x_offset + x_offset <= isize::MAX,
        ensures
            *final(self) == (PerLineRenderData {
                render_x: (old(self).render_x + render_len) as usize,
                editor_x: (old(self).editor_x + editor_len) as usize,
                cursor_render_x_offset: (old(self).cursor_render_x_offset + x_offset) as isize,
                ..*old(self)
            }),
    {
        self.render_x = self.render_x + render_len;
        self.editor_x = self.editor_x + editor_len;
        self.cursor_render_x_offset = self.cursor_render_x_offset + x_offset;
    }
}

} // verus!
