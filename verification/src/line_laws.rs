use vstd::prelude::*;

use crate::line_render::{
    lemma_edited_end_after_start, lemma_matrix_end_after_start,
    lemma_width_up_to_closing_positive, reference_width, width_up_to_closing, LineContext,
    LineState,
};
use crate::matrix_obj_render::MatrixTokens;
use crate::matrix_result_render::{lemma_drawn_width_positive, result_matrix};
use crate::objects::{EditorObject, EditorObjectType};
use crate::render_data::PerLineRenderData;
use crate::results::CalcResult;
use crate::tokens::{OperatorTokenType, Token, TokenType};

verus! {

/// The objects cover a stretch of a line, from one state of its drawing to
/// another, without gaps and without overlap: both in the text and on the
/// screen every object starts where the one before it ends.
pub open spec fn objects_tile(
    objects: Seq<EditorObject>,
    from: PerLineRenderData,
    to: PerLineRenderData,
) -> bool {
    if objects.len() == 0 {
        to.editor_x == from.editor_x && to.render_x == from.render_x
    } else {
        &&& objects.first().start_x == from.editor_x
        &&& objects.first().rendered_x == from.render_x
        &&& objects.last().end_x == to.editor_x
        &&& objects.last().rendered_x + objects.last().rendered_w == to.render_x
        &&& forall|i: int, j: int|
            0 <= i < objects.len() && j == i + 1 && j < objects.len() ==> {
                &&& (#[trigger] objects[i]).end_x == (#[trigger] objects[j]).start_x
                &&& objects[i].rendered_x + objects[i].rendered_w == objects[j].rendered_x
            }
        &&& forall|i: int|
            0 <= i < objects.len() ==> {
                &&& (#[trigger] objects[i]).start_x <= objects[i].end_x
                &&& objects[i].row == from.editor_y
                &&& objects[i].rendered_y == from.render_y
            }
    }
}

/// Plain tokens that follow each other are one object.
pub open spec fn plain_objects_merged(objects: Seq<EditorObject>) -> bool {
    forall|i: int, j: int|
        0 <= i < objects.len() && j == i + 1 && j < objects.len() ==> !((
        #[trigger] objects[i]).typ is SimpleTokens && (#[trigger] objects[j]).typ is SimpleTokens)
}

/// What the objects noted so far are, while the tokens of a line are drawn.
spec fn tiled_up_to(start: PerLineRenderData, state: LineState) -> bool {
    &&& objects_tile(state.objects, start, state.r)
    &&& plain_objects_merged(state.objects)
    &&& state.r.editor_y == start.editor_y
    &&& state.r.render_y == start.render_y
}

/// A matrix or a reference that is drawn behind the others.
proof fn lemma_pushed_object_tiles(
    start: PerLineRenderData,
    state: LineState,
    object: EditorObject,
    after: LineState,
)
    requires
        tiled_up_to(start, state),
        after.objects == state.objects.push(object),
        object.typ is SimpleTokens ==> state.objects.len() == 0
            || !(state.objects.last().typ is SimpleTokens),
        object.row == state.r.editor_y,
        object.rendered_y == state.r.render_y,
        object.start_x == state.r.editor_x,
        object.rendered_x == state.r.render_x,
        object.start_x <= object.end_x,
        after.r.editor_x == object.end_x,
        after.r.render_x == object.rendered_x + object.rendered_w,
        after.r.editor_y == state.r.editor_y,
        after.r.render_y == state.r.render_y,
    ensures
        tiled_up_to(start, after),
{
}

proof fn lemma_matrix_step_tiles(
    context: LineContext,
    start: PerLineRenderData,
    state: LineState,
    matrix: MatrixTokens,
    text_width: int,
)
    requires
        tiled_up_to(start, state),
        context.matrix_fits(state, matrix, text_width),
        text_width >= 1,
    ensures
        tiled_up_to(start, context.matrix_step(state, matrix, text_width)),
{
    let after = context.matrix_step(state, matrix, text_width);
    if context.is_edited(state.r, text_width) {
        lemma_edited_end_after_start(context.editing->0, state.r.render_x as int, context.limit);
    } else {
        lemma_matrix_end_after_start(matrix, state.r.render_x as int, context.limit);
    }
    lemma_pushed_object_tiles(start, state, after.objects.last(), after);
}

proof fn lemma_step_tiles(
    context: LineContext,
    start: PerLineRenderData,
    state: LineState,
    tokens: Seq<Token>,
    at: int,
)
    requires
        tiled_up_to(start, state),
        context.step_fits(state, tokens, at),
    ensures
        tiled_up_to(start, context.step(state, tokens, at)),
        context.step(state, tokens, at).objects.len() > 0,
{
    let after = context.step(state, tokens, at);
    match tokens[at].typ {
        TokenType::Operator(
            OperatorTokenType::Matrix { row_count, col_count },
        ) if context.as_objects => {
            lemma_width_up_to_closing_positive(tokens, at);
            lemma_matrix_step_tiles(
                context,
                start,
                state,
                MatrixTokens { tokens: tokens.skip(at), row_count, col_count },
                width_up_to_closing(tokens, at),
            );
        },
        TokenType::LineReference { var_index } if context.as_objects => {
            let value = context.vars[var_index as int].value;
            if let Ok(CalcResult::Matrix(mat)) = value {
                lemma_drawn_width_positive(result_matrix(mat, context.precision, None));
            }
            assert(reference_width(
                value,
                state.r.render_x as int,
                context.limit,
                context.precision,
            ) >= 0);
            lemma_pushed_object_tiles(start, state, after.objects.last(), after);
        },
        _ => {
            let objects = state.objects;
            if objects.len() > 0 && objects.last().typ == EditorObjectType::SimpleTokens {
                assert(after.objects.len() == objects.len());
            } else {
                lemma_pushed_object_tiles(start, state, after.objects.last(), after);
            }
        },
    }
}

proof fn lemma_draw_tiles(
    context: LineContext,
    start: PerLineRenderData,
    state: LineState,
    tokens: Seq<Token>,
    at: int,
)
    requires
        0 <= at,
        tiled_up_to(start, state),
        context.fits(state, tokens, at),
    ensures
        tiled_up_to(start, context.draw(state, tokens, at)),
        at < tokens.len() || state.objects.len() > 0 ==> context.draw(
            state,
            tokens,
            at,
        ).objects.len() > 0,
    decreases tokens.len() - at,
{
    if at < tokens.len() {
        lemma_step_tiles(context, start, state, tokens, at);
        lemma_draw_tiles(
            context,
            start,
            context.step(state, tokens, at),
            tokens,
            context.next(tokens, at),
        );
    }
}

/// The objects noted for a line cover what was drawn of it, from where the
/// drawing started to where it ended, without gaps and without overlap, in the
/// text as on the screen. Plain tokens that follow each other are one object.
pub proof fn law_objects_tile_the_line(context: LineContext, start: LineState, tokens: Seq<Token>)
    requires
        start.objects.len() == 0,
        context.fits(start, tokens, 0),
    ensures
        ({
            let drawn = context.draw(start, tokens, 0);
            &&& objects_tile(drawn.objects, start.r, drawn.r)
            &&& plain_objects_merged(drawn.objects)
            &&& drawn.objects.len() == 0 <==> tokens.len() == 0
        }),
{
    lemma_draw_tiles(context, start.r, start, tokens, 0);
}

proof fn lemma_plain_line_is_one_object(
    context: LineContext,
    state: LineState,
    tokens: Seq<Token>,
    at: int,
)
    requires
        0 <= at,
        !context.as_objects,
        context.fits(state, tokens, at),
        state.objects.len() <= 1,
        state.objects.len() == 1 ==> state.objects[0].typ is SimpleTokens,
    ensures
        ({
            let objects = context.draw(state, tokens, at).objects;
            &&& objects.len() <= 1
            &&& objects.len() == 1 ==> objects[0].typ is SimpleTokens
        }),
    decreases tokens.len() - at,
{
    if at < tokens.len() {
        lemma_plain_line_is_one_object(
            context,
            context.step(state, tokens, at),
            tokens,
            context.next(tokens, at),
        );
    }
}

/// A line that is drawn as plain text is one object, from where the drawing
/// started to where it ended.
pub proof fn law_plain_line_is_one_object(
    context: LineContext,
    start: LineState,
    tokens: Seq<Token>,
)
    requires
        start.objects.len() == 0,
        context.fits(start, tokens, 0),
        !context.as_objects,
        tokens.len() > 0,
    ensures
        ({
            let drawn = context.draw(start, tokens, 0);
            &&& drawn.objects.len() == 1
            &&& drawn.objects[0].typ is SimpleTokens
            &&& drawn.objects[0].start_x == start.r.editor_x
            &&& drawn.objects[0].end_x == drawn.r.editor_x
            &&& drawn.objects[0].rendered_x == start.r.render_x
            &&& drawn.objects[0].rendered_x + drawn.objects[0].rendered_w == drawn.r.render_x
        }),
{
    law_objects_tile_the_line(context, start, tokens);
    lemma_plain_line_is_one_object(context, start, tokens, 0);
}

} // verus!
