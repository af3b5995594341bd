use vstd::prelude::*;

use crate::frame_render::{layout_fits, leftover_removed, FrameContext, FrameState};
use crate::line_parts::highlight_drawn;
use crate::line_render::lemma_draw_stays_in_line;
use crate::render_data::Layout;
use crate::row_flags::MAX_LINE_COUNT;

verus! {

/// A line that is not on the screen, or has no part to be drawn again, leaves
/// the drawing as it is.
pub proof fn law_only_marked_lines_are_drawn<'a>(
    context: FrameContext<'a>,
    state: FrameState,
    y: int,
)
    requires
        !context.is_visible(state.gr, y) || !context.editor_flags.has(y)
            && !context.result_flags.has(y),
    ensures
        context.step(state, y).frame == state.frame,
        context.step(state, y).objects == state.objects,
        context.step(state, y).rerendered == state.rerendered,
{
}

/// Going through a line gives it its place, and moves on by its height.
proof fn lemma_step<'a>(context: FrameContext<'a>, state: FrameState, y: int)
    requires
        0 <= y < MAX_LINE_COUNT,
        layout_fits(state.gr),
        context.step_fits(state, y),
    ensures
        ({
            let after = context.step(state, y);
            let visible = context.is_visible(state.gr, y);
            &&& layout_fits(after.gr)
            &&& after.gr.scroll_y == state.gr.scroll_y
            &&& after.gr.client_height == state.gr.client_height
            &&& after.gr.render_ys == state.gr.render_ys.update(
                y,
                if visible {
                    Some(state.r.render_y)
                } else {
                    None
                },
            )
            &&& forall|k: int|
                0 <= k < MAX_LINE_COUNT && k != y ==> (#[trigger] after.gr.heights[k])
                    == state.gr.heights[k]
            &&& after.r.render_y.0 == state.r.render_y.0 + (if visible {
                after.gr.heights[y] as int
            } else {
                0
            })
        }),
{
    if context.is_visible(state.gr, y) && context.editor_flags.has(y) {
        let entered = context.entered(state, y);
        let lit = highlight_drawn(
            entered.frame,
            entered.r,
            context.editor.selection,
            entered.gr.result_gutter_x as int,
        );
        if let Some(tokens) = context.tokens[y] {
            lemma_draw_stays_in_line(
                context.line_context(entered.gr, y),
                context.line_start(lit, entered.r),
                tokens.tokens@,
                0,
            );
        }
    }
}

proof fn lemma_places<'a>(context: FrameContext<'a>, start: FrameState, n: int)
    requires
        0 <= n <= MAX_LINE_COUNT,
        layout_fits(start.gr),
        context.lines_fit(start, n),
    ensures
        ({
            let after = context.draw_lines(start, n);
            &&& layout_fits(after.gr)
            &&& after.gr.scroll_y == start.gr.scroll_y
            &&& after.gr.client_height == start.gr.client_height
            &&& forall|y: int|
                0 <= y < n ==> ((#[trigger] after.gr.render_ys[y]) is Some
                    == context.is_visible(start.gr, y))
            &&& forall|y: int|
                n <= y < MAX_LINE_COUNT ==> (#[trigger] after.gr.render_ys[y])
                    == start.gr.render_ys[y]
            &&& forall|y: int|
                #![trigger after.gr.render_ys[y]]
                0 <= y < n && context.is_visible(start.gr, y) ==> after.gr.render_ys[y].unwrap().0
                    + after.gr.heights[y] == (if y + 1 < n && context.is_visible(
                    start.gr,
                    y + 1,
                ) {
                    after.gr.render_ys[y + 1].unwrap().0
                } else {
                    after.r.render_y.0
                })
            &&& n <= start.gr.scroll_y ==> after.r.render_y == start.r.render_y
            &&& start.gr.scroll_y < n && start.gr.client_height > 0 ==> after.gr.render_ys[
                start.gr.scroll_y as int] == Some(start.r.render_y)
        }),
    decreases n,
{
    if n > 0 {
        let before = context.draw_lines(start, n - 1);
        lemma_places(context, start, n - 1);
        lemma_step(context, before, n - 1);
    }
}

/// After the lines were gone through, exactly those on the screen have a place
/// there.
pub proof fn law_lines_on_the_screen_have_a_place<'a>(
    context: FrameContext<'a>,
    start: FrameState,
    y: int,
)
    requires
        layout_fits(start.gr),
        context.lines_fit(start, context.line_limit()),
        0 <= y < context.line_limit(),
    ensures
        context.draw_lines(start, context.line_limit()).gr.render_ys[y] is Some
            == context.is_visible(start.gr, y),
{
    lemma_places(context, start, context.line_limit());
}

/// The first line on the screen stands where the drawing starts, and each other
/// one right below the line before it.
pub proof fn law_lines_stand_below_each_other<'a>(
    context: FrameContext<'a>,
    start: FrameState,
    y: int,
)
    requires
        layout_fits(start.gr),
        context.lines_fit(start, context.line_limit()),
        0 <= y < context.line_limit(),
        context.is_visible(start.gr, y),
    ensures
        ({
            let gr = context.draw_lines(start, context.line_limit()).gr;
            &&& gr.render_ys[y] is Some
            &&& if y == start.gr.scroll_y {
                gr.render_ys[y] == Some(start.r.render_y)
            } else {
                &&& gr.render_ys[y - 1] is Some
                &&& gr.render_ys[y].unwrap().0 == gr.render_ys[y - 1].unwrap().0 + gr.heights[y
                    - 1]
            }
        }),
{
    lemma_places(context, start, context.line_limit());
}

proof fn lemma_leftover_is_gone(gr: Layout, at: int, found: bool, first: int, end: int)
    requires
        0 <= at <= MAX_LINE_COUNT,
        gr.render_ys.len() == MAX_LINE_COUNT,
        forall|y: int|
            at <= y < MAX_LINE_COUNT ==> ((#[trigger] gr.render_ys[y]) is Some == (first <= y
                < end)),
        found ==> first < at,
    ensures
        ({
            let after = leftover_removed(gr, at, found);
            &&& after.render_ys.len() == MAX_LINE_COUNT
            &&& forall|y: int| 0 <= y < at ==> (#[trigger] after.render_ys[y]) == gr.render_ys[y]
            &&& forall|y: int|
                at <= y < MAX_LINE_COUNT ==> (#[trigger] after.render_ys[y]) is None
        }),
    decreases MAX_LINE_COUNT - at,
{
    if at < MAX_LINE_COUNT {
        if gr.render_ys[at] is Some {
            let removed = Layout { render_ys: gr.render_ys.update(at, None), ..gr };
            lemma_leftover_is_gone(removed, at + 1, true, first, end);
            assert(removed.render_ys[at] is None);
        } else if !found {
            lemma_leftover_is_gone(gr, at + 1, found, first, end);
        }
    }
}

/// Lines that no longer exist lose their place on the screen, as long as those
/// that had one were next to each other, as the lines on a screen are.
pub proof fn law_lines_that_are_gone_lose_their_place(
    gr: Layout,
    line_count: int,
    first: int,
    end: int,
    y: int,
)
    requires
        0 <= line_count <= y < MAX_LINE_COUNT,
        gr.render_ys.len() == MAX_LINE_COUNT,
        forall|i: int|
            line_count <= i < MAX_LINE_COUNT ==> ((#[trigger] gr.render_ys[i]) is Some == (first
                <= i < end)),
    ensures
        leftover_removed(gr, line_count, false).render_ys[y] is None,
{
    lemma_leftover_is_gone(gr, line_count, false, first, end);
}

} // verus!
