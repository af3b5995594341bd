use vstd::prelude::*;

use crate::buckets::{RenderBuckets, TextCmd};
use crate::coords::RenderPosY;

verus! {

pub open spec fn larger(a: int, b: int) -> int {
    if a < b {
        b
    } else {
        a
    }
}

pub open spec fn smaller(a: int, b: int) -> int {
    if a < b {
        a
    } else {
        b
    }
}

/// How much of a text of this length is seen when it starts at `x` and
/// everything from `limit` on is cut off.
pub open spec fn seen_len(len: int, x: int, limit: int) -> int {
    smaller(len, larger(limit - x, 0))
}

pub fn clip_len(len: usize, x: usize, limit: usize) -> (r: usize)
    ensures
        r == seen_len(len as int, x as int, limit as int),
{
    if limit <= x {
        0
    } else if len < limit - x {
        len
    } else {
        limit - x
    }
}

/// The largest of the first `n` values; zero where there is none.
pub open spec fn largest(values: spec_fn(int) -> int, n: int) -> int
    decreases n,
{
    if n <= 0 {
        0
    } else {
        larger(largest(values, n - 1), values(n - 1))
    }
}

pub proof fn lemma_largest_is_upper_bound(values: spec_fn(int) -> int, n: int, i: int)
    requires
        0 <= i < n,
    ensures
        values(i) <= largest(values, n),
    decreases n,
{
    if i < n - 1 {
        lemma_largest_is_upper_bound(values, n - 1, i);
    }
}

pub proof fn lemma_largest_is_not_negative(values: spec_fn(int) -> int, n: int)
    ensures
        largest(values, n) >= 0,
    decreases n,
{
    if n > 0 {
        lemma_largest_is_not_negative(values, n - 1);
    }
}

/// Where the column with number `n` starts. Two blanks stand between columns.
pub open spec fn column_x(start: int, widths: Seq<int>, n: int) -> int
    decreases n,
{
    if n <= 0 {
        start
    } else {
        column_x(start, widths, n - 1) + widths[n - 1] + (if n < widths.len() {
            2int
        } else {
            0
        })
    }
}

/// How many columns are drawn: those that start before `limit`.
pub open spec fn shown_columns(start: int, widths: Seq<int>, limit: int, from: int) -> int
    decreases widths.len() - from,
{
    if from < 0 || from >= widths.len() {
        widths.len() as int
    } else if column_x(start, widths, from) >= limit {
        from
    } else {
        shown_columns(start, widths, limit, from + 1)
    }
}

pub open spec fn not_negative(widths: Seq<int>) -> bool {
    forall|i: int| 0 <= i < widths.len() ==> (#[trigger] widths[i]) >= 0
}

pub proof fn lemma_shown_columns_range(start: int, widths: Seq<int>, limit: int, from: int)
    requires
        0 <= from <= widths.len(),
    ensures
        from <= shown_columns(start, widths, limit, from) <= widths.len(),
        forall|i: int|
            from <= i < shown_columns(start, widths, limit, from) ==> #[trigger] column_x(
                start,
                widths,
                i,
            ) < limit,
    decreases widths.len() - from,
{
    if from < widths.len() && column_x(start, widths, from) < limit {
        lemma_shown_columns_range(start, widths, limit, from + 1);
    }
}

pub proof fn lemma_column_x_grows(start: int, widths: Seq<int>, a: int, b: int)
    requires
        0 <= a <= b <= widths.len(),
        not_negative(widths),
    ensures
        start <= column_x(start, widths, a) <= column_x(start, widths, b),
    decreases b,
{
    if a < b {
        lemma_column_x_grows(start, widths, a, b - 1);
    } else if a > 0 {
        lemma_column_x_grows(start, widths, a - 1, b - 1);
    }
}

/// The piece of a matrix's bracket that stands in row `i` of `n`.
pub open spec fn bracket_piece(left: bool, i: int, n: int) -> char {
    if n == 1 {
        if left {
            '['
        } else {
            ']'
        }
    } else if i == 0 {
        if left {
            '⎡'
        } else {
            '⎤'
        }
    } else if i == n - 1 {
        if left {
            '⎣'
        } else {
            '⎦'
        }
    } else if left {
        '⎢'
    } else {
        '⎥'
    }
}

/// A bracket as tall as the matrix, one piece per row.
pub open spec fn bracket(left: bool, n: int, row: int, column: int) -> Seq<TextCmd> {
    Seq::new(
        n as nat,
        |i: int| TextCmd { text: seq![bracket_piece(left, i, n)], row: row + i, column },
    )
}

fn bracket_glyph(left: bool, i: usize, n: usize) -> (r: &'static [char])
    requires
        i < n,
    ensures
        r@ == seq![bracket_piece(left, i as int, n as int)],
{
    let r: &'static [char] = if n == 1 {
        if left {
            &['[']
        } else {
            &[']']
        }
    } else if i == 0 {
        if left {
            &['⎡']
        } else {
            &['⎤']
        }
    } else if i == n - 1 {
        if left {
            &['⎣']
        } else {
            &['⎦']
        }
    } else if left {
        &['⎢']
    } else {
        &['⎥']
    };
    r
}

/// Draws one bracket of a matrix.
pub fn draw_matrix_bracket(
    render_buckets: &mut RenderBuckets,
    left: bool,
    row_count: usize,
    row: RenderPosY,
    column: usize,
)
    requires
        row_count >= 1,
        row.0 + row_count - 1 <= usize::MAX,
    ensures
        final(render_buckets)@ == old(render_buckets)@.with_operators(
            bracket(left, row_count as int, row.0 as int, column as int),
        ),
{
    let ghost before = render_buckets@;
    let ghost pieces = bracket(left, row_count as int, row.0 as int, column as int);
    let mut i: usize = 0;
    while i < row_count
        invariant
            i <= row_count,
            row.0 + row_count - 1 <= usize::MAX,
            pieces == bracket(left, row_count as int, row.0 as int, column as int),
            render_buckets@ == before.with_operators(pieces.take(i as int)),
        decreases row_count - i,
    {
        render_buckets.push_operator(bracket_glyph(left, i, row_count), row.add(i), column);
        i += 1;
    }
}

} // verus!
