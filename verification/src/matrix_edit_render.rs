use vstd::prelude::*;
use vstd::utf8::{decode_utf8, encode_utf8, encode_utf8_decode_utf8, is_char_boundary};

use crate::buckets::{Frame, Layer, RenderBuckets};
use crate::coords::RenderPosY;
use crate::matrix_editing::{lemma_cell_index_in_range, MatrixEditing, MatrixEditingView};
use crate::matrix_layout::{
    bracket, clip_len, column_x, draw_matrix_bracket, largest, lemma_column_x_grows,
    lemma_largest_is_upper_bound, lemma_shown_columns_range, not_negative, seen_len, shown_columns,
};

verus! {

/// The part of the screen that a matrix is drawn into: the screen row of its
/// first row, the width of what stands left of the text, and the text column
/// from which on nothing is seen.
#[derive(Clone, Copy)]
pub struct MatrixArea {
    pub top: usize,
    pub left: usize,
    pub limit: usize,
}

/// The area of a matrix with `row_count` rows in a line that is drawn
/// `line_height` rows tall: the matrix stands in the middle of the line.
pub open spec fn matrix_area(
    render_y: RenderPosY,
    line_height: usize,
    row_count: usize,
    left: usize,
    limit: usize,
) -> MatrixArea {
    MatrixArea {
        top: (render_y.0 + (line_height - row_count) / 2) as usize,
        left,
        limit,
    }
}

/// How many bytes a text takes.
pub open spec fn byte_len(text: Seq<char>) -> int {
    encode_utf8(text).len() as int
}

/// The first bytes of a text, as text.
pub open spec fn byte_prefix(text: Seq<char>, n: int) -> Seq<char> {
    decode_utf8(encode_utf8(text).subrange(0, n))
}

impl MatrixEditingView {
    /// What is selected in the current cell lies within its first line.
    pub open spec fn selection_in_cell(self) -> bool {
        let selection = self.editor.selection;
        &&& selection.start.row == selection.cursor().row
        &&& selection.start.column <= self.lines[0].len()
        &&& selection.cursor().column <= self.lines[0].len()
    }

    pub open spec fn is_current(self, row: int, col: int) -> bool {
        self.current_cell.row == row && self.current_cell.column == col
    }

    pub open spec fn cell(self, row: int, col: int) -> Seq<char> {
        self.cells[row * self.col_count + col]
    }

    /// How wide a cell is drawn. The current cell is as wide as the text in its editor.
    pub open spec fn cell_len(self, row: int, col: int) -> int {
        if self.is_current(row, col) {
            self.lines[0].len() as int
        } else {
            byte_len(self.cell(row, col))
        }
    }

    pub open spec fn lens_in_column(self, col: int) -> spec_fn(int) -> int {
        |row: int| self.cell_len(row, col)
    }

    /// How wide each column is: as its widest cell.
    pub open spec fn widths(self) -> Seq<int> {
        Seq::new(
            self.col_count as nat,
            |col: int| largest(self.lens_in_column(col), self.row_count),
        )
    }

    /// Where the text of a cell starts. It is aligned to the right.
    pub open spec fn text_x(self, x: int, row: int, col: int) -> int {
        x + self.widths()[col] - self.cell_len(row, col)
    }

    /// The drawing of the current cell: its background, its characters, what is
    /// selected in it, and the cursor.
    pub open spec fn draw_current_cell(
        self,
        frame: Frame,
        area: MatrixArea,
        text_x: int,
        row: int,
    ) -> Frame {
        let line = self.lines[0];
        let x = text_x + area.left;
        let y = area.top + row;
        let selection = self.editor.selection;
        let on_background = frame.set_color(Layer::BehindText, 0xBBBBBB_55).draw_rect(
            Layer::BehindText,
            x,
            y,
            seen_len(line.len() as int, text_x, area.limit as int),
            1,
        );
        let with_text = on_background.set_color(Layer::Text, 0x000000_FF).draw_chars(
            Layer::Text,
            x,
            y,
            line,
        );
        let with_selection = if selection.end is Some {
            with_text.set_color(Layer::BehindText, 0xA6D2FF_FF).draw_rect(
                Layer::BehindText,
                x + selection.first().column,
                y,
                selection.second().column - selection.first().column,
                1,
            )
        } else {
            with_text
        };
        if self.editor.cursor_shown {
            with_selection.set_color(Layer::Text, 0x000000_FF).draw_char(
                Layer::Text,
                x + selection.cursor().column,
                y,
                '▏',
            )
        } else {
            with_selection
        }
    }

    pub open spec fn draw_cell(
        self,
        frame: Frame,
        area: MatrixArea,
        x: int,
        row: int,
        col: int,
    ) -> Frame {
        let text_x = self.text_x(x, row, col);
        if self.is_current(row, col) {
            self.draw_current_cell(frame, area, text_x, row)
        } else {
            let text = self.cell(row, col);
            frame.set_color(Layer::Text, 0x000000_FF).draw_string(
                Layer::Text,
                text_x + area.left,
                area.top + row,
                byte_prefix(text, seen_len(byte_len(text), text_x, area.limit as int)),
            )
        }
    }

    /// The first `n` cells of a column.
    pub open spec fn draw_column(
        self,
        frame: Frame,
        area: MatrixArea,
        x: int,
        col: int,
        n: int,
    ) -> Frame
        decreases n,
    {
        if n <= 0 {
            frame
        } else {
            self.draw_cell(self.draw_column(frame, area, x, col, n - 1), area, x, n - 1, col)
        }
    }

    /// The first `n` columns.
    pub open spec fn draw_columns(
        self,
        frame: Frame,
        area: MatrixArea,
        start: int,
        n: int,
    ) -> Frame
        decreases n,
    {
        if n <= 0 {
            frame
        } else {
            self.draw_column(
                self.draw_columns(frame, area, start, n - 1),
                area,
                column_x(start, self.widths(), n - 1),
                n - 1,
                self.row_count,
            )
        }
    }

    pub open spec fn shown(self, x: int, limit: int) -> int {
        shown_columns(x + 1, self.widths(), limit, 0)
    }

    /// The matrix drawn at column `x`. Where not all columns are seen, there is
    /// no closing bracket.
    pub open spec fn draw(self, frame: Frame, area: MatrixArea, x: int) -> Frame {
        let opened = frame.with_operators(
            bracket(true, self.row_count, area.top as int, x + area.left),
        );
        let n = self.shown(x, area.limit as int);
        let with_cells = self.draw_columns(opened, area, x + 1, n);
        if n < self.col_count {
            with_cells
        } else {
            with_cells.with_operators(
                bracket(
                    false,
                    self.row_count,
                    area.top as int,
                    column_x(x + 1, self.widths(), n) + area.left,
                ),
            )
        }
    }

    /// The column after the drawing. The closing bracket of a matrix with a
    /// single row is not counted.
    pub open spec fn end_x(self, x: int, limit: int) -> int {
        let n = self.shown(x, limit);
        column_x(x + 1, self.widths(), n) + (if n < self.col_count || self.row_count == 1 {
            0int
        } else {
            1
        })
    }

    /// No character is cut in two where the text of the cell is cut off.
    pub open spec fn cell_can_be_cut(self, x: int, limit: int, row: int, col: int) -> bool {
        let text = self.cell(row, col);
        is_char_boundary(
            encode_utf8(text),
            seen_len(byte_len(text), self.text_x(x, row, col), limit),
        )
    }

    pub open spec fn cells_can_be_cut(self, x: int, limit: int) -> bool {
        forall|row: int, col: int|
            0 <= row < self.row_count && 0 <= col < self.shown(x, limit) && !self.is_current(
                row,
                col,
            ) ==> #[trigger] self.cell_can_be_cut(
                column_x(x + 1, self.widths(), col),
                limit,
                row,
                col,
            )
    }
}

impl MatrixEditing {
    fn cell_width(&self, row_i: usize, col_i: usize) -> (r: usize)
        requires
            self@.wf(),
            row_i < self.row_count,
            col_i < self.col_count,
        ensures
            r == self@.cell_len(row_i as int, col_i as int),
    {
        proof {
            lemma_cell_index_in_range(
                row_i as int,
                col_i as int,
                self.row_count as int,
                self.col_count as int,
            );
            assert(self.cell_strings.len() == self.cell_strings@.len());
        }
        if self.current_cell.row == row_i && self.current_cell.column == col_i {
            self.editor_content.line_len(0)
        } else {
            self.cell_strings[row_i * self.col_count + col_i].as_str().as_bytes().len()
        }
    }

    fn column_width(&self, col_i: usize) -> (r: usize)
        requires
            self@.wf(),
            col_i < self.col_count,
        ensures
            r == self@.widths()[col_i as int],
    {
        let ghost lens = self@.lens_in_column(col_i as int);
        let mut max_width: usize = 0;
        let mut row_i: usize = 0;
        while row_i < self.row_count
            invariant
                self@.wf(),
                col_i < self.col_count,
                row_i <= self.row_count,
                lens == self@.lens_in_column(col_i as int),
                max_width == largest(lens, row_i as int),
            decreases self.row_count - row_i,
        {
            let len = self.cell_width(row_i, col_i);
            if max_width < len {
                max_width = len;
            }
            row_i += 1;
        }
        max_width
    }

    fn render_current_cell(
        &self,
        render_buckets: &mut RenderBuckets,
        text_x: usize,
        area: MatrixArea,
        row_i: usize,
    )
        requires
            self@.wf(),
            self@.selection_in_cell(),
            text_x + area.left + self@.lines[0].len() <= usize::MAX,
            area.top + row_i <= usize::MAX,
        ensures
            final(render_buckets)@ == self@.draw_current_cell(
                old(render_buckets)@,
                area,
                text_x as int,
                row_i as int,
            ),
    {
        let y = RenderPosY::new(area.top + row_i);
        let ghost line = self@.lines[0];
        let chars = self.editor_content.get_line_valid_chars(0);
        let text_len: usize = clip_len(chars.len(), text_x, area.limit);
        let x: usize = text_x + area.left;
        render_buckets.set_color(Layer::BehindText, 0xBBBBBB_55);
        render_buckets.draw_rect(Layer::BehindText, x, y, text_len, 1);
        render_buckets.set_color(Layer::Text, 0x000000_FF);
        let ghost base = render_buckets@;
        let mut i: usize = 0;
        while i < chars.len()
            invariant
                i <= chars@.len(),
                chars@ == line,
                x + line.len() <= usize::MAX,
                render_buckets@ == base.draw_chars(
                    Layer::Text,
                    x as int,
                    y.0 as int,
                    line.take(i as int),
                ),
            decreases chars@.len() - i,
        {
            render_buckets.draw_char(Layer::Text, x + i, y, chars[i]);
            assert(line.take(i as int + 1).drop_last() =~= line.take(i as int));
            i += 1;
        }
        assert(line.take(i as int) =~= line);
        let sel = self.editor.get_selection();
        if sel.is_range() {
            let first = sel.get_first();
            let second = sel.get_second();
            let len: usize = second.column - first.column;
            render_buckets.set_color(Layer::BehindText, 0xA6D2FF_FF);
            render_buckets.draw_rect(Layer::BehindText, x + first.column, y, len, 1);
        }
        if self.editor.is_cursor_shown() {
            render_buckets.set_color(Layer::Text, 0x000000_FF);
            render_buckets.draw_char(Layer::Text, x + sel.get_cursor_pos().column, y, '▏');
        }
    }

    fn render_cell(
        &self,
        render_buckets: &mut RenderBuckets,
        area: MatrixArea,
        x: usize,
        max_width: usize,
        row_i: usize,
        col_i: usize,
    )
        requires
            self@.wf(),
            self@.selection_in_cell(),
            row_i < self.row_count,
            col_i < self.col_count,
            max_width == self@.widths()[col_i as int],
            x + max_width + area.left <= usize::MAX,
            area.top + row_i <= usize::MAX,
            !self@.is_current(row_i as int, col_i as int) ==> self@.cell_can_be_cut(
                x as int,
                area.limit as int,
                row_i as int,
                col_i as int,
            ),
        ensures
            final(render_buckets)@ == self@.draw_cell(
                old(render_buckets)@,
                area,
                x as int,
                row_i as int,
                col_i as int,
            ),
    {
        let len = self.cell_width(row_i, col_i);
        proof {
            lemma_largest_is_upper_bound(
                self@.lens_in_column(col_i as int),
                self.row_count as int,
                row_i as int,
            );
            lemma_cell_index_in_range(
                row_i as int,
                col_i as int,
                self.row_count as int,
                self.col_count as int,
            );
            assert(self.cell_strings.len() == self.cell_strings@.len());
        }
        let padding_x: usize = max_width - len;
        let text_x: usize = x + padding_x;
        if self.current_cell.row == row_i && self.current_cell.column == col_i {
            self.render_current_cell(render_buckets, text_x, area, row_i);
        } else {
            let text_len: usize = clip_len(len, text_x, area.limit);
            let chars = self.cell_strings[row_i * self.col_count + col_i].as_str();
            let seen = chars.split_at(text_len).0.to_owned();
            proof {
                encode_utf8_decode_utf8(seen@);
            }
            render_buckets.set_color(Layer::Text, 0x000000_FF);
            render_buckets.draw_string(
                Layer::Text,
                text_x + area.left,
                RenderPosY::new(area.top + row_i),
                seen,
            );
        }
    }

    fn render_column(
        &self,
        render_buckets: &mut RenderBuckets,
        area: MatrixArea,
        x: usize,
        max_width: usize,
        col_i: usize,
    )
        requires
            self@.wf(),
            self@.selection_in_cell(),
            col_i < self.col_count,
            max_width == self@.widths()[col_i as int],
            x + max_width + area.left <= usize::MAX,
            area.top + self.row_count <= usize::MAX,
            forall|row: int|
                0 <= row < self.row_count && !self@.is_current(row, col_i as int)
                    ==> #[trigger] self@.cell_can_be_cut(
                    x as int,
                    area.limit as int,
                    row,
                    col_i as int,
                ),
        ensures
            final(render_buckets)@ == self@.draw_column(
                old(render_buckets)@,
                area,
                x as int,
                col_i as int,
                self.row_count as int,
            ),
    {
        let ghost before = render_buckets@;
        let mut row_i: usize = 0;
        while row_i < self.row_count
            invariant
                self@.wf(),
                self@.selection_in_cell(),
                row_i <= self.row_count,
                col_i < self.col_count,
                max_width == self@.widths()[col_i as int],
                x + max_width + area.left <= usize::MAX,
                area.top + self.row_count <= usize::MAX,
                forall|row: int|
                    0 <= row < self.row_count && !self@.is_current(row, col_i as int)
                        ==> #[trigger] self@.cell_can_be_cut(
                        x as int,
                        area.limit as int,
                        row,
                        col_i as int,
                    ),
                render_buckets@ == self@.draw_column(
                    before,
                    area,
                    x as int,
                    col_i as int,
                    row_i as int,
                ),
            decreases self.row_count - row_i,
        {
            self.render_cell(render_buckets, area, x, max_width, row_i, col_i);
            row_i += 1;
        }
    }

    /// Draws the matrix that is being edited, and tells in which column the
    /// drawing ends.
    pub fn render<'b>(
        &self,
        render_x: usize,
        render_y: RenderPosY,
        current_editor_width: usize,
        left_gutter_width: usize,
        render_buckets: &mut RenderBuckets<'b>,
        rendered_row_height: usize,
    ) -> (r: usize)
        requires
            self@.wf(),
            self@.selection_in_cell(),
            self.row_count <= rendered_row_height,
            render_y.0 + rendered_row_height <= usize::MAX,
            self@.end_x(render_x as int, current_editor_width as int) + left_gutter_width
                <= usize::MAX,
            self@.cells_can_be_cut(render_x as int, current_editor_width as int),
        ensures
            final(render_buckets)@ == self@.draw(
                old(render_buckets)@,
                matrix_area(
                    render_y,
                    rendered_row_height,
                    self.row_count,
                    left_gutter_width,
                    current_editor_width,
                ),
                render_x as int,
            ),
            r == self@.end_x(render_x as int, current_editor_width as int),
    {
        let vert_align_offset = (rendered_row_height - self.row_count) / 2;
        let area = MatrixArea {
            top: render_y.as_usize() + vert_align_offset,
            left: left_gutter_width,
            limit: current_editor_width,
        };
        let ghost start = render_x + 1;
        let ghost limit = current_editor_width as int;
        let ghost widths = self@.widths();
        let ghost shown = self@.shown(render_x as int, limit);
        proof {
            lemma_shown_columns_range(start, widths, limit, 0);
            lemma_column_x_grows(start, widths, 0, shown);
        }
        let top = RenderPosY::new(area.top);
        draw_matrix_bracket(
            render_buckets,
            true,
            self.row_count,
            top,
            render_x + left_gutter_width,
        );
        let ghost opened = render_buckets@;
        let mut x: usize = render_x + 1;
        let mut col_i: usize = 0;
        while col_i < self.col_count && x < current_editor_width
            invariant
                self@.wf(),
                self@.selection_in_cell(),
                col_i <= shown <= self.col_count,
                widths == self@.widths(),
                not_negative(widths),
                start == render_x + 1,
                limit == current_editor_width,
                shown == self@.shown(render_x as int, limit),
                shown == shown_columns(start, widths, limit, col_i as int),
                area.left == left_gutter_width,
                area.limit == current_editor_width,
                area.top + self.row_count <= usize::MAX,
                column_x(start, widths, shown) + left_gutter_width <= usize::MAX,
                self@.cells_can_be_cut(render_x as int, limit),
                x == column_x(start, widths, col_i as int),
                render_buckets@ == self@.draw_columns(opened, area, start, col_i as int),
            decreases self.col_count - col_i,
        {
            proof {
                lemma_shown_columns_range(start, widths, limit, col_i + 1);
                lemma_column_x_grows(start, widths, col_i + 1, shown);
            }
            let max_width = self.column_width(col_i);
            self.render_column(render_buckets, area, x, max_width, col_i);
            col_i += 1;
            x = x + max_width + if col_i < self.col_count {
                2
            } else {
                0
            };
        }
        if col_i < self.col_count {
            return x;
        }
        draw_matrix_bracket(
            render_buckets,
            false,
            self.row_count,
            top,
            x + left_gutter_width,
        );
        if self.row_count != 1 {
            x += 1;
        }
        x
    }
}

} // verus!
