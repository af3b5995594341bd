use vstd::prelude::*;

use crate::content::{lemma_split_lines_len, split_lines, EditorContent, LineData};
use crate::coords::{EditorY, Pos, RenderPosY, Selection};
use crate::editor::{
    commands_view, Editor, EditorCommand, EditorCommandView, RowModificationType,
};
use crate::matrix_editing::MatrixEditing;
use crate::matrix_layout::smaller;
use crate::render_data::{GlobalRenderData, Layout};
use crate::results::ResultFormat;
use crate::row_flags::{EditorRowFlags, MAX_LINE_COUNT};
use crate::update::line_ids_unique;

verus! {

pub const MAX_EDITOR_WIDTH: usize = 120;

/// A space, the two digits of the line number, and a space.
pub const LEFT_GUTTER_WIDTH: usize = 4;

pub const SCROLL_BAR_WIDTH: usize = 1;

pub const RIGHT_GUTTER_WIDTH: usize = 2;

pub const MIN_RESULT_PANEL_WIDTH: usize = 30;

/// The place of the variable that holds the running sum of the lines.
pub const SUM_VARIABLE_INDEX: usize = 0;

/// What the pressed mouse button is doing.
#[derive(Clone, Copy, PartialEq, Eq, Structural, Debug)]
pub enum MouseState {
    ClickedInEditor,
    ClickedInScrollBar { original_click_y: RenderPosY, original_scroll_y: usize },
    RightGutterIsDragged,
}

/// The notepad calculator: its text, and how it stands on the screen.
pub struct NoteCalcApp {
    pub client_width: usize,
    pub editor: Editor,
    pub editor_content: EditorContent<LineData>,
    pub matrix_editing: Option<MatrixEditing>,
    pub line_reference_chooser: Option<EditorY>,
    pub line_id_generator: usize,
    pub mouse_state: Option<MouseState>,
    pub result_area_redraw: EditorRowFlags,
    pub editor_area_redraw: EditorRowFlags,
    pub render_data: GlobalRenderData,
}

/// The part of the screen that has to be drawn again.
#[derive(Clone, Copy, PartialEq, Eq, Structural, Debug)]
pub enum RedrawTarget {
    EditorArea,
    ResultArea,
    Both,
}

/// Where the gutter before the results stands: where it is wanted, or, on a
/// narrow screen, far enough left for the results to have room.
pub open spec fn result_gutter(wanted: Option<usize>, client_width: int) -> int {
    let x = match wanted {
        Some(x) => x as int,
        None => (LEFT_GUTTER_WIDTH + MAX_EDITOR_WIDTH + SCROLL_BAR_WIDTH) as int,
    };
    smaller(x, client_width - (RIGHT_GUTTER_WIDTH + MIN_RESULT_PANEL_WIDTH))
}

/// Wherever the gutter is wanted, it is put there or left of it, and leaves room
/// for the results. Putting it where it stands already changes nothing.
pub proof fn law_results_have_room(wanted: Option<usize>, client_width: int)
    requires
        client_width >= RIGHT_GUTTER_WIDTH + MIN_RESULT_PANEL_WIDTH,
        client_width <= usize::MAX,
    ensures
        ({
            let x = result_gutter(wanted, client_width);
            &&& 0 <= x
            &&& x + RIGHT_GUTTER_WIDTH + MIN_RESULT_PANEL_WIDTH <= client_width
            &&& wanted matches Some(w) ==> x <= w
            &&& result_gutter(Some(x as usize), client_width) == x
        }),
{
}

/// All lines that the calculator handles.
pub open spec fn all_rows() -> Set<int> {
    Set::new(|row: int| 0 <= row < MAX_LINE_COUNT)
}

impl NoteCalcApp {
    /// What has to be drawn again, with more lines added for a part of the screen.
    pub open spec fn redraws(
        self,
        before: NoteCalcApp,
        rows: Set<int>,
        target: RedrawTarget,
    ) -> bool {
        &&& self.result_area_redraw.rows() == (if target == RedrawTarget::EditorArea {
            before.result_area_redraw.rows()
        } else {
            before.result_area_redraw.rows().union(rows)
        })
        &&& self.editor_area_redraw.rows() == (if target == RedrawTarget::ResultArea {
            before.editor_area_redraw.rows()
        } else {
            before.editor_area_redraw.rows().union(rows)
        })
    }

    /// The rest of the calculator, whatever has to be drawn again.
    pub open spec fn same_but_redraws(self, before: NoteCalcApp) -> bool {
        self == NoteCalcApp {
            result_area_redraw: self.result_area_redraw,
            editor_area_redraw: self.editor_area_redraw,
            ..before
        }
    }

    /// The widths of the screen belong together: the text stands between the
    /// line numbers and the gutter before the results, and the results have
    /// room behind it.
    pub open spec fn layout_wf(self) -> bool {
        let gr = self.render_data@;
        &&& gr.left_gutter_width == LEFT_GUTTER_WIDTH
        &&& gr.left_gutter_width <= gr.result_gutter_x
        &&& gr.current_editor_width == gr.result_gutter_x - gr.left_gutter_width
        &&& gr.result_gutter_x + RIGHT_GUTTER_WIDTH + MIN_RESULT_PANEL_WIDTH
            <= self.client_width
    }

    /// A calculator without text. Everything has to be drawn.
    pub fn new(client_width: usize, client_height: usize) -> (r: NoteCalcApp)
        requires
            client_width >= LEFT_GUTTER_WIDTH + RIGHT_GUTTER_WIDTH + MIN_RESULT_PANEL_WIDTH,
        ensures
            r.layout_wf(),
            r.client_width == client_width,
            r.editor.selection == (Selection { start: Pos { row: 0, column: 0 }, end: None }),
            !r.editor.cursor_shown,
            r.editor_content.wf(),
            r.editor_content.text_lines() == seq![Seq::<char>::empty()],
            r.editor_content.data@ == seq![
                LineData { line_id: 0, result_format: ResultFormat::Dec },
            ],
            r.matrix_editing is None,
            r.line_reference_chooser is None,
            r.line_id_generator == 1,
            r.mouse_state is None,
            r.result_area_redraw.rows() == all_rows(),
            r.editor_area_redraw.rows() == all_rows(),
            ({
                let gutter = result_gutter(None, client_width as int);
                r.render_data@ == (Layout {
                    client_height,
                    scroll_y: 0,
                    result_gutter_x: gutter as usize,
                    left_gutter_width: LEFT_GUTTER_WIDTH,
                    current_editor_width: (gutter - LEFT_GUTTER_WIDTH) as usize,
                    current_result_panel_width: (client_width - gutter
                        - RIGHT_GUTTER_WIDTH) as usize,
                    render_ys: Seq::new(MAX_LINE_COUNT as nat, |i: int| None),
                    heights: Seq::new(MAX_LINE_COUNT as nat, |i: int| 0),
                })
            }),
    {
        let r = NoteCalcApp {
            line_reference_chooser: None,
            client_width,
            editor: Editor::new(),
            editor_content: EditorContent::new(LineData::default()),
            matrix_editing: None,
            line_id_generator: 1,
            mouse_state: None,
            result_area_redraw: EditorRowFlags::all_rows_starting_at(0),
            editor_area_redraw: EditorRowFlags::all_rows_starting_at(0),
            render_data: GlobalRenderData::new(
                client_width,
                client_height,
                NoteCalcApp::calc_result_gutter_x(None, client_width),
                LEFT_GUTTER_WIDTH,
                RIGHT_GUTTER_WIDTH,
            ),
        };
        r
    }

    pub fn calc_result_gutter_x(current_x: Option<usize>, client_width: usize) -> (r: usize)
        requires
            client_width >= RIGHT_GUTTER_WIDTH + MIN_RESULT_PANEL_WIDTH,
        ensures
            r == result_gutter(current_x, client_width as int),
    {
        let wanted: usize = match current_x {
            Some(current_x) => current_x,
            None => LEFT_GUTTER_WIDTH + MAX_EDITOR_WIDTH + SCROLL_BAR_WIDTH,
        };
        let limit: usize = client_width - (RIGHT_GUTTER_WIDTH + MIN_RESULT_PANEL_WIDTH);
        if wanted < limit {
            wanted
        } else {
            limit
        }
    }

    /// Marks lines as to be drawn again.
    pub fn set_redraw_flag(&mut self, flags: EditorRowFlags, target: RedrawTarget)
        ensures
            final(self).redraws(*old(self), flags.rows(), target),
            final(self).same_but_redraws(*old(self)),
    {
        let ghost before = *self;
        match target {
            RedrawTarget::Both => {
                self.result_area_redraw.merge(flags);
                self.editor_area_redraw.merge(flags);
            },
            RedrawTarget::EditorArea => {
                self.editor_area_redraw.merge(flags);
            },
            RedrawTarget::ResultArea => {
                self.result_area_redraw.merge(flags);
            },
        }
        proof {
            if target != RedrawTarget::EditorArea {
                assert(self.result_area_redraw.rows() =~= before.result_area_redraw.rows().union(
                    flags.rows(),
                ));
            }
            if target != RedrawTarget::ResultArea {
                assert(self.editor_area_redraw.rows() =~= before.editor_area_redraw.rows().union(
                    flags.rows(),
                ));
            }
        }
    }

    /// Marks every line as to be drawn again.
    pub(crate) fn redraw_all(&mut self)
        ensures
            final(self).redraws(*old(self), all_rows(), RedrawTarget::Both),
            final(self).same_but_redraws(*old(self)),
    {
        let flags = EditorRowFlags::all_rows_starting_at(0);
        assert(flags.rows() =~= all_rows());
        self.set_redraw_flag(flags, RedrawTarget::Both);
    }

    /// Moves the gutter before the results.
    pub fn set_result_gutter_x(&mut self, x: usize)
        requires
            old(self).render_data.left_gutter_width <= x,
        ensures
            old(self).layout_wf() && x + RIGHT_GUTTER_WIDTH + MIN_RESULT_PANEL_WIDTH <= old(
                self,
            ).client_width ==> final(self).layout_wf(),
            final(self).render_data@ == (Layout {
                result_gutter_x: x,
                current_editor_width: (x - old(self).render_data.left_gutter_width) as usize,
                ..old(self).render_data@
            }),
            final(self).redraws(*old(self), all_rows(), RedrawTarget::Both),
            *final(self) == (NoteCalcApp {
                render_data: final(self).render_data,
                result_area_redraw: final(self).result_area_redraw,
                editor_area_redraw: final(self).editor_area_redraw,
                ..*old(self)
            }),
    {
        self.render_data.result_gutter_x = x;
        self.render_data.current_editor_width = x - self.render_data.left_gutter_width;
        self.redraw_all();
    }

    /// What a new width of the screen does.
    pub open spec fn resized(self, new_client_width: usize, after: NoteCalcApp) -> bool {
        let x = result_gutter(
            Some(self.render_data.result_gutter_x),
            new_client_width as int,
        );
        &&& after.render_data@ == Layout {
            result_gutter_x: x as usize,
            current_editor_width: (x - self.render_data.left_gutter_width) as usize,
            ..self.render_data@
        }
        &&& after.redraws(self, all_rows(), RedrawTarget::Both)
        &&& after == NoteCalcApp {
            client_width: new_client_width,
            render_data: after.render_data,
            result_area_redraw: after.result_area_redraw,
            editor_area_redraw: after.editor_area_redraw,
            ..self
        }
    }

    /// Takes a new width of the screen. The gutter moves only where the results
    /// would have too little room.
    pub fn handle_resize(&mut self, new_client_width: usize)
        requires
            new_client_width >= RIGHT_GUTTER_WIDTH + MIN_RESULT_PANEL_WIDTH,
            old(self).render_data.left_gutter_width <= result_gutter(
                Some(old(self).render_data.result_gutter_x),
                new_client_width as int,
            ),
        ensures
            old(self).layout_wf() ==> final(self).layout_wf(),
            old(self).resized(new_client_width, *final(self)),
    {
        self.client_width = new_client_width;
        self.set_result_gutter_x(
            NoteCalcApp::calc_result_gutter_x(
                Some(self.render_data.result_gutter_x),
                new_client_width,
            ),
        );
    }

    /// What setting a text does, what the editor has to do, and what has to be
    /// updated.
    pub open spec fn content_set(
        self,
        text: Seq<char>,
        after: NoteCalcApp,
        commands: Seq<EditorCommandView>,
        effect: RowModificationType,
    ) -> bool {
        &&& commands == seq![EditorCommandView::SetCursor(Pos { row: 0, column: 0 })]
        &&& effect == RowModificationType::AllLinesFrom(0)
        &&& after.editor_content.text_lines() == split_lines(
            if text.len() == 0 {
                ten_line_breaks()
            } else {
                text
            },
        )
        &&& after.editor_content.data@.len() == after.editor_content.lines@.len()
        &&& forall|i: int|
            0 <= i < after.editor_content.data@.len() ==> (
            #[trigger] after.editor_content.data@[i]) == (LineData {
                line_id: (i + 1) as usize,
                result_format: ResultFormat::Dec,
            })
        &&& after.line_id_generator == after.editor_content.lines@.len() + 1
        &&& after.render_data@ == Layout { scroll_y: 0, ..self.render_data@ }
        &&& after == NoteCalcApp {
            editor_content: after.editor_content,
            line_id_generator: after.line_id_generator,
            render_data: after.render_data,
            ..self
        }
    }

    /// Replaces the whole text, and numbers its lines. What has to happen next
    /// is that the editor puts the cursor at the start, and that all lines are
    /// evaluated. An empty text stands for ten line breaks.
    pub fn set_normalized_content(&mut self, text: &str) -> (r: (
        Vec<EditorCommand>,
        RowModificationType,
    ))
        requires
            text@.len() + 1 < usize::MAX,
        ensures
            old(self).layout_wf() ==> final(self).layout_wf(),
            old(self).content_set(text@, *final(self), commands_view(r.0@), r.1),
            final(self).editor_content.wf(),
            line_ids_unique(
                final(self).editor_content.data@,
                final(self).line_id_generator as int,
            ),
    {
        let blank = LineData::default();
        if text.is_empty() {
            let breaks = "\n\n\n\n\n\n\n\n\n\n";
            proof {
                reveal_strlit("\n\n\n\n\n\n\n\n\n\n");
                assert(breaks@ =~= ten_line_breaks());
            }
            self.editor_content.set_content(breaks, blank);
        } else {
            self.editor_content.set_content(text, blank);
        }
        let ghost lines = self.editor_content.lines;
        let ghost before = *self;
        let count = self.editor_content.line_count();
        let mut i: usize = 0;
        while i < count
            invariant
                i <= count,
                count == lines@.len(),
                self.editor_content.lines == lines,
                self.editor_content.data@.len() == count,
                *self == (NoteCalcApp { editor_content: self.editor_content, ..before }),
                forall|k: int|
                    0 <= k < i ==> (#[trigger] self.editor_content.data@[k]) == (LineData {
                        line_id: (k + 1) as usize,
                        result_format: ResultFormat::Dec,
                    }),
                forall|k: int|
                    i <= k < count ==> (#[trigger] self.editor_content.data@[k])
                        == (LineData { line_id: 0, result_format: ResultFormat::Dec }),
            decreases count - i,
        {
            let mut data = *self.editor_content.get_data(i);
            data.line_id = i + 1;
            self.editor_content.set_data(i, data);
            i += 1;
        }
        proof {
            lemma_split_lines_len(text@);
            lemma_split_lines_len(ten_line_breaks());
        }
        self.line_id_generator = count + 1;
        self.render_data.scroll_y = 0;
        let mut commands: Vec<EditorCommand> = Vec::new();
        commands.push(EditorCommand::SetCursor(Pos::from_row_column(0, 0)));
        assert(commands_view(commands@) =~= seq![
            EditorCommandView::SetCursor(Pos { row: 0, column: 0 }),
        ]);
        (commands, RowModificationType::AllLinesFrom(0))
    }
}

pub open spec fn ten_line_breaks() -> Seq<char> {
    seq!['\n', '\n', '\n', '\n', '\n', '\n', '\n', '\n', '\n', '\n']
}

} // verus!
