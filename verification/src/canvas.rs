use vstd::prelude::*;

use crate::app::NoteCalcApp;
use crate::buckets::{
    ascii_view, messages_view, strings_view, texts_view, AsciiCmd, Cmd, Frame, OutputMessage,
    RenderAsciiTextMsg, RenderBuckets, RenderStringMsg, RenderUtf8TextMsg, TextCmd,
};
use crate::coords::RenderPosY;

verus! {

/// How many characters a row of the canvas has.
pub const CANVAS_WIDTH: usize = 256;

/// Rows of characters that a frame can be written onto.
pub struct Canvas {
    pub rows: Vec<Vec<char>>,
}

impl View for Canvas {
    type V = Seq<Seq<char>>;

    open spec fn view(&self) -> Seq<Seq<char>> {
        Seq::new(self.rows@.len(), |i: int| self.rows@[i]@)
    }
}

/// A row with a text written over it from a column on. What reaches past the
/// end of the row is lost.
pub open spec fn row_with(row: Seq<char>, column: int, text: Seq<char>) -> Seq<char> {
    Seq::new(
        row.len(),
        |i: int| if column <= i < column + text.len() {
            text[i - column]
        } else {
            row[i]
        },
    )
}

pub open spec fn text_written(canvas: Seq<Seq<char>>, text: TextCmd) -> Seq<Seq<char>> {
    canvas.update(text.row, row_with(canvas[text.row], text.column, text.text))
}

/// Bytes as the characters with their numbers.
pub open spec fn chars_of_bytes(bytes: Seq<u8>) -> Seq<char> {
    Seq::new(bytes.len(), |i: int| bytes[i] as char)
}

pub open spec fn ascii_written(canvas: Seq<Seq<char>>, text: AsciiCmd) -> Seq<Seq<char>> {
    text_written(
        canvas,
        TextCmd { text: chars_of_bytes(text.text), row: text.row, column: text.column },
    )
}

/// A command written: only characters and texts leave a trace.
pub open spec fn cmd_written(canvas: Seq<Seq<char>>, cmd: Cmd) -> Seq<Seq<char>> {
    match cmd {
        Cmd::Char { x, y, ch } => canvas.update(y, canvas[y].update(x, ch)),
        Cmd::Text(text) => text_written(canvas, text),
        Cmd::Ascii(text) => ascii_written(canvas, text),
        Cmd::Str(text) => text_written(canvas, text),
        _ => canvas,
    }
}

pub open spec fn texts_written(canvas: Seq<Seq<char>>, texts: Seq<TextCmd>) -> Seq<Seq<char>>
    decreases texts.len(),
{
    if texts.len() == 0 {
        canvas
    } else {
        text_written(texts_written(canvas, texts.drop_last()), texts.last())
    }
}

pub open spec fn asciis_written(canvas: Seq<Seq<char>>, texts: Seq<AsciiCmd>) -> Seq<Seq<char>>
    decreases texts.len(),
{
    if texts.len() == 0 {
        canvas
    } else {
        ascii_written(asciis_written(canvas, texts.drop_last()), texts.last())
    }
}

pub open spec fn cmds_written(canvas: Seq<Seq<char>>, cmds: Seq<Cmd>) -> Seq<Seq<char>>
    decreases cmds.len(),
{
    if cmds.len() == 0 {
        canvas
    } else {
        cmd_written(cmds_written(canvas, cmds.drop_last()), cmds.last())
    }
}

/// A frame written onto a canvas, one kind of thing over the other.
pub open spec fn frame_written(canvas: Seq<Seq<char>>, frame: Frame) -> Seq<Seq<char>> {
    let behind = cmds_written(canvas, frame.behind_text);
    let texts = asciis_written(texts_written(behind, frame.utf8_texts), frame.ascii_texts);
    let numbers = texts_written(texts_written(texts, frame.numbers), frame.units);
    let operators = texts_written(
        texts_written(numbers, frame.operators),
        frame.line_ref_results,
    );
    cmds_written(
        cmds_written(texts_written(operators, frame.variable), frame.text),
        frame.above_text,
    )
}

/// Every row of the canvas has its full width.
pub open spec fn canvas_wf(canvas: Seq<Seq<char>>) -> bool {
    forall|i: int| 0 <= i < canvas.len() ==> (#[trigger] canvas[i]).len() == CANVAS_WIDTH
}

/// The place is on a canvas of this height, or right after one of its rows.
pub open spec fn place_on(row: int, column: int, height: int) -> bool {
    0 <= row < height && 0 <= column <= CANVAS_WIDTH
}

pub open spec fn cmd_on(cmd: Cmd, height: int) -> bool {
    match cmd {
        Cmd::Char { x, y, ch } => 0 <= y < height && 0 <= x < CANVAS_WIDTH,
        Cmd::Text(text) => place_on(text.row, text.column, height),
        Cmd::Ascii(text) => place_on(text.row, text.column, height),
        Cmd::Str(text) => place_on(text.row, text.column, height),
        _ => true,
    }
}

pub open spec fn texts_on(texts: Seq<TextCmd>, height: int) -> bool {
    forall|i: int|
        0 <= i < texts.len() ==> place_on((#[trigger] texts[i]).row, texts[i].column, height)
}

pub open spec fn asciis_on(texts: Seq<AsciiCmd>, height: int) -> bool {
    forall|i: int|
        0 <= i < texts.len() ==> place_on((#[trigger] texts[i]).row, texts[i].column, height)
}

pub open spec fn cmds_on(cmds: Seq<Cmd>, height: int) -> bool {
    forall|i: int| 0 <= i < cmds.len() ==> cmd_on(#[trigger] cmds[i], height)
}

/// Everything in the frame has its place on a canvas of this height.
pub open spec fn frame_on(frame: Frame, height: int) -> bool {
    &&& cmds_on(frame.behind_text, height)
    &&& texts_on(frame.utf8_texts, height)
    &&& asciis_on(frame.ascii_texts, height)
    &&& texts_on(frame.numbers, height)
    &&& texts_on(frame.units, height)
    &&& texts_on(frame.operators, height)
    &&& texts_on(frame.line_ref_results, height)
    &&& texts_on(frame.variable, height)
    &&& cmds_on(frame.text, height)
    &&& cmds_on(frame.above_text, height)
}

impl Canvas {
    /// An empty canvas: blanks only.
    pub fn new(height: usize) -> (r: Canvas)
        ensures
            r@ == Seq::new(
                height as nat,
                |i: int| Seq::new(CANVAS_WIDTH as nat, |j: int| ' '),
            ),
    {
        let ghost blank = Seq::new(CANVAS_WIDTH as nat, |j: int| ' ');
        let mut rows: Vec<Vec<char>> = Vec::with_capacity(height);
        let mut i: usize = 0;
        while i < height
            invariant
                i <= height,
                rows@.len() == i,
                blank == Seq::new(CANVAS_WIDTH as nat, |j: int| ' '),
                forall|k: int| 0 <= k < i ==> (#[trigger] rows@[k])@ == blank,
            decreases height - i,
        {
            let mut row: Vec<char> = Vec::with_capacity(CANVAS_WIDTH);
            let mut j: usize = 0;
            while j < CANVAS_WIDTH
                invariant
                    j <= CANVAS_WIDTH,
                    row@.len() == j,
                    forall|k: int| 0 <= k < j ==> (#[trigger] row@[k]) == ' ',
                decreases CANVAS_WIDTH - j,
            {
                row.push(' ');
                j += 1;
            }
            rows.push(row);
            i += 1;
        }
        let r = Canvas { rows };
        r
    }

    fn put(&mut self, row: usize, column: usize, ch: char)
        requires
            canvas_wf(old(self)@),
            row < old(self)@.len(),
            column < CANVAS_WIDTH,
        ensures
            final(self)@ == old(self)@.update(
                row as int,
                old(self)@[row as int].update(column as int, ch),
            ),
            canvas_wf(final(self)@),
    {
        assert(self@[row as int] == self.rows@[row as int]@);
        self.rows[row][column] = ch;
    }

    fn write_char_slice(&mut self, row: RenderPosY, col: usize, src: &[char])
        requires
            canvas_wf(old(self)@),
            place_on(row.0 as int, col as int, old(self)@.len() as int),
        ensures
            final(self)@ == text_written(
                old(self)@,
                TextCmd { text: src@, row: row.0 as int, column: col as int },
            ),
            canvas_wf(final(self)@),
            final(self)@.len() == old(self)@.len(),
    {
        let ghost before = self@;
        let ghost y = row.0 as int;
        let mut i: usize = 0;
        assert(self@ =~= before.update(y, row_with(before[y], col as int, src@.take(0)))) by {
            assert(row_with(before[y], col as int, src@.take(0)) =~= before[y]);
        }
        while i < src.len() && col + i < CANVAS_WIDTH
            invariant
                i <= src@.len(),
                col <= CANVAS_WIDTH,
                col + i <= CANVAS_WIDTH,
                y == row.0,
                0 <= y < before.len(),
                canvas_wf(before),
                canvas_wf(self@),
                self@.len() == before.len(),
                self@ == before.update(y, row_with(before[y], col as int, src@.take(i as int))),
            decreases src@.len() - i,
        {
            let ghost current = self@;
            self.put(row.as_usize(), col + i, src[i]);
            proof {
                let next = row_with(before[y], col as int, src@.take(i + 1));
                assert(current[y].update(col + i, src@[i as int]) =~= next);
            }
            i += 1;
        }
        assert(row_with(before[y], col as int, src@.take(i as int)) =~= row_with(
            before[y],
            col as int,
            src@,
        ));
    }

    fn write_str(&mut self, row: RenderPosY, col: usize, src: &str)
        requires
            canvas_wf(old(self)@),
            place_on(row.0 as int, col as int, old(self)@.len() as int),
        ensures
            final(self)@ == text_written(
                old(self)@,
                TextCmd { text: src@, row: row.0 as int, column: col as int },
            ),
            canvas_wf(final(self)@),
            final(self)@.len() == old(self)@.len(),
    {
        let mut chars: Vec<char> = Vec::new();
        for ch in it: src.chars()
            invariant
                it.seq() == src@,
                chars@ == src@.take(it.index() as int),
        {
            chars.push(ch);
        }
        assert(chars@ =~= src@);
        self.write_char_slice(row, col, chars.as_slice());
    }

    fn write_ascii(&mut self, row: RenderPosY, col: usize, src: &[u8])
        requires
            canvas_wf(old(self)@),
            place_on(row.0 as int, col as int, old(self)@.len() as int),
        ensures
            final(self)@ == ascii_written(
                old(self)@,
                AsciiCmd { text: src@, row: row.0 as int, column: col as int },
            ),
            canvas_wf(final(self)@),
            final(self)@.len() == old(self)@.len(),
    {
        let mut chars: Vec<char> = Vec::new();
        let mut i: usize = 0;
        while i < src.len()
            invariant
                i <= src@.len(),
                chars@ == chars_of_bytes(src@).take(i as int),
            decreases src@.len() - i,
        {
            chars.push(src[i] as char);
            i += 1;
        }
        assert(chars@ =~= chars_of_bytes(src@));
        self.write_char_slice(row, col, chars.as_slice());
    }

    fn write_command(&mut self, command: &OutputMessage)
        requires
            canvas_wf(old(self)@),
            cmd_on(command@, old(self)@.len() as int),
        ensures
            final(self)@ == cmd_written(old(self)@, command@),
            canvas_wf(final(self)@),
            final(self)@.len() == old(self)@.len(),
    {
        match command {
            OutputMessage::RenderUtf8Text(text) => self.write_char_slice(
                text.row,
                text.column,
                text.text,
            ),
            OutputMessage::RenderChar(x, y, ch) => self.put(*y, *x, *ch),
            OutputMessage::RenderString(text) => self.write_str(
                text.row,
                text.column,
                text.text.as_str(),
            ),
            OutputMessage::RenderAsciiText(text) => self.write_ascii(
                text.row,
                text.column,
                text.text,
            ),
            OutputMessage::SetStyle(_) => {},
            OutputMessage::SetColor(_) => {},
            OutputMessage::RenderRectangle { .. } => {},
            OutputMessage::PulsingRectangle { .. } => {},
        }
    }

    fn write_commands(&mut self, commands: &Vec<OutputMessage>)
        requires
            canvas_wf(old(self)@),
            cmds_on(messages_view(commands@), old(self)@.len() as int),
        ensures
            final(self)@ == cmds_written(old(self)@, messages_view(commands@)),
            canvas_wf(final(self)@),
            final(self)@.len() == old(self)@.len(),
    {
        let ghost before = self@;
        let ghost cmds = messages_view(commands@);
        let mut i: usize = 0;
        while i < commands.len()
            invariant
                i <= commands@.len(),
                cmds == messages_view(commands@),
                cmds_on(cmds, before.len() as int),
                canvas_wf(self@),
                self@.len() == before.len(),
                self@ == cmds_written(before, cmds.take(i as int)),
            decreases commands@.len() - i,
        {
            assert(cmd_on(cmds[i as int], before.len() as int));
            self.write_command(&commands[i]);
            assert(cmds.take(i + 1).drop_last() =~= cmds.take(i as int));
            i += 1;
        }
        assert(cmds.take(i as int) =~= cmds);
    }

    fn write_texts(&mut self, messages: &Vec<RenderUtf8TextMsg>)
        requires
            canvas_wf(old(self)@),
            texts_on(texts_view(messages@), old(self)@.len() as int),
        ensures
            final(self)@ == texts_written(old(self)@, texts_view(messages@)),
            canvas_wf(final(self)@),
            final(self)@.len() == old(self)@.len(),
    {
        let ghost before = self@;
        let ghost texts = texts_view(messages@);
        let mut i: usize = 0;
        while i < messages.len()
            invariant
                i <= messages@.len(),
                texts == texts_view(messages@),
                texts_on(texts, before.len() as int),
                canvas_wf(self@),
                self@.len() == before.len(),
                self@ == texts_written(before, texts.take(i as int)),
            decreases messages@.len() - i,
        {
            let message = &messages[i];
            assert(texts[i as int] == message@);
            self.write_char_slice(message.row, message.column, message.text);
            assert(texts.take(i + 1).drop_last() =~= texts.take(i as int));
            i += 1;
        }
        assert(texts.take(i as int) =~= texts);
    }

    fn write_asciis(&mut self, messages: &Vec<RenderAsciiTextMsg>)
        requires
            canvas_wf(old(self)@),
            asciis_on(ascii_view(messages@), old(self)@.len() as int),
        ensures
            final(self)@ == asciis_written(old(self)@, ascii_view(messages@)),
            canvas_wf(final(self)@),
            final(self)@.len() == old(self)@.len(),
    {
        let ghost before = self@;
        let ghost texts = ascii_view(messages@);
        let mut i: usize = 0;
        while i < messages.len()
            invariant
                i <= messages@.len(),
                texts == ascii_view(messages@),
                asciis_on(texts, before.len() as int),
                canvas_wf(self@),
                self@.len() == before.len(),
                self@ == asciis_written(before, texts.take(i as int)),
            decreases messages@.len() - i,
        {
            let message = &messages[i];
            assert(texts[i as int] == message@);
            self.write_ascii(message.row, message.column, message.text);
            assert(texts.take(i + 1).drop_last() =~= texts.take(i as int));
            i += 1;
        }
        assert(texts.take(i as int) =~= texts);
    }

    fn write_strings(&mut self, messages: &Vec<RenderStringMsg>)
        requires
            canvas_wf(old(self)@),
            texts_on(strings_view(messages@), old(self)@.len() as int),
        ensures
            final(self)@ == texts_written(old(self)@, strings_view(messages@)),
            canvas_wf(final(self)@),
            final(self)@.len() == old(self)@.len(),
    {
        let ghost before = self@;
        let ghost texts = strings_view(messages@);
        let mut i: usize = 0;
        while i < messages.len()
            invariant
                i <= messages@.len(),
                texts == strings_view(messages@),
                texts_on(texts, before.len() as int),
                canvas_wf(self@),
                self@.len() == before.len(),
                self@ == texts_written(before, texts.take(i as int)),
            decreases messages@.len() - i,
        {
            let message = &messages[i];
            assert(texts[i as int] == message@);
            self.write_str(message.row, message.column, message.text.as_str());
            assert(texts.take(i + 1).drop_last() =~= texts.take(i as int));
            i += 1;
        }
        assert(texts.take(i as int) =~= texts);
    }
}

impl NoteCalcApp {
    /// Writes everything that is to be drawn onto a canvas.
    pub fn render_buckets_into(buckets: &RenderBuckets, canvas: &mut Canvas)
        requires
            canvas_wf(old(canvas)@),
            frame_on(buckets@, old(canvas)@.len() as int),
        ensures
            final(canvas)@ == frame_written(old(canvas)@, buckets@),
            canvas_wf(final(canvas)@),
            final(canvas)@.len() == old(canvas)@.len(),
    {
        canvas.write_commands(&buckets.custom_commands[0]);
        canvas.write_texts(&buckets.utf8_texts);
        canvas.write_asciis(&buckets.ascii_texts);
        canvas.write_texts(&buckets.numbers);
        canvas.write_texts(&buckets.units);
        canvas.write_texts(&buckets.operators);
        canvas.write_strings(&buckets.line_ref_results);
        canvas.write_texts(&buckets.variable);
        canvas.write_commands(&buckets.custom_commands[1]);
        canvas.write_commands(&buckets.custom_commands[2]);
    }
}

} // verus!
