use vstd::prelude::*;

use crate::coords::RenderPosY;

verus! {

#[derive(Clone, Copy, PartialEq, Eq, Structural, Debug)]
pub enum TextStyle {
    Normal,
    Bold,
    Underline,
    Italy,
}

#[derive(Debug)]
pub struct RenderUtf8TextMsg<'a> {
    pub text: &'a [char],
    pub row: RenderPosY,
    pub column: usize,
}

#[derive(Debug)]
pub struct RenderAsciiTextMsg<'a> {
    pub text: &'a [u8],
    pub row: RenderPosY,
    pub column: usize,
}

#[derive(Debug)]
pub struct RenderStringMsg {
    pub text: String,
    pub row: RenderPosY,
    pub column: usize,
}

/// One thing to draw, or a change of how the next things are drawn.
#[derive(Debug)]
pub enum OutputMessage<'a> {
    SetStyle(TextStyle),
    SetColor(u32),
    RenderChar(usize, usize, char),
    RenderUtf8Text(RenderUtf8TextMsg<'a>),
    RenderAsciiText(RenderAsciiTextMsg<'a>),
    RenderString(RenderStringMsg),
    RenderRectangle { x: usize, y: RenderPosY, w: usize, h: usize },
    PulsingRectangle {
        x: usize,
        y: RenderPosY,
        w: usize,
        h: usize,
        start_color: u32,
        end_color: u32,
        animation_time_ms: u64,
    },
}

/// The kinds of `OutputMessage`.
#[derive(Clone, Copy, PartialEq, Eq, Structural, Debug)]
pub enum OutputMessageCommandId {
    SetStyle,
    SetColor,
    RenderChar,
    RenderUtf8Text,
    RenderAsciiText,
    RenderString,
    RenderRectangle,
    PulsingRectangle,
}

#[derive(Clone, Copy, PartialEq, Eq, Structural, Debug)]
pub enum Layer {
    BehindText,
    Text,
    AboveText,
}

/// A text to draw and its place.
#[verifier::ext_equal]
pub struct TextCmd {
    pub text: Seq<char>,
    pub row: int,
    pub column: int,
}

/// An ASCII text to draw and its place.
#[verifier::ext_equal]
pub struct AsciiCmd {
    pub text: Seq<u8>,
    pub row: int,
    pub column: int,
}

/// The contents of an `OutputMessage`.
#[verifier::ext_equal]
pub enum Cmd {
    SetStyle(TextStyle),
    SetColor(u32),
    Char { x: int, y: int, ch: char },
    Text(TextCmd),
    Ascii(AsciiCmd),
    Str(TextCmd),
    Rect { x: int, y: int, w: int, h: int },
    Pulse { x: int, y: int, w: int, h: int, start_color: u32, end_color: u32, millis: int },
}

impl<'a> View for RenderUtf8TextMsg<'a> {
    type V = TextCmd;

    open spec fn view(&self) -> TextCmd {
        TextCmd { text: self.text@, row: self.row.0 as int, column: self.column as int }
    }
}

impl<'a> View for RenderAsciiTextMsg<'a> {
    type V = AsciiCmd;

    open spec fn view(&self) -> AsciiCmd {
        AsciiCmd { text: self.text@, row: self.row.0 as int, column: self.column as int }
    }
}

impl View for RenderStringMsg {
    type V = TextCmd;

    open spec fn view(&self) -> TextCmd {
        TextCmd { text: self.text@, row: self.row.0 as int, column: self.column as int }
    }
}

impl<'a> View for OutputMessage<'a> {
    type V = Cmd;

    open spec fn view(&self) -> Cmd {
        match *self {
            OutputMessage::SetStyle(style) => Cmd::SetStyle(style),
            OutputMessage::SetColor(color) => Cmd::SetColor(color),
            OutputMessage::RenderChar(x, y, ch) => Cmd::Char { x: x as int, y: y as int, ch },
            OutputMessage::RenderUtf8Text(m) => Cmd::Text(m@),
            OutputMessage::RenderAsciiText(m) => Cmd::Ascii(m@),
            OutputMessage::RenderString(m) => Cmd::Str(m@),
            OutputMessage::RenderRectangle { x, y, w, h } => Cmd::Rect {
                x: x as int,
                y: y.0 as int,
                w: w as int,
                h: h as int,
            },
            OutputMessage::PulsingRectangle {
                x,
                y,
                w,
                h,
                start_color,
                end_color,
                animation_time_ms,
            } => Cmd::Pulse {
                x: x as int,
                y: y.0 as int,
                w: w as int,
                h: h as int,
                start_color,
                end_color,
                millis: animation_time_ms as int,
            },
        }
    }
}

impl<'a> OutputMessage<'a> {
    pub fn command_id(&self) -> (r: OutputMessageCommandId)
        ensures
            r == (match *self {
                OutputMessage::SetStyle(_) => OutputMessageCommandId::SetStyle,
                OutputMessage::SetColor(_) => OutputMessageCommandId::SetColor,
                OutputMessage::RenderChar(_, _, _) => OutputMessageCommandId::RenderChar,
                OutputMessage::RenderUtf8Text(_) => OutputMessageCommandId::RenderUtf8Text,
                OutputMessage::RenderAsciiText(_) => OutputMessageCommandId::RenderAsciiText,
                OutputMessage::RenderString(_) => OutputMessageCommandId::RenderString,
                OutputMessage::RenderRectangle { .. } => OutputMessageCommandId::RenderRectangle,
                OutputMessage::PulsingRectangle { .. } => OutputMessageCommandId::PulsingRectangle,
            }),
    {
        match self {
            OutputMessage::SetStyle(_) => OutputMessageCommandId::SetStyle,
            OutputMessage::SetColor(_) => OutputMessageCommandId::SetColor,
            OutputMessage::RenderChar(_, _, _) => OutputMessageCommandId::RenderChar,
            OutputMessage::RenderUtf8Text(_) => OutputMessageCommandId::RenderUtf8Text,
            OutputMessage::RenderAsciiText(_) => OutputMessageCommandId::RenderAsciiText,
            OutputMessage::RenderString(_) => OutputMessageCommandId::RenderString,
            OutputMessage::RenderRectangle { .. } => OutputMessageCommandId::RenderRectangle,
            OutputMessage::PulsingRectangle { .. } => OutputMessageCommandId::PulsingRectangle,
        }
    }
}

/// Everything that is to be drawn, sorted by kind.
#[derive(Debug)]
pub struct RenderBuckets<'a> {
    pub ascii_texts: Vec<RenderAsciiTextMsg<'a>>,
    pub utf8_texts: Vec<RenderUtf8TextMsg<'a>>,
    pub numbers: Vec<RenderUtf8TextMsg<'a>>,
    pub units: Vec<RenderUtf8TextMsg<'a>>,
    pub operators: Vec<RenderUtf8TextMsg<'a>>,
    pub variable: Vec<RenderUtf8TextMsg<'a>>,
    pub line_ref_results: Vec<RenderStringMsg>,
    /// One list per layer: behind the texts, with them, above them.
    pub custom_commands: [Vec<OutputMessage<'a>>; 3],
    pub clear_commands: Vec<OutputMessage<'a>>,
}

/// The contents of the buckets.
#[verifier::ext_equal]
pub struct Frame {
    pub ascii_texts: Seq<AsciiCmd>,
    pub utf8_texts: Seq<TextCmd>,
    pub numbers: Seq<TextCmd>,
    pub units: Seq<TextCmd>,
    pub operators: Seq<TextCmd>,
    pub variable: Seq<TextCmd>,
    pub line_ref_results: Seq<TextCmd>,
    pub behind_text: Seq<Cmd>,
    pub text: Seq<Cmd>,
    pub above_text: Seq<Cmd>,
    pub clear_commands: Seq<Cmd>,
}

impl Frame {
    pub open spec fn empty() -> Frame {
        Frame {
            ascii_texts: Seq::empty(),
            utf8_texts: Seq::empty(),
            numbers: Seq::empty(),
            units: Seq::empty(),
            operators: Seq::empty(),
            variable: Seq::empty(),
            line_ref_results: Seq::empty(),
            behind_text: Seq::empty(),
            text: Seq::empty(),
            above_text: Seq::empty(),
            clear_commands: Seq::empty(),
        }
    }

    /// With one more command on a layer.
    pub open spec fn on(self, layer: Layer, cmd: Cmd) -> Frame {
        match layer {
            Layer::BehindText => Frame { behind_text: self.behind_text.push(cmd), ..self },
            Layer::Text => Frame { text: self.text.push(cmd), ..self },
            Layer::AboveText => Frame { above_text: self.above_text.push(cmd), ..self },
        }
    }

    pub open spec fn set_color(self, layer: Layer, color: u32) -> Frame {
        self.on(layer, Cmd::SetColor(color))
    }

    pub open spec fn draw_rect(self, layer: Layer, x: int, y: int, w: int, h: int) -> Frame {
        self.on(layer, Cmd::Rect { x, y, w, h })
    }

    pub open spec fn draw_char(self, layer: Layer, x: int, y: int, ch: char) -> Frame {
        self.on(layer, Cmd::Char { x, y, ch })
    }

    pub open spec fn draw_text(self, layer: Layer, x: int, y: int, text: Seq<char>) -> Frame {
        self.on(layer, Cmd::Text(TextCmd { text, row: y, column: x }))
    }

    pub open spec fn draw_string(self, layer: Layer, x: int, y: int, text: Seq<char>) -> Frame {
        self.on(layer, Cmd::Str(TextCmd { text, row: y, column: x }))
    }

    pub open spec fn operator(self, text: Seq<char>, row: int, column: int) -> Frame {
        Frame { operators: self.operators.push(TextCmd { text, row, column }), ..self }
    }

    pub open spec fn line_ref_result(self, text: Seq<char>, row: int, column: int) -> Frame {
        Frame {
            line_ref_results: self.line_ref_results.push(TextCmd { text, row, column }),
            ..self
        }
    }

    pub open spec fn utf8_text(self, text: Seq<char>, row: int, column: int) -> Frame {
        Frame { utf8_texts: self.utf8_texts.push(TextCmd { text, row, column }), ..self }
    }

    pub open spec fn ascii_text(self, text: Seq<u8>, row: int, column: int) -> Frame {
        Frame { ascii_texts: self.ascii_texts.push(AsciiCmd { text, row, column }), ..self }
    }

    pub open spec fn number(self, text: Seq<char>, row: int, column: int) -> Frame {
        Frame { numbers: self.numbers.push(TextCmd { text, row, column }), ..self }
    }

    pub open spec fn unit(self, text: Seq<char>, row: int, column: int) -> Frame {
        Frame { units: self.units.push(TextCmd { text, row, column }), ..self }
    }

    pub open spec fn variable_name(self, text: Seq<char>, row: int, column: int) -> Frame {
        Frame { variable: self.variable.push(TextCmd { text, row, column }), ..self }
    }

    pub open spec fn clear_cmd(self, cmd: Cmd) -> Frame {
        Frame { clear_commands: self.clear_commands.push(cmd), ..self }
    }

    /// With the characters of a line, drawn one by one.
    pub open spec fn draw_chars(self, layer: Layer, x: int, y: int, line: Seq<char>) -> Frame
        decreases line.len(),
    {
        if line.len() == 0 {
            self
        } else {
            self.draw_chars(layer, x, y, line.drop_last()).draw_char(
                layer,
                x + line.len() - 1,
                y,
                line.last(),
            )
        }
    }

    pub open spec fn with_operators(self, texts: Seq<TextCmd>) -> Frame {
        Frame { operators: self.operators + texts, ..self }
    }
}

pub open spec fn texts_view(v: Seq<RenderUtf8TextMsg>) -> Seq<TextCmd> {
    Seq::new(v.len(), |i: int| v[i]@)
}

pub open spec fn ascii_view(v: Seq<RenderAsciiTextMsg>) -> Seq<AsciiCmd> {
    Seq::new(v.len(), |i: int| v[i]@)
}

pub open spec fn strings_view(v: Seq<RenderStringMsg>) -> Seq<TextCmd> {
    Seq::new(v.len(), |i: int| v[i]@)
}

pub open spec fn messages_view(v: Seq<OutputMessage>) -> Seq<Cmd> {
    Seq::new(v.len(), |i: int| v[i]@)
}

impl<'a> View for RenderBuckets<'a> {
    type V = Frame;

    open spec fn view(&self) -> Frame {
        Frame {
            ascii_texts: ascii_view(self.ascii_texts@),
            utf8_texts: texts_view(self.utf8_texts@),
            numbers: texts_view(self.numbers@),
            units: texts_view(self.units@),
            operators: texts_view(self.operators@),
            variable: texts_view(self.variable@),
            line_ref_results: strings_view(self.line_ref_results@),
            behind_text: messages_view(self.custom_commands@[0]@),
            text: messages_view(self.custom_commands@[1]@),
            above_text: messages_view(self.custom_commands@[2]@),
            clear_commands: messages_view(self.clear_commands@),
        }
    }
}

impl<'a> RenderBuckets<'a> {
    pub fn new() -> (r: RenderBuckets<'a>)
        ensures
            r@ == Frame::empty(),
    {
        let r = RenderBuckets {
            ascii_texts: Vec::with_capacity(128),
            utf8_texts: Vec::with_capacity(128),
            custom_commands: [
                Vec::with_capacity(128),
                Vec::with_capacity(128),
                Vec::with_capacity(128),
            ],
            numbers: Vec::with_capacity(32),
            units: Vec::with_capacity(32),
            operators: Vec::with_capacity(32),
            variable: Vec::with_capacity(32),
            line_ref_results: Vec::with_capacity(32),
            clear_commands: Vec::with_capacity(8),
        };
        r
    }

    pub fn clear(&mut self)
        ensures
            final(self)@ == Frame::empty(),
    {
        self.ascii_texts.clear();
        self.utf8_texts.clear();
        self.custom_commands[0].clear();
        self.custom_commands[1].clear();
        self.custom_commands[2].clear();
        self.numbers.clear();
        self.units.clear();
        self.operators.clear();
        self.variable.clear();
        self.line_ref_results.clear();
        self.clear_commands.clear();
    }

    /// Adds a command to a layer.
    pub fn push_command(&mut self, layer: Layer, message: OutputMessage<'a>)
        ensures
            final(self)@ == old(self)@.on(layer, message@),
    {
        let index: usize = match layer {
            Layer::BehindText => 0,
            Layer::Text => 1,
            Layer::AboveText => 2,
        };
        self.custom_commands[index].push(message);
    }

    pub fn set_color(&mut self, layer: Layer, color: u32)
        ensures
            final(self)@ == old(self)@.set_color(layer, color),
    {
        self.push_command(layer, OutputMessage::SetColor(color));
    }

    pub fn draw_rect(&mut self, layer: Layer, x: usize, y: RenderPosY, w: usize, h: usize)
        ensures
            final(self)@ == old(self)@.draw_rect(
                layer,
                x as int,
                y.0 as int,
                w as int,
                h as int,
            ),
    {
        self.push_command(layer, OutputMessage::RenderRectangle { x, y, w, h });
    }

    pub fn draw_char(&mut self, layer: Layer, x: usize, y: RenderPosY, ch: char)
        ensures
            final(self)@ == old(self)@.draw_char(layer, x as int, y.0 as int, ch),
    {
        self.push_command(layer, OutputMessage::RenderChar(x, y.as_usize(), ch));
    }

    pub fn draw_text(&mut self, layer: Layer, x: usize, y: RenderPosY, text: &'a [char])
        ensures
            final(self)@ == old(self)@.draw_text(layer, x as int, y.0 as int, text@),
    {
        self.push_command(
            layer,
            OutputMessage::RenderUtf8Text(RenderUtf8TextMsg { text, row: y, column: x }),
        );
    }

    pub fn draw_ascii_text(&mut self, layer: Layer, x: usize, y: RenderPosY, text: &'a [u8])
        ensures
            final(self)@ == old(self)@.on(
                layer,
                Cmd::Ascii(AsciiCmd { text: text@, row: y.0 as int, column: x as int }),
            ),
    {
        self.push_command(
            layer,
            OutputMessage::RenderAsciiText(RenderAsciiTextMsg { text, row: y, column: x }),
        );
    }

    pub fn draw_string(&mut self, layer: Layer, x: usize, y: RenderPosY, text: String)
        ensures
            final(self)@ == old(self)@.draw_string(layer, x as int, y.0 as int, text@),
    {
        self.push_command(
            layer,
            OutputMessage::RenderString(RenderStringMsg { text, row: y, column: x }),
        );
    }

    pub fn push_operator(&mut self, text: &'a [char], row: RenderPosY, column: usize)
        ensures
            final(self)@ == old(self)@.operator(text@, row.0 as int, column as int),
    {
        self.operators.push(RenderUtf8TextMsg { text, row, column });
    }

    pub fn push_utf8_text(&mut self, text: &'a [char], row: RenderPosY, column: usize)
        ensures
            final(self)@ == old(self)@.utf8_text(text@, row.0 as int, column as int),
    {
        self.utf8_texts.push(RenderUtf8TextMsg { text, row, column });
    }

    pub fn push_number(&mut self, text: &'a [char], row: RenderPosY, column: usize)
        ensures
            final(self)@ == old(self)@.number(text@, row.0 as int, column as int),
    {
        self.numbers.push(RenderUtf8TextMsg { text, row, column });
    }

    pub fn push_unit(&mut self, text: &'a [char], row: RenderPosY, column: usize)
        ensures
            final(self)@ == old(self)@.unit(text@, row.0 as int, column as int),
    {
        self.units.push(RenderUtf8TextMsg { text, row, column });
    }

    pub fn push_variable(&mut self, text: &'a [char], row: RenderPosY, column: usize)
        ensures
            final(self)@ == old(self)@.variable_name(text@, row.0 as int, column as int),
    {
        self.variable.push(RenderUtf8TextMsg { text, row, column });
    }

    pub fn push_ascii_text(&mut self, text: &'a [u8], row: RenderPosY, column: usize)
        ensures
            final(self)@ == old(self)@.ascii_text(text@, row.0 as int, column as int),
    {
        self.ascii_texts.push(RenderAsciiTextMsg { text, row, column });
    }

    pub fn push_line_ref_result(&mut self, text: String, row: RenderPosY, column: usize)
        ensures
            final(self)@ == old(self)@.line_ref_result(text@, row.0 as int, column as int),
    {
        self.line_ref_results.push(RenderStringMsg { text, row, column });
    }

    pub fn push_clear_command(&mut self, message: OutputMessage<'a>)
        ensures
            final(self)@ == old(self)@.clear_cmd(message@),
    {
        self.clear_commands.push(message);
    }
}

} // verus!
