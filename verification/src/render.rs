//! The render sink: frames in, terminal operations out. The sink decides
//! what is written, in which colour and at what pace; carrying the
//! operations out is left to the caller.

use crate::frame::{contribution, frames_view, reply_of, FrameView, StreamFrame};
use crate::text::chars_of;
use vstd::prelude::*;
use vstd::string::StringExecFns;

verus! {

/// Pause after each character of a delta, in milliseconds, unless the caller
/// chooses another pace.
pub const DEFAULT_CHAR_DELAY_MS: u64 = 10;

/// The colours that the sink uses.
#[derive(Debug, Clone, Copy, PartialEq, Eq)]
pub enum Color {
    Green,
    Blue,
    Red,
    Yellow,
    Cyan,
}

/// One terminal operation.
#[derive(Debug, Clone, Copy, PartialEq, Eq)]
pub enum RenderOp {
    /// Switch the foreground colour.
    SetForeground(Color),
    /// Write one character.
    Print(char),
    /// Switch to bold face.
    Bold,
    /// Back to the terminal's default colours and face.
    ResetColor,
    /// Move the cursor to the first column of its row.
    MoveToColumnStart,
    /// Move the cursor up by so many rows.
    MoveUp(u16),
    /// Erase the row that the cursor is on.
    ClearLine,
    /// Push what was written so far out to the terminal.
    Flush,
    /// Wait for so many milliseconds.
    Pause(u64),
}

/// Colour of answer text.
pub open spec fn text_color() -> Color {
    Color::Green
}

/// Colour of reasoning text.
pub open spec fn reasoning_color() -> Color {
    Color::Blue
}

/// Colour of diagnostics and of raw fallback text.
pub open spec fn diagnostic_color() -> Color {
    Color::Red
}

/// Colour of notices such as the interruption marker.
pub open spec fn notice_color() -> Color {
    Color::Yellow
}

/// Writing one character: a line feed resets the colour, moves down and
/// returns to the first column; any other character is written in `color`
/// and the colour is reset at once.
pub open spec fn ops_for_char(c: char, color: Color) -> Seq<RenderOp> {
    if c == '\n' {
        seq![RenderOp::ResetColor, RenderOp::Print('\n'), RenderOp::MoveToColumnStart]
    } else {
        seq![RenderOp::SetForeground(color), RenderOp::Print(c), RenderOp::ResetColor]
    }
}

/// Writing one character of a delta: the character, a flush, a pause.
pub open spec fn ops_for_typed_char(c: char, color: Color, delay_ms: u64) -> Seq<RenderOp> {
    ops_for_char(c, color) + seq![RenderOp::Flush, RenderOp::Pause(delay_ms)]
}

/// Writing `text` in one go.
pub open spec fn ops_for_text(text: Seq<char>, color: Color) -> Seq<RenderOp>
    decreases text.len(),
{
    if text.len() == 0 {
        Seq::empty()
    } else {
        ops_for_text(text.drop_last(), color) + ops_for_char(text.last(), color)
    }
}

/// Writing `text` character by character, with a pause after each.
pub open spec fn ops_for_typed_text(text: Seq<char>, color: Color, delay_ms: u64) -> Seq<
    RenderOp,
>
    decreases text.len(),
{
    if text.len() == 0 {
        Seq::empty()
    } else {
        ops_for_typed_text(text.drop_last(), color, delay_ms) + ops_for_typed_char(
            text.last(),
            color,
            delay_ms,
        )
    }
}

/// Writing one character as it stands.
pub open spec fn print_op(c: char) -> RenderOp {
    RenderOp::Print(c)
}

/// Writing `text` as it stands, one character after another.
pub open spec fn print_ops(text: Seq<char>) -> Seq<RenderOp> {
    Seq::new(text.len(), |i: int| print_op(text[i]))
}

/// Writing `text` as it stands in `color`, bold or not, then a reset.
pub open spec fn styled_ops(text: Seq<char>, color: Color, bold: bool) -> Seq<RenderOp> {
    let face = if bold {
        seq![RenderOp::SetForeground(color), RenderOp::Bold]
    } else {
        seq![RenderOp::SetForeground(color)]
    };
    face + print_ops(text) + seq![RenderOp::ResetColor]
}

/// Writing a notice or a diagnostic: the text in one go, then a flush.
pub open spec fn ops_for_notice(text: Seq<char>, color: Color) -> Seq<RenderOp> {
    ops_for_text(text, color).push(RenderOp::Flush)
}

/// The text shown for a payload that could not be read.
pub open spec fn diagnostic_text(raw: Seq<char>, cause: Seq<char>) -> Seq<char> {
    "解析响应失败: "@ + cause + "\n原始数据: "@ + raw
}

/// The operations that show one frame.
pub open spec fn ops_of_frame(frame: FrameView, delay_ms: u64) -> Seq<RenderOp> {
    match frame {
        FrameView::TextDelta(t) => ops_for_typed_text(t, text_color(), delay_ms),
        FrameView::ReasoningDelta(t) => ops_for_typed_text(t, reasoning_color(), delay_ms),
        FrameView::RawFallback(t) => ops_for_notice(t, diagnostic_color()),
        FrameView::DecodeError { raw, cause } => ops_for_notice(
            diagnostic_text(raw, cause),
            diagnostic_color(),
        ),
        FrameView::Done => Seq::empty(),
    }
}

/// The operations that show a run of frames, in order.
pub open spec fn ops_of_frames(frames: Seq<FrameView>, delay_ms: u64) -> Seq<RenderOp>
    decreases frames.len(),
{
    if frames.len() == 0 {
        Seq::empty()
    } else {
        ops_of_frames(frames.drop_last(), delay_ms) + ops_of_frame(frames.last(), delay_ms)
    }
}

/// The marker shown when the user interrupts a reply.
pub open spec fn interrupted_marker() -> Seq<char> {
    "\n[interrupted]\n"@
}

/// The operations that show the interruption marker.
pub open spec fn interrupted_ops() -> Seq<RenderOp> {
    ops_for_notice(interrupted_marker(), notice_color())
}

/// The operations that close a turn: one line break.
pub open spec fn end_of_turn_ops() -> Seq<RenderOp> {
    ops_for_notice(seq!['\n'], text_color())
}

/// How many characters that were typed out make a count of `before` into,
/// without passing the largest `u64`.
pub open spec fn counted(before: u64, more: nat) -> u64 {
    if before + more > u64::MAX {
        u64::MAX
    } else {
        (before + more) as u64
    }
}

/// What one frame adds to the count of typed characters.
pub open spec fn typed_chars(frame: FrameView) -> nat {
    match frame {
        FrameView::TextDelta(t) => t.len(),
        FrameView::ReasoningDelta(t) => t.len(),
        _ => 0,
    }
}

fn push_char_ops(ops: &mut Vec<RenderOp>, c: char, color: Color)
    ensures
        final(ops)@ == old(ops)@ + ops_for_char(c, color),
{
    if c == '\n' {
        ops.push(RenderOp::ResetColor);
        ops.push(RenderOp::Print('\n'));
        ops.push(RenderOp::MoveToColumnStart);
    } else {
        ops.push(RenderOp::SetForeground(color));
        ops.push(RenderOp::Print(c));
        ops.push(RenderOp::ResetColor);
    }
    assert(ops@ =~= old(ops)@ + ops_for_char(c, color));
}

/// Appends the operations that write `text` as it stands.
pub fn push_print(ops: &mut Vec<RenderOp>, text: &str)
    ensures
        final(ops)@ == old(ops)@ + print_ops(text@),
{
    let chars = chars_of(text);
    let ghost before = ops@;
    let mut i: usize = 0;
    proof {
        assert(ops@ =~= before + print_ops(chars@.take(0)));
    }
    while i < chars.len()
        invariant
            i <= chars@.len(),
            ops@ == before + print_ops(chars@.take(i as int)),
        decreases chars@.len() - i,
    {
        let ghost so_far = ops@;
        ops.push(RenderOp::Print(chars[i]));
        proof {
            let shorter = print_ops(chars@.take(i as int));
            let longer = print_ops(chars@.take(i + 1));
            assert(so_far == before + shorter);
            assert(ops@ == so_far.push(print_op(chars@[i as int])));
            let next = shorter.push(print_op(chars@[i as int]));
            assert forall|j: int| 0 <= j < longer.len() implies #[trigger] longer[j] == next[j] by {
                assert(longer[j] == print_op(chars@.take(i + 1)[j]));
                if j < i {
                    assert(shorter[j] == print_op(chars@.take(i as int)[j]));
                }
            }
            assert(longer =~= next);
            assert(ops@ =~= before + longer);
        }
        i += 1;
    }
    proof {
        assert(chars@.take(i as int) =~= chars@);
    }
}

/// Appends the operations that write `text` as it stands in `color`, bold
/// or not, and reset the style.
pub fn push_styled(ops: &mut Vec<RenderOp>, text: &str, color: Color, bold: bool)
    ensures
        final(ops)@ == old(ops)@ + styled_ops(text@, color, bold),
{
    let ghost before = ops@;
    ops.push(RenderOp::SetForeground(color));
    if bold {
        ops.push(RenderOp::Bold);
    }
    push_print(ops, text);
    ops.push(RenderOp::ResetColor);
    proof {
        assert(ops@ =~= before + styled_ops(text@, color, bold));
    }
}

/// Appends the operations that write `text` in one go, then flush.
pub fn push_notice(ops: &mut Vec<RenderOp>, text: &str, color: Color)
    ensures
        final(ops)@ == old(ops)@ + ops_for_notice(text@, color),
{
    let chars = chars_of(text);
    let ghost before = ops@;
    let mut i: usize = 0;
    proof {
        assert(chars@.take(0) =~= Seq::<char>::empty());
        assert(ops@ =~= before + ops_for_text(chars@.take(0), color));
    }
    while i < chars.len()
        invariant
            i <= chars@.len(),
            ops@ == before + ops_for_text(chars@.take(i as int), color),
        decreases chars@.len() - i,
    {
        proof {
            assert(chars@.take(i + 1).drop_last() =~= chars@.take(i as int));
            assert(chars@.take(i + 1).last() == chars@[i as int]);
            assert(before + ops_for_text(chars@.take(i as int), color) + ops_for_char(
                chars@[i as int],
                color,
            ) =~= before + ops_for_text(chars@.take(i + 1), color));
        }
        push_char_ops(ops, chars[i], color);
        i += 1;
    }
    ops.push(RenderOp::Flush);
    proof {
        assert(chars@.take(i as int) =~= chars@);
        assert(ops@ =~= before + ops_for_notice(text@, color));
    }
}

/// Appends the operations that type `text` out, pausing after each
/// character.
pub fn push_typed(ops: &mut Vec<RenderOp>, text: &str, color: Color, delay_ms: u64) -> (n: usize)
    ensures
        final(ops)@ == old(ops)@ + ops_for_typed_text(text@, color, delay_ms),
        n == text@.len(),
{
    let chars = chars_of(text);
    let ghost before = ops@;
    let mut i: usize = 0;
    proof {
        assert(chars@.take(0) =~= Seq::<char>::empty());
        assert(ops@ =~= before + ops_for_typed_text(chars@.take(0), color, delay_ms));
    }
    while i < chars.len()
        invariant
            i <= chars@.len(),
            ops@ == before + ops_for_typed_text(chars@.take(i as int), color, delay_ms),
        decreases chars@.len() - i,
    {
        let ghost so_far = ops@;
        push_char_ops(ops, chars[i], color);
        ops.push(RenderOp::Flush);
        ops.push(RenderOp::Pause(delay_ms));
        proof {
            assert(chars@.take(i + 1).drop_last() =~= chars@.take(i as int));
            assert(chars@.take(i + 1).last() == chars@[i as int]);
            assert(ops@ =~= so_far + ops_for_typed_char(chars@[i as int], color, delay_ms));
            assert(ops@ =~= before + ops_for_typed_text(chars@.take(i + 1), color, delay_ms));
        }
        i += 1;
    }
    proof {
        assert(chars@.take(i as int) =~= chars@);
    }
    chars.len()
}

/// The text shown for a payload that could not be read.
pub fn diagnostic_message(raw: &str, cause: &str) -> (out: String)
    ensures
        out@ == diagnostic_text(raw@, cause@),
{
    let mut out = "解析响应失败: ".to_owned();
    out.append(cause);
    out.append("\n原始数据: ");
    out.append(raw);
    out
}

/// Mathematical model of a [`RenderSink`].
pub ghost struct SinkView {
    /// The reply accumulated so far.
    pub reply: Seq<char>,
    /// Pause after each typed character, in milliseconds.
    pub delay_ms: u64,
    /// Answer-text frames seen so far (saturating).
    pub text_frames: u64,
    /// Characters typed out so far (saturating).
    pub typed: u64,
}

/// The sink's state after one more frame.
pub open spec fn sink_after(sink: SinkView, frame: FrameView) -> SinkView {
    SinkView {
        reply: sink.reply + contribution(frame),
        delay_ms: sink.delay_ms,
        text_frames: counted(
            sink.text_frames,
            if frame is TextDelta {
                1
            } else {
                0
            },
        ),
        typed: counted(sink.typed, typed_chars(frame)),
    }
}

/// The sink's state after a run of frames.
pub open spec fn sink_after_all(sink: SinkView, frames: Seq<FrameView>) -> SinkView
    decreases frames.len(),
{
    if frames.len() == 0 {
        sink
    } else {
        sink_after(sink_after_all(sink, frames.drop_last()), frames.last())
    }
}

/// A run of frames adds its reply to the sink's and leaves the pace alone.
pub proof fn lemma_sink_after_all(sink: SinkView, frames: Seq<FrameView>)
    ensures
        sink_after_all(sink, frames).reply == sink.reply + reply_of(frames),
        sink_after_all(sink, frames).delay_ms == sink.delay_ms,
    decreases frames.len(),
{
    if frames.len() == 0 {
        assert(sink.reply + reply_of(frames) =~= sink.reply);
    } else {
        lemma_sink_after_all(sink, frames.drop_last());
        assert(sink_after_all(sink, frames).reply =~= sink.reply + reply_of(frames));
    }
}

/// Turns frames into terminal operations and accumulates the reply.
pub struct RenderSink {
    reply: String,
    delay_ms: u64,
    text_frames: u64,
    typed: u64,
}

impl View for RenderSink {
    type V = SinkView;

    closed spec fn view(&self) -> SinkView {
        SinkView {
            reply: self.reply@,
            delay_ms: self.delay_ms,
            text_frames: self.text_frames,
            typed: self.typed,
        }
    }
}

impl RenderSink {
    /// A sink with an empty reply that pauses `delay_ms` milliseconds after
    /// each typed character.
    pub fn new(delay_ms: u64) -> (out: RenderSink)
        ensures
            out@ == (SinkView { reply: Seq::empty(), delay_ms, text_frames: 0, typed: 0 }),
    {
        RenderSink { reply: String::new(), delay_ms, text_frames: 0, typed: 0 }
    }

    /// The reply accumulated so far.
    pub fn reply(&self) -> (out: &str)
        ensures
            out@ == self@.reply,
    {
        self.reply.as_str()
    }

    /// The reply accumulated so far, by value.
    pub fn into_reply(self) -> (out: String)
        ensures
            out@ == self@.reply,
    {
        self.reply
    }

    /// Pause after each typed character, in milliseconds.
    pub fn delay_ms(&self) -> (out: u64)
        ensures
            out == self@.delay_ms,
    {
        self.delay_ms
    }

    /// Answer-text frames seen so far.
    pub fn text_frames(&self) -> (out: u64)
        ensures
            out == self@.text_frames,
    {
        self.text_frames
    }

    /// Characters typed out so far.
    pub fn typed_chars(&self) -> (out: u64)
        ensures
            out == self@.typed,
    {
        self.typed
    }

    /// Takes one frame: appends the operations that show it to `ops` and
    /// adds its contribution to the reply.
    pub fn consume(&mut self, frame: &StreamFrame, ops: &mut Vec<RenderOp>)
        ensures
            final(ops)@ == old(ops)@ + ops_of_frame(frame@, old(self)@.delay_ms),
            final(self)@ == sink_after(old(self)@, frame@),
    {
        match frame {
            StreamFrame::TextDelta(t) => {
                let n = push_typed(ops, t.as_str(), Color::Green, self.delay_ms);
                self.reply.append(t.as_str());
                self.text_frames = self.text_frames.saturating_add(1);
                self.typed = self.typed.saturating_add(n as u64);
            },
            StreamFrame::ReasoningDelta(t) => {
                let n = push_typed(ops, t.as_str(), Color::Blue, self.delay_ms);
                self.typed = self.typed.saturating_add(n as u64);
                assert(self.reply@ + Seq::<char>::empty() =~= self.reply@);
            },
            StreamFrame::RawFallback(t) => {
                push_notice(ops, t.as_str(), Color::Red);
                self.reply.append(t.as_str());
            },
            StreamFrame::DecodeError { raw, cause } => {
                let message = diagnostic_message(raw.as_str(), cause.as_str());
                push_notice(ops, message.as_str(), Color::Red);
                assert(self.reply@ + Seq::<char>::empty() =~= self.reply@);
            },
            StreamFrame::Done => {
                assert(self.reply@ + Seq::<char>::empty() =~= self.reply@);
                assert(ops@ + Seq::<RenderOp>::empty() =~= ops@);
            },
        }
    }

    /// Takes a run of frames, in order.
    pub fn consume_all(&mut self, frames: &Vec<StreamFrame>, ops: &mut Vec<RenderOp>)
        ensures
            final(ops)@ == old(ops)@ + ops_of_frames(frames_view(frames@), old(self)@.delay_ms),
            final(self)@ == sink_after_all(old(self)@, frames_view(frames@)),
    {
        let ghost all = frames_view(frames@);
        let ghost before = ops@;
        let ghost start = self@;
        let mut i: usize = 0;
        proof {
            assert(all.take(0) =~= Seq::<FrameView>::empty());
            assert(before + ops_of_frames(all.take(0), start.delay_ms) =~= before);
        }
        while i < frames.len()
            invariant
                i <= frames@.len(),
                all == frames_view(frames@),
                ops@ == before + ops_of_frames(all.take(i as int), start.delay_ms),
                self@ == sink_after_all(start, all.take(i as int)),
            decreases frames@.len() - i,
        {
            proof {
                assert(all.take(i + 1).drop_last() =~= all.take(i as int));
                assert(all.take(i + 1).last() == frames@[i as int]@);
                lemma_sink_after_all(start, all.take(i as int));
            }
            let ghost so_far = ops@;
            self.consume(&frames[i], ops);
            proof {
                assert(ops@ =~= before + ops_of_frames(all.take(i + 1), start.delay_ms));
            }
            i += 1;
        }
        proof {
            assert(all.take(i as int) =~= all);
        }
    }
}

} // verus!
