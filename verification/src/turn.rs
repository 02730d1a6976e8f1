//! One streamed reply as a state machine: the caller reports each chunk (with
//! the answer of the cancellation check made before it) and the end of the
//! stream, and carries out the terminal operations that come back.

use crate::decoder::{
    frames_of_chunks, frames_of_lines, frames_of_stream, lemma_chunked_decoding, StreamDecoder,
};
use crate::frame::{lemma_reply_of_concat, reply_of, FrameView};
use crate::lines::{
    complete_lines, final_lines, lemma_remainder_newline_free, newline_free, remainder,
};
use crate::render::{
    end_of_turn_ops, interrupted_ops, lemma_sink_after_all, ops_of_frames, push_notice,
    sink_after_all, Color, RenderOp, RenderSink, SinkView,
};
use vstd::prelude::*;

verus! {

/// Where a streamed reply stands.
#[derive(Debug, Clone, Copy, PartialEq, Eq)]
pub enum TurnPhase {
    /// Chunks are still expected.
    Streaming,
    /// The user interrupted the reply.
    Interrupted,
    /// The stream ended.
    Finished,
}

/// Mathematical model of a [`Turn`].
pub ghost struct TurnView {
    /// Bytes received after the last line feed.
    pub pending: Seq<u8>,
    /// The render sink, with the reply accumulated so far.
    pub sink: SinkView,
    pub phase: TurnPhase,
}

/// A turn that has received nothing yet.
pub open spec fn fresh_turn(delay_ms: u64) -> TurnView {
    TurnView {
        pending: Seq::empty(),
        sink: SinkView { reply: Seq::empty(), delay_ms, text_frames: 0, typed: 0 },
        phase: TurnPhase::Streaming,
    }
}

/// The frames that a chunk completes.
pub open spec fn chunk_frames(turn: TurnView, chunk: Seq<u8>) -> Seq<FrameView> {
    frames_of_lines(complete_lines(turn.pending + chunk))
}

/// The frames that the end of the stream completes.
pub open spec fn final_frames(turn: TurnView) -> Seq<FrameView> {
    frames_of_lines(final_lines(turn.pending))
}

/// The turn after a chunk has arrived. A turn that is over stays as it is.
/// A cancellation ends the turn at once: the chunk is not looked at and what
/// was pending is dropped. Otherwise the chunk is decoded and rendered.
pub open spec fn after_chunk(turn: TurnView, cancel: bool, chunk: Seq<u8>) -> TurnView {
    if turn.phase != TurnPhase::Streaming {
        turn
    } else if cancel {
        TurnView { pending: Seq::empty(), sink: turn.sink, phase: TurnPhase::Interrupted }
    } else {
        TurnView {
            pending: remainder(turn.pending + chunk),
            sink: sink_after_all(turn.sink, chunk_frames(turn, chunk)),
            phase: TurnPhase::Streaming,
        }
    }
}

/// The terminal operations that a chunk's arrival calls for.
pub open spec fn chunk_ops(turn: TurnView, cancel: bool, chunk: Seq<u8>) -> Seq<RenderOp> {
    if turn.phase != TurnPhase::Streaming {
        Seq::empty()
    } else if cancel {
        interrupted_ops() + end_of_turn_ops()
    } else {
        ops_of_frames(chunk_frames(turn, chunk), turn.sink.delay_ms)
    }
}

/// The turn after the stream has ended.
pub open spec fn after_end(turn: TurnView) -> TurnView {
    if turn.phase != TurnPhase::Streaming {
        turn
    } else {
        TurnView {
            pending: Seq::empty(),
            sink: sink_after_all(turn.sink, final_frames(turn)),
            phase: TurnPhase::Finished,
        }
    }
}

/// The terminal operations that the end of the stream calls for.
pub open spec fn end_ops(turn: TurnView) -> Seq<RenderOp> {
    if turn.phase != TurnPhase::Streaming {
        Seq::empty()
    } else {
        ops_of_frames(final_frames(turn), turn.sink.delay_ms) + end_of_turn_ops()
    }
}

/// The turn after a run of chunks, none of them cancelled.
pub open spec fn after_chunks(turn: TurnView, chunks: Seq<Seq<u8>>) -> TurnView
    decreases chunks.len(),
{
    if chunks.len() == 0 {
        turn
    } else {
        after_chunks(after_chunk(turn, false, chunks[0]), chunks.drop_first())
    }
}

/// A streaming turn that receives `chunks` and then the end of the stream
/// has added to its reply the reply of the frames of the whole body. The
/// chunk boundaries play no part.
pub proof fn lemma_turn_reply(turn: TurnView, chunks: Seq<Seq<u8>>)
    requires
        turn.phase == TurnPhase::Streaming,
        newline_free(turn.pending),
    ensures
        after_end(after_chunks(turn, chunks)).phase == TurnPhase::Finished,
        after_end(after_chunks(turn, chunks)).sink.reply == turn.sink.reply + reply_of(
            frames_of_stream(turn.pending + chunks.flatten()),
        ),
    decreases chunks.len(),
{
    lemma_chunked_decoding(turn.pending, chunks);
    if chunks.len() == 0 {
        lemma_sink_after_all(turn.sink, final_frames(turn));
    } else {
        let next = after_chunk(turn, false, chunks[0]);
        let rest = chunks.drop_first();
        lemma_remainder_newline_free(turn.pending + chunks[0]);
        lemma_turn_reply(next, rest);
        lemma_chunked_decoding(next.pending, rest);
        lemma_sink_after_all(turn.sink, chunk_frames(turn, chunks[0]));
        lemma_reply_of_concat(chunk_frames(turn, chunks[0]), frames_of_chunks(next.pending, rest));
        assert(after_end(after_chunks(turn, chunks)).sink.reply =~= turn.sink.reply + reply_of(
            frames_of_stream(turn.pending + chunks.flatten()),
        ));
    }
}

/// Two ways of cutting the same body into chunks leave a fresh turn with the
/// same reply.
pub proof fn lemma_reply_ignores_chunking(
    delay_ms: u64,
    first: Seq<Seq<u8>>,
    second: Seq<Seq<u8>>,
)
    requires
        first.flatten() == second.flatten(),
    ensures
        after_end(after_chunks(fresh_turn(delay_ms), first)).sink.reply == after_end(
            after_chunks(fresh_turn(delay_ms), second),
        ).sink.reply,
{
    lemma_turn_reply(fresh_turn(delay_ms), first);
    lemma_turn_reply(fresh_turn(delay_ms), second);
}

/// A cancellation signalled when the first chunk arrives leaves the reply
/// empty, shows the interruption marker and ends the turn for good.
pub proof fn lemma_cancel_before_first_chunk(delay_ms: u64, chunk: Seq<u8>, later: Seq<u8>)
    ensures
        after_chunk(fresh_turn(delay_ms), true, chunk).sink.reply == Seq::<char>::empty(),
        after_chunk(fresh_turn(delay_ms), true, chunk).phase == TurnPhase::Interrupted,
        chunk_ops(fresh_turn(delay_ms), true, chunk) == interrupted_ops() + end_of_turn_ops(),
        after_chunk(after_chunk(fresh_turn(delay_ms), true, chunk), false, later) == after_chunk(
            fresh_turn(delay_ms),
            true,
            chunk,
        ),
        after_end(after_chunk(fresh_turn(delay_ms), true, chunk)) == after_chunk(
            fresh_turn(delay_ms),
            true,
            chunk,
        ),
{
}

/// A turn that is over stays as it is and calls for nothing more: the run
/// of frames is finite and cannot be started again.
pub proof fn lemma_finished_turn_is_final(turn: TurnView, cancel: bool, chunk: Seq<u8>)
    requires
        turn.phase != TurnPhase::Streaming,
    ensures
        after_chunk(turn, cancel, chunk) == turn,
        chunk_ops(turn, cancel, chunk) == Seq::<RenderOp>::empty(),
        after_end(turn) == turn,
        end_ops(turn) == Seq::<RenderOp>::empty(),
        after_end(after_end(turn)) == after_end(turn),
{
}

/// One streamed reply.
pub struct Turn {
    decoder: StreamDecoder,
    sink: RenderSink,
    phase: TurnPhase,
}

impl View for Turn {
    type V = TurnView;

    closed spec fn view(&self) -> TurnView {
        TurnView { pending: self.decoder@, sink: self.sink@, phase: self.phase }
    }
}

impl Turn {
    /// A turn that has received nothing yet and pauses `delay_ms`
    /// milliseconds after each typed character.
    pub fn new(delay_ms: u64) -> (out: Turn)
        ensures
            out@ == fresh_turn(delay_ms),
    {
        Turn {
            decoder: StreamDecoder::new(),
            sink: RenderSink::new(delay_ms),
            phase: TurnPhase::Streaming,
        }
    }

    /// Where the turn stands.
    pub fn phase(&self) -> (out: TurnPhase)
        ensures
            out == self@.phase,
    {
        self.phase
    }

    /// Whether chunks are still expected.
    pub fn is_streaming(&self) -> (out: bool)
        ensures
            out == (self@.phase == TurnPhase::Streaming),
    {
        match self.phase {
            TurnPhase::Streaming => true,
            _ => false,
        }
    }

    /// The reply accumulated so far.
    pub fn reply(&self) -> (out: &str)
        ensures
            out@ == self@.sink.reply,
    {
        self.sink.reply()
    }

    /// The reply accumulated so far, by value.
    pub fn into_reply(self) -> (out: String)
        ensures
            out@ == self@.sink.reply,
    {
        self.sink.into_reply()
    }

    /// Answer-text frames seen so far.
    pub fn text_frames(&self) -> (out: u64)
        ensures
            out == self@.sink.text_frames,
    {
        self.sink.text_frames()
    }

    /// Characters typed out so far.
    pub fn typed_chars(&self) -> (out: u64)
        ensures
            out == self@.sink.typed,
    {
        self.sink.typed_chars()
    }

    /// A chunk has arrived; `cancel` is the answer of the cancellation check
    /// made just before. Hands out the terminal operations to carry out.
    pub fn on_chunk(&mut self, cancel: bool, chunk: &[u8]) -> (ops: Vec<RenderOp>)
        ensures
            final(self)@ == after_chunk(old(self)@, cancel, chunk@),
            ops@ == chunk_ops(old(self)@, cancel, chunk@),
    {
        let mut ops: Vec<RenderOp> = Vec::new();
        match self.phase {
            TurnPhase::Streaming => {
                if cancel {
                    self.decoder.discard();
                    self.phase = TurnPhase::Interrupted;
                    push_notice(&mut ops, "\n[interrupted]\n", Color::Yellow);
                    push_notice(&mut ops, "\n", Color::Green);
                    proof {
                        reveal_strlit("\n");
                        assert("\n"@ =~= seq!['\n']);
                        assert(ops@ =~= interrupted_ops() + end_of_turn_ops());
                    }
                } else {
                    let frames = self.decoder.feed(chunk);
                    self.sink.consume_all(&frames, &mut ops);
                    assert(ops@ =~= chunk_ops(old(self)@, cancel, chunk@));
                }
            },
            _ => {},
        }
        ops
    }

    /// The stream has ended. Hands out the terminal operations to carry out.
    pub fn on_end(&mut self) -> (ops: Vec<RenderOp>)
        ensures
            final(self)@ == after_end(old(self)@),
            ops@ == end_ops(old(self)@),
    {
        let mut ops: Vec<RenderOp> = Vec::new();
        match self.phase {
            TurnPhase::Streaming => {
                let frames = self.decoder.finish();
                self.sink.consume_all(&frames, &mut ops);
                self.phase = TurnPhase::Finished;
                push_notice(&mut ops, "\n", Color::Green);
                proof {
                    reveal_strlit("\n");
                    assert("\n"@ =~= seq!['\n']);
                    assert(ops@ =~= end_ops(old(self)@));
                }
            },
            _ => {},
        }
        ops
    }
}

} // verus!
