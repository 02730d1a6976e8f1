//! The typed events that the decoder hands to the render sink.

use vstd::prelude::*;

verus! {

/// One decoded unit of a streamed reply.
#[derive(Debug, Clone, PartialEq, Eq)]
pub enum StreamFrame {
    /// A piece of the answer.
    TextDelta(String),
    /// A piece of the model's reasoning.
    ReasoningDelta(String),
    /// A payload that is not JSON at all, taken as plain answer text.
    RawFallback(String),
    /// End-of-stream marker. The decoder consumes the wire sentinel without
    /// producing this frame; it exists for producers that signal the end
    /// themselves.
    Done,
    /// A payload that looks like JSON and could not be read.
    DecodeError { raw: String, cause: String },
}

/// Mathematical model of a [`StreamFrame`].
pub ghost enum FrameView {
    TextDelta(Seq<char>),
    ReasoningDelta(Seq<char>),
    RawFallback(Seq<char>),
    Done,
    DecodeError { raw: Seq<char>, cause: Seq<char> },
}

impl View for StreamFrame {
    type V = FrameView;

    open spec fn view(&self) -> FrameView {
        match self {
            StreamFrame::TextDelta(t) => FrameView::TextDelta(t@),
            StreamFrame::ReasoningDelta(t) => FrameView::ReasoningDelta(t@),
            StreamFrame::RawFallback(t) => FrameView::RawFallback(t@),
            StreamFrame::Done => FrameView::Done,
            StreamFrame::DecodeError { raw, cause } => FrameView::DecodeError {
                raw: raw@,
                cause: cause@,
            },
        }
    }
}

/// The models of a run of frames.
pub open spec fn frames_view(frames: Seq<StreamFrame>) -> Seq<FrameView> {
    Seq::new(frames.len(), |i: int| frames[i]@)
}

/// What one frame adds to the reply kept for the history: answer text and
/// raw fallback text count, reasoning and diagnostics do not.
pub open spec fn contribution(frame: FrameView) -> Seq<char> {
    match frame {
        FrameView::TextDelta(t) => t,
        FrameView::RawFallback(t) => t,
        _ => Seq::empty(),
    }
}

/// The reply that a run of frames accumulates.
pub open spec fn reply_of(frames: Seq<FrameView>) -> Seq<char>
    decreases frames.len(),
{
    if frames.len() == 0 {
        Seq::empty()
    } else {
        reply_of(frames.drop_last()) + contribution(frames.last())
    }
}

/// The reply of two runs of frames is the two replies joined.
pub proof fn lemma_reply_of_concat(a: Seq<FrameView>, b: Seq<FrameView>)
    ensures
        reply_of(a + b) == reply_of(a) + reply_of(b),
    decreases b.len(),
{
    if b.len() == 0 {
        assert(a + b =~= a);
        assert(reply_of(a) + reply_of(b) =~= reply_of(a));
    } else {
        assert((a + b).drop_last() =~= a + b.drop_last());
        assert((a + b).last() == b.last());
        lemma_reply_of_concat(a, b.drop_last());
        assert(reply_of(a + b) =~= reply_of(a) + reply_of(b));
    }
}

/// Appends `more` to `frames`.
pub fn append_frames(frames: &mut Vec<StreamFrame>, more: Vec<StreamFrame>)
    ensures
        frames_view(final(frames)@) == frames_view(old(frames)@) + frames_view(more@),
{
    let mut more = more;
    let ghost before = frames@;
    let ghost added = more@;
    frames.append(&mut more);
    assert(frames_view(frames@) =~= frames_view(before) + frames_view(added));
}

} // verus!
