//! The stream decoder: chunks of a server-sent-events body in, typed frames
//! out. Chunk boundaries may fall anywhere, inside a line or inside a UTF-8
//! sequence; the frames depend on the bytes alone.

use crate::chat::{response_of, shape_message, ChatResponse, DeltaView, ResponseView};
use crate::frame::{append_frames, frames_view, reply_of, FrameView, StreamFrame};
use crate::json::{parse_json, parsed_json, Json, JsonValue};
use crate::lines::{
    all_lines, complete_lines, final_lines, lemma_lines_concat, lemma_newline_free,
    lemma_remainder_newline_free, lines_view, newline_free, remainder, LineBuffer,
};
use crate::text::{all_whitespace, chars_equal, chars_of, is_blank, starts_with};
use vstd::prelude::*;
use vstd::string::StrSliceExecFns;
use vstd::utf8::{decode_utf8, valid_utf8};

verus! {

/// The text that lossy UTF-8 decoding makes of `bytes`.
pub uninterp spec fn utf8_lossy(bytes: Seq<u8>) -> Seq<char>;

/// `String::from_utf8_lossy`. Trusted: the text depends on the bytes alone,
/// and bytes that are valid UTF-8 decode to the characters they encode;
/// invalid sequences are replaced, never rejected.
#[verifier::external_body]
fn decode_lossy(bytes: &[u8]) -> (text: String)
    ensures
        text@ == utf8_lossy(bytes@),
        valid_utf8(bytes@) ==> text@ == decode_utf8(bytes@),
{
    String::from_utf8_lossy(bytes).into_owned()
}

/// The marker in front of a data line.
pub open spec fn data_prefix() -> Seq<char> {
    "data: "@
}

/// The start of a keep-alive comment line.
pub open spec fn heartbeat_prefix() -> Seq<char> {
    ": OPENROUTER PROCESSING"@
}

/// The payload that announces the end of the stream.
pub open spec fn done_sentinel() -> Seq<char> {
    "[DONE]"@
}

/// The payload that a line carries, if it carries one: blank lines and
/// keep-alives carry none, a data line carries what follows its marker, any
/// other line is its own payload, and the end-of-stream sentinel is consumed.
pub open spec fn payload_of_line(line: Seq<char>) -> Option<Seq<char>> {
    if is_blank(line) {
        None
    } else if data_prefix().is_prefix_of(line) {
        let payload = line.skip(data_prefix().len() as int);
        if payload == done_sentinel() {
            None
        } else {
            Some(payload)
        }
    } else if heartbeat_prefix().is_prefix_of(line) || line == done_sentinel() {
        None
    } else {
        Some(line)
    }
}

/// Whether a payload opens like a JSON object or array.
pub open spec fn looks_like_json(payload: Seq<char>) -> bool {
    payload.len() > 0 && (payload[0] == '{' || payload[0] == '[')
}

/// The frames of a delta: reasoning first, then answer text.
pub open spec fn frames_of_delta(delta: DeltaView) -> Seq<FrameView> {
    let reasoning = match delta.reasoning_content {
        Some(r) => seq![FrameView::ReasoningDelta(r)],
        None => Seq::empty(),
    };
    let text = match delta.content {
        Some(c) => seq![FrameView::TextDelta(c)],
        None => Seq::empty(),
    };
    reasoning + text
}

/// The frames of a response object: those of its first choice.
pub open spec fn frames_of_response(response: ResponseView) -> Seq<FrameView> {
    if response.choices.len() == 0 {
        Seq::empty()
    } else {
        frames_of_delta(response.choices[0].delta)
    }
}

/// The frame for a payload that could not be read as a response object.
pub open spec fn failure_frames(payload: Seq<char>, cause: Seq<char>) -> Seq<FrameView> {
    if looks_like_json(payload) {
        seq![FrameView::DecodeError { raw: payload, cause }]
    } else {
        seq![FrameView::RawFallback(payload)]
    }
}

/// The frames of a payload, given what parsing it gave.
pub open spec fn frames_of_outcome(
    payload: Seq<char>,
    outcome: Result<JsonValue, Seq<char>>,
) -> Seq<FrameView> {
    match outcome {
        Ok(value) => match response_of(value) {
            Ok(response) => frames_of_response(response),
            Err(e) => failure_frames(payload, shape_message(e)),
        },
        Err(cause) => failure_frames(payload, cause),
    }
}

/// The frames of a payload.
pub open spec fn frames_of_payload(payload: Seq<char>) -> Seq<FrameView> {
    frames_of_outcome(payload, parsed_json(payload))
}

/// The frames of one decoded line.
pub open spec fn frames_of_text(line: Seq<char>) -> Seq<FrameView> {
    match payload_of_line(line) {
        Some(payload) => frames_of_payload(payload),
        None => Seq::empty(),
    }
}

/// The frames of one line of bytes.
pub open spec fn frames_of_line(line: Seq<u8>) -> Seq<FrameView> {
    frames_of_text(utf8_lossy(line))
}

/// The frames of a run of lines, in order.
pub open spec fn frames_of_lines(lines: Seq<Seq<u8>>) -> Seq<FrameView>
    decreases lines.len(),
{
    if lines.len() == 0 {
        Seq::empty()
    } else {
        frames_of_lines(lines.drop_last()) + frames_of_line(lines.last())
    }
}

/// The frames of a whole response body.
pub open spec fn frames_of_stream(body: Seq<u8>) -> Seq<FrameView> {
    frames_of_lines(all_lines(body))
}

/// What a parse outcome is as a mathematical value.
pub open spec fn outcome_view(outcome: Result<Json, String>) -> Result<JsonValue, Seq<char>> {
    match outcome {
        Ok(json) => Ok(json@),
        Err(message) => Err(message@),
    }
}

/// The payload of a decoded line.
pub fn payload_of(line: &str) -> (out: Option<String>)
    ensures
        match out {
            Some(payload) => payload_of_line(line@) == Some(payload@),
            None => payload_of_line(line@) is None,
        },
{
    let chars = chars_of(line);
    if all_whitespace(chars.as_slice()) {
        return None;
    }
    let sentinel = chars_of("[DONE]");
    let prefix = chars_of("data: ");
    if starts_with(chars.as_slice(), prefix.as_slice()) {
        let payload = line.substring_char(prefix.len(), chars.len());
        assert(payload@ =~= line@.skip(data_prefix().len() as int));
        let payload_chars = chars_of(payload);
        if chars_equal(payload_chars.as_slice(), sentinel.as_slice()) {
            None
        } else {
            Some(payload.to_owned())
        }
    } else {
        let heartbeat = chars_of(": OPENROUTER PROCESSING");
        if starts_with(chars.as_slice(), heartbeat.as_slice()) || chars_equal(
            chars.as_slice(),
            sentinel.as_slice(),
        ) {
            None
        } else {
            Some(line.to_owned())
        }
    }
}

fn payload_looks_like_json(payload: &str) -> (out: bool)
    ensures
        out == looks_like_json(payload@),
{
    let chars = chars_of(payload);
    chars.len() > 0 && (chars[0] == '{' || chars[0] == '[')
}

fn frames_for_failure(payload: &str, cause: String) -> (frames: Vec<StreamFrame>)
    ensures
        frames_view(frames@) == failure_frames(payload@, cause@),
{
    let mut frames: Vec<StreamFrame> = Vec::new();
    if payload_looks_like_json(payload) {
        frames.push(StreamFrame::DecodeError { raw: payload.to_owned(), cause });
    } else {
        frames.push(StreamFrame::RawFallback(payload.to_owned()));
    }
    assert(frames_view(frames@) =~= failure_frames(payload@, cause@));
    frames
}

/// The frames of a response object.
pub fn frames_for_response(response: &ChatResponse) -> (frames: Vec<StreamFrame>)
    ensures
        frames_view(frames@) == frames_of_response(response@),
{
    let mut frames: Vec<StreamFrame> = Vec::new();
    if response.choices.len() > 0 {
        let delta = &response.choices[0].delta;
        match &delta.reasoning_content {
            Some(reasoning) => {
                frames.push(StreamFrame::ReasoningDelta(reasoning.clone()));
            },
            None => {},
        }
        match &delta.content {
            Some(content) => {
                frames.push(StreamFrame::TextDelta(content.clone()));
            },
            None => {},
        }
    }
    assert(frames_view(frames@) =~= frames_of_response(response@));
    frames
}

/// The frames of a payload, given what parsing it gave.
pub fn frames_for_outcome(payload: &str, outcome: Result<Json, String>) -> (frames: Vec<
    StreamFrame,
>)
    ensures
        frames_view(frames@) == frames_of_outcome(payload@, outcome_view(outcome)),
{
    match outcome {
        Ok(json) => match ChatResponse::from_json(&json) {
            Ok(response) => frames_for_response(&response),
            Err(e) => frames_for_failure(payload, e.message()),
        },
        Err(cause) => frames_for_failure(payload, cause),
    }
}

/// The frames of a payload: parses it and reads the outcome.
pub fn decode_payload(payload: &str) -> (frames: Vec<StreamFrame>)
    ensures
        frames_view(frames@) == frames_of_payload(payload@),
{
    let outcome = parse_json(payload);
    frames_for_outcome(payload, outcome)
}

/// The frames of one decoded line.
pub fn decode_text_line(line: &str) -> (frames: Vec<StreamFrame>)
    ensures
        frames_view(frames@) == frames_of_text(line@),
{
    match payload_of(line) {
        Some(payload) => decode_payload(payload.as_str()),
        None => {
            let frames: Vec<StreamFrame> = Vec::new();
            assert(frames_view(frames@) =~= Seq::<FrameView>::empty());
            frames
        },
    }
}

/// The frames of one line of bytes.
pub fn decode_line(line: &[u8]) -> (frames: Vec<StreamFrame>)
    ensures
        frames_view(frames@) == frames_of_line(line@),
{
    let text = decode_lossy(line);
    decode_text_line(text.as_str())
}

fn decode_lines(lines: &Vec<Vec<u8>>) -> (frames: Vec<StreamFrame>)
    ensures
        frames_view(frames@) == frames_of_lines(lines_view(lines@)),
{
    let ghost all = lines_view(lines@);
    let mut frames: Vec<StreamFrame> = Vec::new();
    let mut i: usize = 0;
    proof {
        assert(all.take(0) =~= Seq::<Seq<u8>>::empty());
        assert(frames_view(frames@) =~= Seq::<FrameView>::empty());
    }
    while i < lines.len()
        invariant
            i <= lines@.len(),
            all == lines_view(lines@),
            frames_view(frames@) == frames_of_lines(all.take(i as int)),
        decreases lines@.len() - i,
    {
        proof {
            assert(all.take(i + 1).drop_last() =~= all.take(i as int));
            assert(all.take(i + 1).last() == lines@[i as int]@);
        }
        let more = decode_line(lines[i].as_slice());
        append_frames(&mut frames, more);
        i += 1;
    }
    assert(all.take(i as int) =~= all);
    frames
}

/// Decodes a response body chunk by chunk.
pub struct StreamDecoder {
    buffer: LineBuffer,
}

impl View for StreamDecoder {
    type V = Seq<u8>;

    /// The bytes received after the last line feed.
    closed spec fn view(&self) -> Seq<u8> {
        self.buffer@
    }
}

impl StreamDecoder {
    /// A decoder that has seen nothing.
    pub fn new() -> (out: StreamDecoder)
        ensures
            out@ == Seq::<u8>::empty(),
    {
        StreamDecoder { buffer: LineBuffer::new() }
    }

    /// Takes in one chunk and hands out the frames of the lines that it
    /// completes. An unterminated tail is kept for the next chunk.
    pub fn feed(&mut self, chunk: &[u8]) -> (frames: Vec<StreamFrame>)
        ensures
            frames_view(frames@) == frames_of_lines(complete_lines(old(self)@ + chunk@)),
            final(self)@ == remainder(old(self)@ + chunk@),
    {
        let lines = self.buffer.push(chunk);
        decode_lines(&lines)
    }

    /// Ends the stream: an unterminated tail is decoded as the last line.
    pub fn finish(&mut self) -> (frames: Vec<StreamFrame>)
        ensures
            frames_view(frames@) == frames_of_lines(final_lines(old(self)@)),
            final(self)@ == Seq::<u8>::empty(),
    {
        let lines = self.buffer.finish();
        decode_lines(&lines)
    }

    /// Drops what is pending, as on cancellation.
    pub fn discard(&mut self)
        ensures
            final(self)@ == Seq::<u8>::empty(),
    {
        self.buffer.discard();
    }
}

/// What a decoder with `pending` bytes hands out, all in all, when it is fed
/// `chunks` one after another and the stream then ends.
pub open spec fn frames_of_chunks(pending: Seq<u8>, chunks: Seq<Seq<u8>>) -> Seq<FrameView>
    decreases chunks.len(),
{
    if chunks.len() == 0 {
        frames_of_lines(final_lines(pending))
    } else {
        let seen = pending + chunks[0];
        frames_of_lines(complete_lines(seen)) + frames_of_chunks(
            remainder(seen),
            chunks.drop_first(),
        )
    }
}

/// Lines are decoded one by one: the frames of two runs of lines are the
/// frames of the first run followed by those of the second. In particular a
/// line that cannot be read does not affect the lines after it.
pub proof fn lemma_frames_of_lines_concat(a: Seq<Seq<u8>>, b: Seq<Seq<u8>>)
    ensures
        frames_of_lines(a + b) == frames_of_lines(a) + frames_of_lines(b),
    decreases b.len(),
{
    if b.len() == 0 {
        assert(a + b =~= a);
        assert(frames_of_lines(a) + frames_of_lines(b) =~= frames_of_lines(a));
    } else {
        assert((a + b).drop_last() =~= a + b.drop_last());
        assert((a + b).last() == b.last());
        lemma_frames_of_lines_concat(a, b.drop_last());
        assert(frames_of_lines(a + b) =~= frames_of_lines(a) + frames_of_lines(b));
    }
}

/// Decoding chunk by chunk gives the frames of the whole body, wherever the
/// chunk boundaries fall. What is pending holds no line feed, as is true of
/// every decoder between two chunks.
pub proof fn lemma_chunked_decoding(pending: Seq<u8>, chunks: Seq<Seq<u8>>)
    requires
        newline_free(pending),
    ensures
        frames_of_chunks(pending, chunks) == frames_of_stream(pending + chunks.flatten()),
    decreases chunks.len(),
{
    if chunks.len() == 0 {
        assert(pending + chunks.flatten() =~= pending);
        lemma_newline_free(pending);
        assert(all_lines(pending) =~= final_lines(pending));
    } else {
        let seen = pending + chunks[0];
        let rest = chunks.drop_first();
        lemma_remainder_newline_free(seen);
        lemma_chunked_decoding(remainder(seen), rest);
        lemma_stream_split(seen, rest.flatten());
        assert(seen + rest.flatten() =~= pending + chunks.flatten());
    }
}

/// The frames of a body `a + b` are those of the lines that `a` completes,
/// followed by those of what remains.
pub proof fn lemma_stream_split(a: Seq<u8>, b: Seq<u8>)
    ensures
        frames_of_stream(a + b) == frames_of_lines(complete_lines(a)) + frames_of_stream(
            remainder(a) + b,
        ),
{
    lemma_lines_concat(a, b);
    let tail = remainder(a) + b;
    assert(all_lines(a + b) =~= complete_lines(a) + all_lines(tail));
    lemma_frames_of_lines_concat(complete_lines(a), all_lines(tail));
}

/// Two ways of cutting the same body into chunks give the same frames, and
/// so the same accumulated reply.
pub proof fn lemma_chunking_is_irrelevant(first: Seq<Seq<u8>>, second: Seq<Seq<u8>>)
    requires
        first.flatten() == second.flatten(),
    ensures
        frames_of_chunks(Seq::empty(), first) == frames_of_chunks(Seq::empty(), second),
        reply_of(frames_of_chunks(Seq::empty(), first)) == reply_of(
            frames_of_chunks(Seq::empty(), second),
        ),
{
    assert(newline_free(Seq::<u8>::empty()));
    lemma_chunked_decoding(Seq::empty(), first);
    lemma_chunked_decoding(Seq::empty(), second);
    assert(Seq::<u8>::empty() + first.flatten() =~= first.flatten());
    assert(Seq::<u8>::empty() + second.flatten() =~= second.flatten());
}

/// A delta that carries both reasoning and answer text gives the reasoning
/// frame first.
pub proof fn lemma_reasoning_precedes_text(delta: DeltaView)
    requires
        delta.reasoning_content is Some,
        delta.content is Some,
    ensures
        frames_of_delta(delta) == seq![
            FrameView::ReasoningDelta(delta.reasoning_content->0),
            FrameView::TextDelta(delta.content->0),
        ],
{
    assert(frames_of_delta(delta) =~= seq![
        FrameView::ReasoningDelta(delta.reasoning_content->0),
        FrameView::TextDelta(delta.content->0),
    ]);
}

/// Whether parsing gave no response object.
pub open spec fn is_unreadable(outcome: Result<JsonValue, Seq<char>>) -> bool {
    match outcome {
        Ok(value) => response_of(value) is Err,
        Err(_) => true,
    }
}

/// An unreadable payload that does not open like JSON becomes one raw
/// fallback frame, and its text joins the reply unchanged.
pub proof fn lemma_plain_text_falls_back(payload: Seq<char>, outcome: Result<JsonValue, Seq<char>>)
    requires
        is_unreadable(outcome),
        !looks_like_json(payload),
    ensures
        frames_of_outcome(payload, outcome) == seq![FrameView::RawFallback(payload)],
        reply_of(frames_of_outcome(payload, outcome)) == payload,
{
    let frames = seq![FrameView::RawFallback(payload)];
    assert(frames.drop_last() =~= Seq::<FrameView>::empty());
    assert(reply_of(frames.drop_last()) =~= Seq::<char>::empty());
    assert(reply_of(frames) =~= payload);
}

/// An unreadable payload that opens like JSON becomes one decode-error frame
/// that carries the payload, and adds nothing to the reply.
pub proof fn lemma_malformed_json_is_reported(
    payload: Seq<char>,
    outcome: Result<JsonValue, Seq<char>>,
)
    requires
        is_unreadable(outcome),
        looks_like_json(payload),
    ensures
        frames_of_outcome(payload, outcome).len() == 1,
        frames_of_outcome(payload, outcome)[0] is DecodeError,
        frames_of_outcome(payload, outcome)[0]->raw == payload,
        reply_of(frames_of_outcome(payload, outcome)) == Seq::<char>::empty(),
{
    let frames = frames_of_outcome(payload, outcome);
    assert(frames.drop_last() =~= Seq::<FrameView>::empty());
    assert(reply_of(frames.drop_last()) =~= Seq::<char>::empty());
    assert(reply_of(frames) =~= Seq::<char>::empty());
}

} // verus!
