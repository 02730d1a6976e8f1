use hambur::decoder::{
    decode_line, decode_payload, decode_text_line, frames_for_outcome, payload_of, StreamDecoder,
};
use hambur::frame::StreamFrame;
use hambur::json::{Json, JsonMember};

fn text(s: &str) -> StreamFrame {
    StreamFrame::TextDelta(s.to_string())
}

fn run(chunks: &[&[u8]]) -> Vec<StreamFrame> {
    let mut decoder = StreamDecoder::new();
    let mut frames = Vec::new();
    for chunk in chunks {
        frames.extend(decoder.feed(chunk));
    }
    frames.extend(decoder.finish());
    frames
}

fn reply(frames: &[StreamFrame]) -> String {
    let mut out = String::new();
    for frame in frames {
        match frame {
            StreamFrame::TextDelta(t) | StreamFrame::RawFallback(t) => out.push_str(t),
            _ => {}
        }
    }
    out
}

#[test]
fn single_delta_then_done_yields_one_text_frame() {
    let body = b"data: {\"choices\":[{\"delta\":{\"content\":\"hi\"}}]}\ndata: [DONE]";
    let frames = run(&[body]);
    assert_eq!(frames, vec![text("hi")]);
    assert_eq!(reply(&frames), "hi");
}

#[test]
fn done_sentinel_does_not_end_the_stream() {
    let body = b"data: [DONE]\ndata: {\"choices\":[{\"delta\":{\"content\":\"late\"}}]}\n";
    assert_eq!(run(&[body]), vec![text("late")]);
}

#[test]
fn reasoning_comes_before_text() {
    let line = "data: {\"choices\":[{\"delta\":{\"content\":\"answer\",\"reasoning_content\":\"why\"}}]}";
    assert_eq!(
        decode_text_line(line),
        vec![StreamFrame::ReasoningDelta("why".to_string()), text("answer")]
    );
}

#[test]
fn delta_without_fields_yields_no_frame() {
    assert_eq!(decode_payload("{\"choices\":[{\"delta\":{}}]}"), vec![]);
    assert_eq!(decode_payload("{\"choices\":[{\"delta\":{\"content\":null}}]}"), vec![]);
    assert_eq!(decode_payload("{\"choices\":[]}"), vec![]);
}

#[test]
fn only_the_first_choice_is_shown() {
    let payload = "{\"choices\":[{\"delta\":{\"content\":\"a\"}},{\"delta\":{\"content\":\"b\"}}]}";
    assert_eq!(decode_payload(payload), vec![text("a")]);
}

#[test]
fn plain_text_line_falls_back_to_raw() {
    let frames = run(&[b"hello world\n"]);
    assert_eq!(frames, vec![StreamFrame::RawFallback("hello world".to_string())]);
    assert_eq!(reply(&frames), "hello world");
}

#[test]
fn json_scalar_payload_falls_back_to_raw() {
    assert_eq!(decode_payload("42"), vec![StreamFrame::RawFallback("42".to_string())]);
}

#[test]
fn malformed_json_is_reported_and_later_lines_still_decode() {
    let body = b"data: {bad json\ndata: {\"choices\":[{\"delta\":{\"content\":\"ok\"}}]}\n";
    let frames = run(&[body]);
    assert_eq!(frames.len(), 2);
    match &frames[0] {
        StreamFrame::DecodeError { raw, cause } => {
            assert_eq!(raw, "{bad json");
            assert!(!cause.is_empty());
        }
        other => panic!("unexpected frame {:?}", other),
    }
    assert_eq!(frames[1], text("ok"));
    assert_eq!(reply(&frames), "ok");
}

#[test]
fn json_of_the_wrong_shape_is_a_decode_error() {
    assert_eq!(
        decode_payload("{\"error\":\"quota\"}"),
        vec![StreamFrame::DecodeError {
            raw: "{\"error\":\"quota\"}".to_string(),
            cause: "missing field `choices`".to_string(),
        }]
    );
    assert_eq!(
        decode_payload("[1,2]"),
        vec![StreamFrame::DecodeError {
            raw: "[1,2]".to_string(),
            cause: "expected a JSON object".to_string(),
        }]
    );
}

#[test]
fn blank_and_heartbeat_lines_are_skipped() {
    assert_eq!(payload_of(""), None);
    assert_eq!(payload_of("  \t \u{3000}"), None);
    assert_eq!(payload_of(": OPENROUTER PROCESSING"), None);
    assert_eq!(payload_of(": OPENROUTER PROCESSING 12"), None);
    assert_eq!(payload_of("data: [DONE]"), None);
    assert_eq!(payload_of("[DONE]"), None);
}

#[test]
fn payload_is_what_follows_the_data_marker() {
    assert_eq!(payload_of("data: {\"a\":1}"), Some("{\"a\":1}".to_string()));
    assert_eq!(payload_of("data:{\"a\":1}"), Some("data:{\"a\":1}".to_string()));
    assert_eq!(payload_of("{\"a\":1}"), Some("{\"a\":1}".to_string()));
    assert_eq!(payload_of("data: [DONE] "), Some("[DONE] ".to_string()));
    assert_eq!(payload_of("data: "), Some(String::new()));
    assert_eq!(payload_of("data: x"), Some("x".to_string()));
}

#[test]
fn carriage_return_before_line_feed_is_dropped() {
    let body = b"data: {\"choices\":[{\"delta\":{\"content\":\"a\"}}]}\r\ndata: [DONE]\r\n";
    assert_eq!(run(&[body]), vec![text("a")]);
}

#[test]
fn unterminated_tail_waits_for_the_next_chunk() {
    let mut decoder = StreamDecoder::new();
    assert_eq!(decoder.feed(b"data: {\"choices\":[{\"delta\":{\"con"), vec![]);
    assert_eq!(decoder.feed(b"tent\":\"joined\"}}]}"), vec![]);
    assert_eq!(decoder.feed(b"\n"), vec![text("joined")]);
    assert_eq!(decoder.finish(), vec![]);
}

#[test]
fn finish_decodes_an_unterminated_last_line() {
    let mut decoder = StreamDecoder::new();
    assert_eq!(decoder.feed(b"data: {\"choices\":[{\"delta\":{\"content\":\"end\"}}]}"), vec![]);
    assert_eq!(decoder.finish(), vec![text("end")]);
    assert_eq!(decoder.finish(), vec![]);
}

#[test]
fn discard_drops_the_pending_tail() {
    let mut decoder = StreamDecoder::new();
    assert_eq!(decoder.feed(b"pending text"), vec![]);
    decoder.discard();
    assert_eq!(decoder.finish(), vec![]);
}

#[test]
fn every_two_way_split_gives_the_same_frames() {
    let body = "data: {\"choices\":[{\"delta\":{\"content\":\"h\u{e9}llo\"}}]}\n\n: OPENROUTER PROCESSING\ndata: {\"choices\":[{\"delta\":{\"reasoning_content\":\"\u{601d}\u{8003}\",\"content\":\" w\u{f6}rld\"}}]}\r\nplain \u{1f600} text\ndata: [DONE]\n".as_bytes();
    let whole = run(&[body]);
    assert_eq!(reply(&whole), "h\u{e9}llo w\u{f6}rldplain \u{1f600} text");
    assert_eq!(whole.len(), 4);
    for cut in 0..=body.len() {
        let frames = run(&[&body[..cut], &body[cut..]]);
        assert_eq!(frames, whole, "cut at {}", cut);
    }
}

#[test]
fn byte_by_byte_chunks_give_the_same_reply() {
    let body = "data: {\"choices\":[{\"delta\":{\"content\":\"\u{4f60}\u{597d}\"}}]}\ndata: {\"choices\":[{\"delta\":{\"content\":\"!\"}}]}\n".as_bytes();
    let chunks: Vec<&[u8]> = body.chunks(1).collect();
    let frames = run(&chunks);
    assert_eq!(frames, run(&[body]));
    assert_eq!(reply(&frames), "\u{4f60}\u{597d}!");
}

#[test]
fn invalid_utf8_is_replaced_not_rejected() {
    let frames = decode_line(b"caf\xff\xfe latte");
    assert_eq!(frames, vec![StreamFrame::RawFallback("caf\u{fffd}\u{fffd} latte".to_string())]);
}

#[test]
fn valid_utf8_line_decodes_to_its_text() {
    let frames = decode_line("na\u{ef}ve".as_bytes());
    assert_eq!(frames, vec![StreamFrame::RawFallback("na\u{ef}ve".to_string())]);
}

#[test]
fn frames_from_a_given_parse_outcome() {
    let delta = Json::Object(vec![JsonMember {
        key: "content".to_string(),
        value: Json::Text("x".to_string()),
    }]);
    let choice = Json::Object(vec![JsonMember { key: "delta".to_string(), value: delta }]);
    let root = Json::Object(vec![JsonMember {
        key: "choices".to_string(),
        value: Json::Array(vec![choice]),
    }]);
    assert_eq!(frames_for_outcome("ignored", Ok(root)), vec![text("x")]);
    assert_eq!(
        frames_for_outcome("{oops", Err("bad".to_string())),
        vec![StreamFrame::DecodeError { raw: "{oops".to_string(), cause: "bad".to_string() }]
    );
    assert_eq!(
        frames_for_outcome("[oops", Err("bad".to_string())),
        vec![StreamFrame::DecodeError { raw: "[oops".to_string(), cause: "bad".to_string() }]
    );
    assert_eq!(
        frames_for_outcome("oops", Err("bad".to_string())),
        vec![StreamFrame::RawFallback("oops".to_string())]
    );
}
