use hambur::frame::StreamFrame;
use hambur::render::{
    diagnostic_message, push_notice, push_print, push_styled, push_typed, Color, RenderOp,
    RenderSink, DEFAULT_CHAR_DELAY_MS,
};

fn shown(ops: &[RenderOp]) -> String {
    ops.iter()
        .filter_map(|op| match op {
            RenderOp::Print(c) => Some(*c),
            _ => None,
        })
        .collect()
}

#[test]
fn default_pace_is_ten_milliseconds() {
    assert_eq!(DEFAULT_CHAR_DELAY_MS, 10);
}

#[test]
fn text_delta_is_typed_in_green_with_pauses() {
    let mut sink = RenderSink::new(10);
    let mut ops = Vec::new();
    sink.consume(&StreamFrame::TextDelta("a\n".to_string()), &mut ops);
    assert_eq!(
        ops,
        vec![
            RenderOp::SetForeground(Color::Green),
            RenderOp::Print('a'),
            RenderOp::ResetColor,
            RenderOp::Flush,
            RenderOp::Pause(10),
            RenderOp::ResetColor,
            RenderOp::Print('\n'),
            RenderOp::MoveToColumnStart,
            RenderOp::Flush,
            RenderOp::Pause(10),
        ]
    );
    assert_eq!(sink.reply(), "a\n");
    assert_eq!(sink.text_frames(), 1);
    assert_eq!(sink.typed_chars(), 2);
}

#[test]
fn reasoning_delta_is_typed_in_blue_and_kept_out_of_the_reply() {
    let mut sink = RenderSink::new(3);
    let mut ops = vec![RenderOp::Flush];
    sink.consume(&StreamFrame::ReasoningDelta("\u{601d}".to_string()), &mut ops);
    assert_eq!(
        ops,
        vec![
            RenderOp::Flush,
            RenderOp::SetForeground(Color::Blue),
            RenderOp::Print('\u{601d}'),
            RenderOp::ResetColor,
            RenderOp::Flush,
            RenderOp::Pause(3),
        ]
    );
    assert_eq!(sink.reply(), "");
    assert_eq!(sink.text_frames(), 0);
    assert_eq!(sink.typed_chars(), 1);
    assert_eq!(sink.delay_ms(), 3);
}

#[test]
fn raw_fallback_is_written_in_one_go_and_joins_the_reply() {
    let mut sink = RenderSink::new(10);
    let mut ops = Vec::new();
    sink.consume(&StreamFrame::RawFallback("ok".to_string()), &mut ops);
    assert_eq!(
        ops,
        vec![
            RenderOp::SetForeground(Color::Red),
            RenderOp::Print('o'),
            RenderOp::ResetColor,
            RenderOp::SetForeground(Color::Red),
            RenderOp::Print('k'),
            RenderOp::ResetColor,
            RenderOp::Flush,
        ]
    );
    assert_eq!(sink.reply(), "ok");
    assert_eq!(sink.typed_chars(), 0);
}

#[test]
fn decode_error_is_shown_without_pause_and_kept_out_of_the_reply() {
    let mut sink = RenderSink::new(10);
    let mut ops = Vec::new();
    let frame = StreamFrame::DecodeError { raw: "{x".to_string(), cause: "bad".to_string() };
    sink.consume(&frame, &mut ops);
    assert_eq!(shown(&ops), "\u{89e3}\u{6790}\u{54cd}\u{5e94}\u{5931}\u{8d25}: bad\n\u{539f}\u{59cb}\u{6570}\u{636e}: {x");
    assert!(ops.iter().all(|op| !matches!(op, RenderOp::Pause(_))));
    assert!(ops.contains(&RenderOp::MoveToColumnStart));
    assert_eq!(ops.last(), Some(&RenderOp::Flush));
    assert_eq!(ops.iter().filter(|op| **op == RenderOp::Flush).count(), 1);
    assert_eq!(sink.reply(), "");
}

#[test]
fn done_frame_shows_nothing() {
    let mut sink = RenderSink::new(10);
    let mut ops = Vec::new();
    sink.consume(&StreamFrame::Done, &mut ops);
    assert!(ops.is_empty());
    assert_eq!(sink.reply(), "");
}

#[test]
fn consume_all_accumulates_text_and_raw_only() {
    let frames = vec![
        StreamFrame::ReasoningDelta("think".to_string()),
        StreamFrame::TextDelta("Hello".to_string()),
        StreamFrame::DecodeError { raw: "{".to_string(), cause: "c".to_string() },
        StreamFrame::RawFallback(", raw".to_string()),
        StreamFrame::Done,
        StreamFrame::TextDelta("!".to_string()),
    ];
    let mut sink = RenderSink::new(0);
    let mut ops = Vec::new();
    sink.consume_all(&frames, &mut ops);
    assert_eq!(sink.reply(), "Hello, raw!");
    assert_eq!(sink.text_frames(), 2);
    assert_eq!(sink.typed_chars(), 11);
    let mut one_by_one = RenderSink::new(0);
    let mut expected = Vec::new();
    for frame in &frames {
        one_by_one.consume(frame, &mut expected);
    }
    assert_eq!(ops, expected);
    assert_eq!(sink.into_reply(), "Hello, raw!");
}

#[test]
fn diagnostic_message_names_cause_and_payload() {
    assert_eq!(
        diagnostic_message("{raw", "why"),
        "\u{89e3}\u{6790}\u{54cd}\u{5e94}\u{5931}\u{8d25}: why\n\u{539f}\u{59cb}\u{6570}\u{636e}: {raw"
    );
}

#[test]
fn push_helpers_append_to_what_is_there() {
    let mut ops = vec![RenderOp::ClearLine];
    push_print(&mut ops, "ab");
    push_styled(&mut ops, "c", Color::Cyan, true);
    push_styled(&mut ops, "", Color::Yellow, false);
    push_notice(&mut ops, "\n", Color::Yellow);
    let n = push_typed(&mut ops, "", Color::Green, 10);
    assert_eq!(n, 0);
    assert_eq!(
        ops,
        vec![
            RenderOp::ClearLine,
            RenderOp::Print('a'),
            RenderOp::Print('b'),
            RenderOp::SetForeground(Color::Cyan),
            RenderOp::Bold,
            RenderOp::Print('c'),
            RenderOp::ResetColor,
            RenderOp::SetForeground(Color::Yellow),
            RenderOp::ResetColor,
            RenderOp::ResetColor,
            RenderOp::Print('\n'),
            RenderOp::MoveToColumnStart,
            RenderOp::Flush,
        ]
    );
}
