use hambur::render::{Color, RenderOp};
use hambur::turn::{Turn, TurnPhase};

fn shown(ops: &[RenderOp]) -> String {
    ops.iter()
        .filter_map(|op| match op {
            RenderOp::Print(c) => Some(*c),
            _ => None,
        })
        .collect()
}

fn run(chunks: &[&[u8]]) -> (String, String) {
    let mut turn = Turn::new(10);
    let mut ops = Vec::new();
    for chunk in chunks {
        ops.extend(turn.on_chunk(false, chunk));
    }
    ops.extend(turn.on_end());
    assert_eq!(turn.phase(), TurnPhase::Finished);
    (turn.into_reply(), shown(&ops))
}

#[test]
fn cancel_before_the_first_chunk_leaves_an_empty_reply_and_the_marker() {
    let mut turn = Turn::new(10);
    let ops = turn.on_chunk(true, b"data: {\"choices\":[{\"delta\":{\"content\":\"hi\"}}]}\n");
    assert_eq!(turn.reply(), "");
    assert_eq!(turn.phase(), TurnPhase::Interrupted);
    assert!(!turn.is_streaming());
    assert_eq!(shown(&ops), "\n[interrupted]\n\n");
    assert!(ops.contains(&RenderOp::SetForeground(Color::Yellow)));
    assert!(ops.iter().all(|op| !matches!(op, RenderOp::Pause(_))));
    assert!(turn.on_chunk(false, b"data: more\n").is_empty());
    assert!(turn.on_end().is_empty());
    assert_eq!(turn.phase(), TurnPhase::Interrupted);
    assert_eq!(turn.into_reply(), "");
}

#[test]
fn cancel_in_mid_stream_keeps_what_was_accumulated() {
    let mut turn = Turn::new(0);
    turn.on_chunk(false, b"data: {\"choices\":[{\"delta\":{\"content\":\"par\"}}]}\ndata: {\"cho");
    assert_eq!(turn.reply(), "par");
    let ops = turn.on_chunk(true, b"ices\":[{\"delta\":{\"content\":\"tial\"}}]}\n");
    assert_eq!(shown(&ops), "\n[interrupted]\n\n");
    assert_eq!(turn.reply(), "par");
    assert!(turn.on_end().is_empty());
    assert_eq!(turn.reply(), "par");
}

#[test]
fn a_whole_turn_types_the_reply_and_ends_with_a_line_break() {
    let mut turn = Turn::new(7);
    assert!(turn.is_streaming());
    let ops = turn.on_chunk(false, b"data: {\"choices\":[{\"delta\":{\"content\":\"ok\"}}]}\n");
    assert_eq!(
        ops,
        vec![
            RenderOp::SetForeground(Color::Green),
            RenderOp::Print('o'),
            RenderOp::ResetColor,
            RenderOp::Flush,
            RenderOp::Pause(7),
            RenderOp::SetForeground(Color::Green),
            RenderOp::Print('k'),
            RenderOp::ResetColor,
            RenderOp::Flush,
            RenderOp::Pause(7),
        ]
    );
    let end = turn.on_end();
    assert_eq!(
        end,
        vec![
            RenderOp::ResetColor,
            RenderOp::Print('\n'),
            RenderOp::MoveToColumnStart,
            RenderOp::Flush,
        ]
    );
    assert_eq!(turn.phase(), TurnPhase::Finished);
    assert_eq!(turn.text_frames(), 1);
    assert_eq!(turn.typed_chars(), 2);
    assert!(turn.on_chunk(false, b"data: late\n").is_empty());
    assert!(turn.on_end().is_empty());
    assert_eq!(turn.into_reply(), "ok");
}

#[test]
fn the_reply_does_not_depend_on_the_chunking() {
    let body = "data: {\"choices\":[{\"delta\":{\"content\":\"gr\u{fc}\u{df}\"}}]}\n: OPENROUTER PROCESSING\n\ndata: {\"choices\":[{\"delta\":{\"content\":\" \u{4f60}\u{597d}\"}}]}\nraw tail".as_bytes();
    let (whole_reply, whole_shown) = run(&[body]);
    assert_eq!(whole_reply, "gr\u{fc}\u{df} \u{4f60}\u{597d}raw tail");
    assert_eq!(whole_shown, "gr\u{fc}\u{df} \u{4f60}\u{597d}raw tail\n");
    for cut in 0..=body.len() {
        let (reply, shown) = run(&[&body[..cut], &body[cut..]]);
        assert_eq!(reply, whole_reply, "cut at {}", cut);
        assert_eq!(shown, whole_shown, "cut at {}", cut);
    }
    let bytes: Vec<&[u8]> = body.chunks(1).collect();
    assert_eq!(run(&bytes).0, whole_reply);
    let triples: Vec<&[u8]> = body.chunks(3).collect();
    assert_eq!(run(&triples).0, whole_reply);
}

#[test]
fn an_empty_stream_gives_an_empty_reply() {
    let (reply, shown) = run(&[]);
    assert_eq!(reply, "");
    assert_eq!(shown, "\n");
}
