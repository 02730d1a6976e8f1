use hambur::input::{
    cancel_requested, EditorOutcome, Key, LineEditor, ModelPicker, PickerOutcome,
    DOUBLE_PRESS_WINDOW_MS,
};
use hambur::models::{find_models, Model};
use hambur::render::{Color, RenderOp};

fn shown(ops: &[RenderOp]) -> String {
    ops.iter()
        .filter_map(|op| match op {
            RenderOp::Print(c) => Some(*c),
            _ => None,
        })
        .collect()
}

fn model(id: &str, name: &str) -> Model {
    Model { id: id.to_string(), name: name.to_string(), provider: "p".to_string() }
}

#[test]
fn only_the_interrupt_key_cancels() {
    assert!(cancel_requested(Some(Key::Esc)));
    assert!(!cancel_requested(Some(Key::Enter)));
    assert!(!cancel_requested(Some(Key::Char('q'))));
    assert!(!cancel_requested(None));
}

#[test]
fn double_press_within_the_window_exits() {
    assert_eq!(DOUBLE_PRESS_WINDOW_MS, 500);
    let mut editor = LineEditor::new();
    let mut ops = Vec::new();
    assert_eq!(editor.on_key(Key::Esc, 1_000, &mut ops), EditorOutcome::Editing);
    assert!(ops.is_empty());
    assert_eq!(editor.on_key(Key::Esc, 1_499, &mut ops), EditorOutcome::Exit);
    assert_eq!(shown(&ops), "\n[\u{8fde}\u{7eed}\u{6309}\u{4e24}\u{6b21}ESC\u{ff0c}\u{7a0b}\u{5e8f}\u{5df2}\u{9000}\u{51fa}]\n");
    assert_eq!(ops.first(), Some(&RenderOp::MoveToColumnStart));
}

#[test]
fn single_press_then_600ms_idle_then_press_does_not_exit() {
    let mut editor = LineEditor::new();
    let mut ops = Vec::new();
    assert_eq!(editor.on_key(Key::Esc, 5_000, &mut ops), EditorOutcome::Editing);
    assert_eq!(editor.on_key(Key::Esc, 5_600, &mut ops), EditorOutcome::Editing);
    assert!(ops.is_empty());
    assert_eq!(editor.on_key(Key::Esc, 5_700, &mut ops), EditorOutcome::Exit);
}

#[test]
fn presses_exactly_the_window_apart_do_not_exit() {
    let mut editor = LineEditor::new();
    let mut ops = Vec::new();
    assert_eq!(editor.on_key(Key::Esc, 0, &mut ops), EditorOutcome::Editing);
    assert_eq!(editor.on_key(Key::Esc, 500, &mut ops), EditorOutcome::Editing);
}

#[test]
fn any_other_key_resets_the_window() {
    for key in [Key::Char('x'), Key::Backspace, Key::Up, Key::Down, Key::Other, Key::Enter] {
        let mut editor = LineEditor::new();
        let mut ops = Vec::new();
        assert_eq!(editor.on_key(Key::Esc, 100, &mut ops), EditorOutcome::Editing);
        editor.on_key(key, 150, &mut ops);
        assert_eq!(editor.on_key(Key::Esc, 200, &mut ops), EditorOutcome::Editing, "{:?}", key);
    }
}

#[test]
fn a_clock_that_steps_back_counts_as_no_time_passed() {
    let mut editor = LineEditor::new();
    let mut ops = Vec::new();
    assert_eq!(editor.on_key(Key::Esc, 900, &mut ops), EditorOutcome::Editing);
    assert_eq!(editor.on_key(Key::Esc, 100, &mut ops), EditorOutcome::Exit);
}

#[test]
fn typing_backspace_and_enter() {
    let mut editor = LineEditor::new();
    let mut ops = Vec::new();
    assert_eq!(editor.on_key(Key::Backspace, 0, &mut ops), EditorOutcome::Editing);
    assert!(ops.is_empty());
    assert_eq!(editor.on_key(Key::Char('h'), 1, &mut ops), EditorOutcome::Editing);
    assert_eq!(ops, vec![RenderOp::Print('h'), RenderOp::Flush]);
    editor.on_key(Key::Char('\u{e9}'), 2, &mut ops);
    editor.on_key(Key::Char('y'), 3, &mut ops);
    let mut erase = Vec::new();
    assert_eq!(editor.on_key(Key::Backspace, 4, &mut erase), EditorOutcome::Editing);
    assert_eq!(
        erase,
        vec![
            RenderOp::Print('\u{8}'),
            RenderOp::Print(' '),
            RenderOp::Print('\u{8}'),
            RenderOp::Flush,
        ]
    );
    editor.on_key(Key::Up, 5, &mut ops);
    editor.on_key(Key::Other, 6, &mut ops);
    let mut enter = Vec::new();
    assert_eq!(
        editor.on_key(Key::Enter, 7, &mut enter),
        EditorOutcome::Submitted("h\u{e9}".to_string())
    );
    assert_eq!(
        enter,
        vec![RenderOp::Print('\n'), RenderOp::MoveToColumnStart, RenderOp::Flush]
    );
    assert_eq!(editor.on_key(Key::Enter, 8, &mut enter), EditorOutcome::Submitted(String::new()));
}

#[test]
fn picker_needs_candidates() {
    assert!(ModelPicker::new(Vec::new()).is_none());
    assert!(ModelPicker::new(vec![model("a", "A")]).is_some());
    let many: Vec<Model> = (0..65_536).map(|i| model(&i.to_string(), "m")).collect();
    assert!(ModelPicker::new(many).is_none());
    let most: Vec<Model> = (0..65_535).map(|i| model(&i.to_string(), "m")).collect();
    assert!(ModelPicker::new(most).is_some());
}

#[test]
fn picker_moves_within_bounds_without_wrapping() {
    let mut picker =
        ModelPicker::new(vec![model("a", "A"), model("b", "B"), model("c", "C")]).unwrap();
    assert_eq!(picker.selected(), 0);
    assert_eq!(picker.on_key(Key::Up), PickerOutcome::Choosing);
    assert_eq!(picker.selected(), 0);
    picker.on_key(Key::Down);
    assert_eq!(picker.selected(), 1);
    picker.on_key(Key::Down);
    assert_eq!(picker.selected(), 2);
    picker.on_key(Key::Down);
    assert_eq!(picker.selected(), 2);
    picker.on_key(Key::Char('j'));
    picker.on_key(Key::Other);
    picker.on_key(Key::Backspace);
    assert_eq!(picker.selected(), 2);
    picker.on_key(Key::Up);
    assert_eq!(picker.selected(), 1);
    assert_eq!(picker.on_key(Key::Enter), PickerOutcome::Confirmed(model("b", "B")));
    assert_eq!(picker.on_key(Key::Esc), PickerOutcome::Cancelled);
    assert_eq!(picker.selected(), 1);
}

#[test]
fn picker_draws_the_list_with_the_highlight() {
    let mut picker = ModelPicker::new(find_models("flash")).unwrap();
    let mut first = Vec::new();
    picker.draw(false, &mut first);
    assert_eq!(
        shown(&first),
        "> gemini-flash (openrouter)\n  gemini-flash-lite (openrouter)\n"
    );
    assert_eq!(first[0], RenderOp::MoveToColumnStart);
    assert_eq!(first[1], RenderOp::SetForeground(Color::Green));
    assert_eq!(first[2], RenderOp::Print('>'));
    assert_eq!(first[3], RenderOp::ResetColor);
    assert_eq!(first.last(), Some(&RenderOp::Flush));
    assert!(!first.contains(&RenderOp::ClearLine));
    picker.on_key(Key::Down);
    let mut again = Vec::new();
    picker.draw(true, &mut again);
    assert_eq!(again[0], RenderOp::MoveUp(2));
    assert_eq!(
        &again[1..4],
        &[RenderOp::MoveToColumnStart, RenderOp::ClearLine, RenderOp::MoveToColumnStart]
    );
    assert_eq!(
        shown(&again),
        "  gemini-flash (openrouter)\n> gemini-flash-lite (openrouter)\n"
    );
    assert_eq!(again.iter().filter(|op| **op == RenderOp::ClearLine).count(), 2);
}
