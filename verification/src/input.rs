//! Keyboard handling: the line editor with its double-press exit gesture,
//! and the picker that chooses one of several models.

use crate::models::{models_view, Model, ModelView};
use crate::render::{
    print_ops, push_print, push_styled, styled_ops, Color, RenderOp,
};
use crate::text::string_from_chars;
use vstd::prelude::*;

verus! {

/// A key press, as far as the session tells keys apart.
#[derive(Debug, Clone, Copy, PartialEq, Eq)]
pub enum Key {
    /// The interrupt key.
    Esc,
    Enter,
    Backspace,
    Up,
    Down,
    Char(char),
    /// Any other key.
    Other,
}

/// Two presses of the interrupt key less than this many milliseconds apart
/// end the session.
pub const DOUBLE_PRESS_WINDOW_MS: u64 = 500;

/// Whether a key press during a streamed reply asks to interrupt it.
pub fn cancel_requested(key: Option<Key>) -> (out: bool)
    ensures
        out == (key == Some(Key::Esc)),
{
    match key {
        Some(Key::Esc) => true,
        _ => false,
    }
}

/// Milliseconds from `earlier` to `now`; zero if `now` is the earlier one.
pub open spec fn elapsed_ms(now: u64, earlier: u64) -> int {
    if now >= earlier {
        now - earlier
    } else {
        0
    }
}

/// Mathematical model of a [`LineEditor`].
pub ghost struct EditorView {
    /// The characters typed so far.
    pub buffer: Seq<char>,
    /// When the interrupt key was last pressed, unless another key came
    /// after it.
    pub last_interrupt: Option<u64>,
}

/// What a key press leads to.
#[derive(Debug, Clone, PartialEq, Eq)]
pub enum EditorOutcome {
    /// The line is still being typed.
    Editing,
    /// Enter ended the line.
    Submitted(String),
    /// The interrupt key was pressed twice in a row within the window.
    Exit,
}

/// Mathematical model of an [`EditorOutcome`].
pub ghost enum OutcomeView {
    Editing,
    Submitted(Seq<char>),
    Exit,
}

impl View for EditorOutcome {
    type V = OutcomeView;

    open spec fn view(&self) -> OutcomeView {
        match self {
            EditorOutcome::Editing => OutcomeView::Editing,
            EditorOutcome::Submitted(line) => OutcomeView::Submitted(line@),
            EditorOutcome::Exit => OutcomeView::Exit,
        }
    }
}

/// Whether a press of the interrupt key at `now` is the second of two within
/// the window.
pub open spec fn is_double_press(editor: EditorView, now: u64) -> bool {
    editor.last_interrupt matches Some(earlier) && elapsed_ms(now, earlier) < DOUBLE_PRESS_WINDOW_MS
}

/// The editor after a key press at time `now`.
pub open spec fn editor_after(editor: EditorView, key: Key, now: u64) -> EditorView {
    match key {
        Key::Esc => if is_double_press(editor, now) {
            editor
        } else {
            EditorView { buffer: editor.buffer, last_interrupt: Some(now) }
        },
        Key::Enter => EditorView { buffer: Seq::empty(), last_interrupt: None },
        Key::Char(c) => EditorView { buffer: editor.buffer.push(c), last_interrupt: None },
        Key::Backspace => EditorView {
            buffer: if editor.buffer.len() > 0 {
                editor.buffer.drop_last()
            } else {
                editor.buffer
            },
            last_interrupt: None,
        },
        _ => EditorView { buffer: editor.buffer, last_interrupt: None },
    }
}

/// What a key press at time `now` leads to.
pub open spec fn editor_outcome(editor: EditorView, key: Key, now: u64) -> OutcomeView {
    match key {
        Key::Esc => if is_double_press(editor, now) {
            OutcomeView::Exit
        } else {
            OutcomeView::Editing
        },
        Key::Enter => OutcomeView::Submitted(editor.buffer),
        _ => OutcomeView::Editing,
    }
}

/// The farewell shown when the session ends by the double press.
pub open spec fn exit_notice() -> Seq<char> {
    "\n[连续按两次ESC，程序已退出]\n"@
}

/// The terminal operations that a key press calls for: a typed character is
/// echoed, backspace wipes the last character if there is one, Enter breaks
/// the line, the double press shows the farewell.
pub open spec fn editor_ops(editor: EditorView, key: Key, now: u64) -> Seq<RenderOp> {
    match key {
        Key::Esc => if is_double_press(editor, now) {
            seq![RenderOp::MoveToColumnStart] + print_ops(exit_notice()) + seq![
                RenderOp::ResetColor,
                RenderOp::Flush,
            ]
        } else {
            Seq::empty()
        },
        Key::Enter => seq![RenderOp::Print('\n'), RenderOp::MoveToColumnStart, RenderOp::Flush],
        Key::Char(c) => seq![RenderOp::Print(c), RenderOp::Flush],
        Key::Backspace => if editor.buffer.len() > 0 {
            seq![
                RenderOp::Print('\u{8}'),
                RenderOp::Print(' '),
                RenderOp::Print('\u{8}'),
                RenderOp::Flush,
            ]
        } else {
            Seq::empty()
        },
        _ => Seq::empty(),
    }
}

/// Two presses of the interrupt key less than the window apart end the
/// session, at the second press if not already at the first.
pub proof fn lemma_double_press_exits(editor: EditorView, first: u64, second: u64)
    requires
        first <= second,
        second - first < DOUBLE_PRESS_WINDOW_MS,
    ensures
        editor_outcome(editor, Key::Esc, first) is Exit || editor_outcome(
            editor_after(editor, Key::Esc, first),
            Key::Esc,
            second,
        ) is Exit,
{
}

/// Two presses of the interrupt key at least the window apart, the first of
/// them not itself a double press, are both absorbed: the session goes on
/// and the line is as it was.
pub proof fn lemma_slow_presses_are_absorbed(editor: EditorView, first: u64, second: u64)
    requires
        !is_double_press(editor, first),
        first <= second,
        second - first >= DOUBLE_PRESS_WINDOW_MS,
    ensures
        editor_outcome(editor, Key::Esc, first) is Editing,
        editor_outcome(editor_after(editor, Key::Esc, first), Key::Esc, second) is Editing,
        editor_after(editor_after(editor, Key::Esc, first), Key::Esc, second).buffer
            == editor.buffer,
{
}

/// Any key other than the interrupt key resets the window: a press of the
/// interrupt key right after it is a first press again.
pub proof fn lemma_other_key_resets_window(editor: EditorView, key: Key, now: u64, later: u64)
    requires
        key != Key::Esc,
    ensures
        editor_outcome(editor_after(editor, key, now), Key::Esc, later) is Editing,
{
}

/// Reads one line, key by key.
pub struct LineEditor {
    buffer: Vec<char>,
    last_interrupt: Option<u64>,
}

impl View for LineEditor {
    type V = EditorView;

    closed spec fn view(&self) -> EditorView {
        EditorView { buffer: self.buffer@, last_interrupt: self.last_interrupt }
    }
}

impl LineEditor {
    /// An editor with an empty line and no press of the interrupt key
    /// pending.
    pub fn new() -> (out: LineEditor)
        ensures
            out@ == (EditorView { buffer: Seq::empty(), last_interrupt: None }),
    {
        LineEditor { buffer: Vec::new(), last_interrupt: None }
    }

    /// A key was pressed at `now_ms` on a monotonic clock. Appends the
    /// terminal operations to carry out to `ops`.
    pub fn on_key(&mut self, key: Key, now_ms: u64, ops: &mut Vec<RenderOp>) -> (out:
        EditorOutcome)
        ensures
            final(self)@ == editor_after(old(self)@, key, now_ms),
            out@ == editor_outcome(old(self)@, key, now_ms),
            final(ops)@ == old(ops)@ + editor_ops(old(self)@, key, now_ms),
    {
        let ghost before = ops@;
        match key {
            Key::Esc => {
                let double = match self.last_interrupt {
                    Some(earlier) => now_ms < earlier || now_ms - earlier < DOUBLE_PRESS_WINDOW_MS,
                    None => false,
                };
                if double {
                    ops.push(RenderOp::MoveToColumnStart);
                    push_print(ops, "\n[连续按两次ESC，程序已退出]\n");
                    ops.push(RenderOp::ResetColor);
                    ops.push(RenderOp::Flush);
                    assert(ops@ =~= before + editor_ops(old(self)@, key, now_ms));
                    EditorOutcome::Exit
                } else {
                    self.last_interrupt = Some(now_ms);
                    assert(ops@ =~= before + editor_ops(old(self)@, key, now_ms));
                    EditorOutcome::Editing
                }
            },
            Key::Enter => {
                let line = string_from_chars(self.buffer.as_slice());
                self.buffer = Vec::new();
                self.last_interrupt = None;
                ops.push(RenderOp::Print('\n'));
                ops.push(RenderOp::MoveToColumnStart);
                ops.push(RenderOp::Flush);
                assert(ops@ =~= before + editor_ops(old(self)@, key, now_ms));
                EditorOutcome::Submitted(line)
            },
            Key::Char(c) => {
                self.buffer.push(c);
                self.last_interrupt = None;
                ops.push(RenderOp::Print(c));
                ops.push(RenderOp::Flush);
                assert(ops@ =~= before + editor_ops(old(self)@, key, now_ms));
                EditorOutcome::Editing
            },
            Key::Backspace => {
                self.last_interrupt = None;
                if self.buffer.len() > 0 {
                    self.buffer.pop();
                    ops.push(RenderOp::Print('\u{8}'));
                    ops.push(RenderOp::Print(' '));
                    ops.push(RenderOp::Print('\u{8}'));
                    ops.push(RenderOp::Flush);
                }
                assert(ops@ =~= before + editor_ops(old(self)@, key, now_ms));
                EditorOutcome::Editing
            },
            _ => {
                self.last_interrupt = None;
                assert(ops@ =~= before + editor_ops(old(self)@, key, now_ms));
                EditorOutcome::Editing
            },
        }
    }
}

/// Mathematical model of a [`ModelPicker`].
pub ghost struct PickerView {
    pub candidates: Seq<ModelView>,
    /// Index of the highlighted candidate.
    pub selected: nat,
}

/// What a key press in the picker leads to.
#[derive(Debug, Clone, PartialEq, Eq)]
pub enum PickerOutcome {
    /// The choice is still open.
    Choosing,
    /// Enter confirmed the highlighted candidate.
    Confirmed(Model),
    /// The interrupt key called the switch off.
    Cancelled,
}

/// Mathematical model of a [`PickerOutcome`].
pub ghost enum PickView {
    Choosing,
    Confirmed(ModelView),
    Cancelled,
}

impl View for PickerOutcome {
    type V = PickView;

    open spec fn view(&self) -> PickView {
        match self {
            PickerOutcome::Choosing => PickView::Choosing,
            PickerOutcome::Confirmed(model) => PickView::Confirmed(model@),
            PickerOutcome::Cancelled => PickView::Cancelled,
        }
    }
}

/// Whether a picker view is one that a picker can have.
pub open spec fn picker_wf(picker: PickerView) -> bool {
    0 < picker.candidates.len() <= u16::MAX && picker.selected < picker.candidates.len()
}

/// The picker after a key press: Up and Down move the highlight by one and
/// stop at the ends of the list; no other key moves it.
pub open spec fn picker_after(picker: PickerView, key: Key) -> PickerView {
    match key {
        Key::Up => PickerView {
            candidates: picker.candidates,
            selected: if picker.selected > 0 {
                (picker.selected - 1) as nat
            } else {
                picker.selected
            },
        },
        Key::Down => PickerView {
            candidates: picker.candidates,
            selected: if picker.selected + 1 < picker.candidates.len() {
                picker.selected + 1
            } else {
                picker.selected
            },
        },
        _ => picker,
    }
}

/// What a key press in the picker leads to.
pub open spec fn picker_outcome(picker: PickerView, key: Key) -> PickView {
    match key {
        Key::Enter => PickView::Confirmed(picker.candidates[picker.selected as int]),
        Key::Esc => PickView::Cancelled,
        _ => PickView::Choosing,
    }
}

/// One row of the list: the highlighted one is marked.
pub open spec fn picker_row(model: ModelView, highlighted: bool) -> Seq<RenderOp> {
    let mark = if highlighted {
        styled_ops(">"@, Color::Green, false) + print_ops(" "@)
    } else {
        print_ops("  "@)
    };
    mark + print_ops(model.name) + print_ops(" ("@) + print_ops(model.provider) + print_ops(")"@)
}

/// The rows `0..upto` of the list. When the list is drawn again each row is
/// erased first.
pub open spec fn picker_rows(picker: PickerView, upto: int, again: bool) -> Seq<RenderOp>
    decreases upto,
{
    if upto <= 0 {
        Seq::empty()
    } else {
        let start = if again {
            seq![RenderOp::MoveToColumnStart, RenderOp::ClearLine, RenderOp::MoveToColumnStart]
        } else {
            seq![RenderOp::MoveToColumnStart]
        };
        picker_rows(picker, upto - 1, again) + start + picker_row(
            picker.candidates[upto - 1],
            picker.selected == upto - 1,
        ) + seq![RenderOp::Print('\n')]
    }
}

/// Drawing the list for the first time.
pub open spec fn picker_draw_ops(picker: PickerView) -> Seq<RenderOp> {
    picker_rows(picker, picker.candidates.len() as int, false).push(RenderOp::Flush)
}

/// Drawing the list again over itself.
pub open spec fn picker_redraw_ops(picker: PickerView) -> Seq<RenderOp> {
    seq![RenderOp::MoveUp(picker.candidates.len() as u16)] + picker_rows(
        picker,
        picker.candidates.len() as int,
        true,
    ).push(RenderOp::Flush)
}

/// The highlight never leaves the list.
pub proof fn lemma_highlight_stays_in_list(picker: PickerView, key: Key)
    requires
        picker_wf(picker),
    ensures
        picker_wf(picker_after(picker, key)),
        picker_after(picker, key).candidates == picker.candidates,
        picker.selected == 0 ==> picker_after(picker, Key::Up).selected == 0,
        picker.selected + 1 == picker.candidates.len() ==> picker_after(picker, Key::Down).selected
            == picker.selected,
{
}

/// Chooses one of several models with the Up, Down and Enter keys.
pub struct ModelPicker {
    candidates: Vec<Model>,
    selected: usize,
}

impl View for ModelPicker {
    type V = PickerView;

    closed spec fn view(&self) -> PickerView {
        PickerView { candidates: models_view(self.candidates@), selected: self.selected as nat }
    }
}

impl ModelPicker {
    #[verifier::type_invariant]
    spec fn inv(self) -> bool {
        0 < self.candidates@.len() <= u16::MAX && self.selected < self.candidates@.len()
    }

    /// A picker over `candidates` with the first one highlighted; `None` if
    /// there is no candidate or more than the terminal can move over.
    pub fn new(candidates: Vec<Model>) -> (out: Option<ModelPicker>)
        ensures
            match out {
                Some(picker) => 0 < candidates@.len() <= u16::MAX && picker@ == (PickerView {
                    candidates: models_view(candidates@),
                    selected: 0,
                }),
                None => candidates@.len() == 0 || candidates@.len() > u16::MAX,
            },
    {
        if candidates.len() == 0 || candidates.len() > 0xFFFF {
            None
        } else {
            Some(ModelPicker { candidates, selected: 0 })
        }
    }

    /// Index of the highlighted candidate.
    pub fn selected(&self) -> (out: usize)
        ensures
            out == self@.selected,
            out < self@.candidates.len(),
    {
        proof {
            use_type_invariant(self);
        }
        self.selected
    }

    /// Appends the operations that draw the list, for the first time or over
    /// itself.
    pub fn draw(&self, again: bool, ops: &mut Vec<RenderOp>)
        ensures
            final(ops)@ == old(ops)@ + if again {
                picker_redraw_ops(self@)
            } else {
                picker_draw_ops(self@)
            },
    {
        proof {
            use_type_invariant(self);
        }
        let ghost before = ops@;
        let n = self.candidates.len();
        if again {
            ops.push(RenderOp::MoveUp(n as u16));
        }
        let ghost head = ops@;
        let mut i: usize = 0;
        proof {
            assert(ops@ =~= head + picker_rows(self@, 0, again));
        }
        while i < n
            invariant
                i <= n,
                n == self.candidates@.len(),
                self.selected < n,
                ops@ == head + picker_rows(self@, i as int, again),
            decreases n - i,
        {
            let ghost so_far = ops@;
            ops.push(RenderOp::MoveToColumnStart);
            if again {
                ops.push(RenderOp::ClearLine);
                ops.push(RenderOp::MoveToColumnStart);
            }
            let model = &self.candidates[i];
            if i == self.selected {
                push_styled(ops, ">", Color::Green, false);
                push_print(ops, " ");
            } else {
                push_print(ops, "  ");
            }
            push_print(ops, model.name.as_str());
            push_print(ops, " (");
            push_print(ops, model.provider.as_str());
            push_print(ops, ")");
            ops.push(RenderOp::Print('\n'));
            proof {
                assert(self@.candidates[i as int] == model@);
                assert(ops@ =~= so_far + (if again {
                    seq![
                        RenderOp::MoveToColumnStart,
                        RenderOp::ClearLine,
                        RenderOp::MoveToColumnStart,
                    ]
                } else {
                    seq![RenderOp::MoveToColumnStart]
                }) + picker_row(model@, self@.selected == i) + seq![RenderOp::Print('\n')]);
                assert(ops@ =~= head + picker_rows(self@, i + 1, again));
            }
            i += 1;
        }
        ops.push(RenderOp::Flush);
        proof {
            if again {
                assert(ops@ =~= before + picker_redraw_ops(self@));
            } else {
                assert(ops@ =~= before + picker_draw_ops(self@));
            }
        }
    }

    /// A key was pressed. Up and Down move the highlight, Enter confirms it,
    /// the interrupt key calls the switch off.
    pub fn on_key(&mut self, key: Key) -> (out: PickerOutcome)
        ensures
            final(self)@ == picker_after(old(self)@, key),
            out@ == picker_outcome(old(self)@, key),
            picker_wf(old(self)@),
            picker_wf(final(self)@),
    {
        proof {
            use_type_invariant(&*self);
        }
        match key {
            Key::Up => {
                if self.selected > 0 {
                    self.selected = self.selected - 1;
                }
                PickerOutcome::Choosing
            },
            Key::Down => {
                if self.selected + 1 < self.candidates.len() {
                    self.selected = self.selected + 1;
                }
                PickerOutcome::Choosing
            },
            Key::Enter => PickerOutcome::Confirmed(self.candidates[self.selected].duplicate()),
            Key::Esc => PickerOutcome::Cancelled,
            _ => PickerOutcome::Choosing,
        }
    }
}

} // verus!
