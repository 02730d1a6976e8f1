//! The session: what a submitted line means, and the state machine that
//! turns key presses into edits, commands, model switches and chat turns.

use crate::chat::{assistant_role, messages_view, user_role, ChatMessage, MessageView};
use crate::input::{
    editor_after, editor_ops, editor_outcome, picker_after, picker_draw_ops, picker_outcome,
    picker_redraw_ops, picker_wf, EditorOutcome, EditorView, Key, LineEditor, ModelPicker,
    OutcomeView, PickView, PickerOutcome, PickerView,
};
use crate::models::{
    find_models, matching, matching_in, models_view, registry, Model, ModelView,
};
use crate::render::{print_ops, push_print, push_styled, styled_ops, Color, RenderOp};
use crate::text::{
    chars_of, eq_ignore_ascii_case, equals_ignore_ascii_case, trim, trimmed,
};
use vstd::prelude::*;

verus! {

/// What a submitted line asks for.
#[derive(Debug, Clone, PartialEq, Eq)]
pub enum Command {
    /// Leave the session.
    Exit,
    /// Forget the conversation so far.
    Clear,
    /// Switch to the one model that the line matches.
    Switch(Model),
    /// Choose among the several models that the line matches.
    Choose(Vec<Model>),
    /// Send the line to the model.
    Chat(String),
}

/// Mathematical model of a [`Command`].
pub ghost enum CommandView {
    Exit,
    Clear,
    Switch(ModelView),
    Choose(Seq<ModelView>),
    Chat(Seq<char>),
}

impl View for Command {
    type V = CommandView;

    open spec fn view(&self) -> CommandView {
        match self {
            Command::Exit => CommandView::Exit,
            Command::Clear => CommandView::Clear,
            Command::Switch(model) => CommandView::Switch(model@),
            Command::Choose(models) => CommandView::Choose(models_view(models@)),
            Command::Chat(message) => CommandView::Chat(message@),
        }
    }
}

/// What a line asks for. The line is trimmed first. `exit` and `clear`, in
/// any letter case, are commands; a line that matches registered models
/// switches the model; any other line is a chat message.
pub open spec fn command_of(line: Seq<char>) -> CommandView {
    let input = trim(line);
    if eq_ignore_ascii_case(input, "exit"@) {
        CommandView::Exit
    } else if eq_ignore_ascii_case(input, "clear"@) {
        CommandView::Clear
    } else {
        let found = matching_in(registry(), input);
        if found.len() == 1 {
            CommandView::Switch(found[0])
        } else if found.len() > 1 {
            CommandView::Choose(found)
        } else {
            CommandView::Chat(input)
        }
    }
}

/// What a line asks for.
pub fn interpret(line: &str) -> (out: Command)
    ensures
        out@ == command_of(line@),
{
    let input = trimmed(line);
    let chars = chars_of(input.as_str());
    let exit = chars_of("exit");
    let clear = chars_of("clear");
    if equals_ignore_ascii_case(chars.as_slice(), exit.as_slice()) {
        Command::Exit
    } else if equals_ignore_ascii_case(chars.as_slice(), clear.as_slice()) {
        Command::Clear
    } else {
        let mut found = find_models(input.as_str());
        if found.len() == 1 {
            let model = found.swap_remove(0);
            Command::Switch(model)
        } else if found.len() > 1 {
            Command::Choose(found)
        } else {
            Command::Chat(input)
        }
    }
}

/// No more models match than there are.
pub proof fn lemma_matching_len(models: Seq<ModelView>, query: Seq<char>)
    ensures
        matching(models, query).len() <= models.len(),
    decreases models.len(),
{
    if models.len() > 0 {
        lemma_matching_len(models.drop_last(), query);
    }
}

/// A query matches at most the five registered models.
pub proof fn lemma_registry_matches_are_few(query: Seq<char>)
    ensures
        matching_in(registry(), query).len() <= 5,
{
    let all = registry();
    assert(all.len() == 2);
    let first = all.drop_last();
    assert(first.len() == 1);
    assert(first.drop_last().len() == 0);
    assert(matching_in(first.drop_last(), query).len() == 0);
    assert(first.last() == all[0]);
    assert(all.last() == all[1]);
    assert(all[0].models.len() == 2);
    assert(all[1].models.len() == 3);
    lemma_matching_len(all[0].models, query);
    lemma_matching_len(all[1].models, query);
    assert(matching_in(first, query).len() <= 2);
    assert(matching_in(all, query) == matching_in(first, query) + matching(all[1].models, query));
}

/// Where the session stands.
#[derive(Debug, Clone, Copy, PartialEq, Eq)]
pub enum SessionState {
    /// A line is being typed.
    AwaitingInput,
    /// One of several matching models is being chosen.
    ModelSwitchPrompt,
    /// A reply is being streamed.
    Streaming,
    /// The session is over.
    Exited,
}

/// The model that a new session talks to.
pub open spec fn default_model() -> Seq<char> {
    "google/gemini-2.0-flash-001"@
}

/// Mathematical model of a [`Session`].
pub ghost struct SessionView {
    pub state: SessionState,
    /// The conversation so far.
    pub history: Seq<MessageView>,
    /// Identifier of the model that chat messages go to.
    pub current_model: Seq<char>,
    pub editor: EditorView,
    /// The picker, while a model is being chosen.
    pub picker: Option<PickerView>,
}

/// A chat turn to begin: send `message` to the model `model_id`.
#[derive(Debug, Clone, PartialEq, Eq)]
pub struct TurnStart {
    pub model_id: String,
    pub message: String,
}

/// Mathematical model of a [`TurnStart`].
pub ghost struct TurnStartView {
    pub model_id: Seq<char>,
    pub message: Seq<char>,
}

impl View for TurnStart {
    type V = TurnStartView;

    open spec fn view(&self) -> TurnStartView {
        TurnStartView { model_id: self.model_id@, message: self.message@ }
    }
}

/// The view of an optional turn start.
pub open spec fn begin_view(begin: Option<TurnStart>) -> Option<TurnStartView> {
    match begin {
        Some(start) => Some(start@),
        None => None,
    }
}

/// The prompt in front of the line being typed.
pub open spec fn prompt_ops() -> Seq<RenderOp> {
    seq![RenderOp::MoveToColumnStart] + styled_ops("你:"@, Color::Cyan, true) + print_ops(" "@)
        + seq![RenderOp::Flush]
}

/// The greeting of a new session.
pub open spec fn welcome_ops() -> Seq<RenderOp> {
    styled_ops(
        "欢迎使用Hambur，输入'exit'退出，'clear'清空聊天记录，直接输入模型关键字切换模型，连续按两次ESC退出程序"@,
        Color::Blue,
        true,
    ) + print_ops("\n"@)
}

/// The notice that the conversation was cleared.
pub open spec fn cleared_ops() -> Seq<RenderOp> {
    seq![RenderOp::MoveToColumnStart] + styled_ops("[聊天记录已清空]\n"@, Color::Yellow, false)
}

/// The notice that the model was switched.
pub open spec fn switched_ops(name: Seq<char>) -> Seq<RenderOp> {
    seq![RenderOp::MoveToColumnStart, RenderOp::SetForeground(Color::Green)] + print_ops(
        "已切换到模型: "@,
    ) + print_ops(name) + print_ops("\n"@) + seq![RenderOp::ResetColor]
}

/// The heading above the list of matching models.
pub open spec fn choose_ops() -> Seq<RenderOp> {
    seq![RenderOp::MoveToColumnStart] + styled_ops(
        "找到多个匹配的模型，请使用上下方向键选择:\n"@,
        Color::Yellow,
        false,
    )
}

/// The notice that the switch was called off.
pub open spec fn cancelled_ops() -> Seq<RenderOp> {
    seq![RenderOp::MoveToColumnStart] + styled_ops("\n已取消模型切换\n"@, Color::Yellow, false)
}

/// The label in front of a reply.
pub open spec fn reply_label_ops() -> Seq<RenderOp> {
    seq![RenderOp::MoveToColumnStart] + styled_ops("AI:"@, Color::Green, true) + print_ops(" "@)
        + seq![RenderOp::Flush]
}

/// A picker over `found` with the first candidate highlighted.
pub open spec fn picker_over(found: Seq<ModelView>) -> PickerView {
    PickerView { candidates: found, selected: 0 }
}

/// The session after a command, given the editor after the line was
/// submitted.
pub open spec fn after_command(session: SessionView, command: CommandView) -> SessionView {
    match command {
        CommandView::Exit => SessionView { state: SessionState::Exited, ..session },
        CommandView::Clear => SessionView { history: Seq::empty(), ..session },
        CommandView::Switch(model) => SessionView { current_model: model.id, ..session },
        CommandView::Choose(found) => SessionView {
            state: SessionState::ModelSwitchPrompt,
            picker: Some(picker_over(found)),
            ..session
        },
        CommandView::Chat(message) => SessionView {
            state: SessionState::Streaming,
            history: session.history.push(MessageView { role: user_role(), content: message }),
            ..session
        },
    }
}

/// The terminal operations that a command calls for.
pub open spec fn command_ops(command: CommandView) -> Seq<RenderOp> {
    match command {
        CommandView::Exit => Seq::empty(),
        CommandView::Clear => cleared_ops() + prompt_ops(),
        CommandView::Switch(model) => switched_ops(model.name) + prompt_ops(),
        CommandView::Choose(found) => choose_ops() + picker_draw_ops(picker_over(found)),
        CommandView::Chat(_) => reply_label_ops(),
    }
}

/// The session after a key press at time `now`.
pub open spec fn session_after_key(session: SessionView, key: Key, now: u64) -> SessionView {
    match session.state {
        SessionState::AwaitingInput => {
            let typed = SessionView { editor: editor_after(session.editor, key, now), ..session };
            match editor_outcome(session.editor, key, now) {
                OutcomeView::Editing => typed,
                OutcomeView::Exit => SessionView { state: SessionState::Exited, ..typed },
                OutcomeView::Submitted(line) => after_command(typed, command_of(line)),
            }
        },
        SessionState::ModelSwitchPrompt => match session.picker {
            Some(picker) => match picker_outcome(picker, key) {
                PickView::Choosing => SessionView {
                    picker: Some(picker_after(picker, key)),
                    ..session
                },
                PickView::Confirmed(model) => SessionView {
                    state: SessionState::AwaitingInput,
                    current_model: model.id,
                    picker: None,
                    ..session
                },
                PickView::Cancelled => SessionView {
                    state: SessionState::AwaitingInput,
                    picker: None,
                    ..session
                },
            },
            None => session,
        },
        _ => session,
    }
}

/// The terminal operations that a key press at time `now` calls for.
pub open spec fn session_key_ops(session: SessionView, key: Key, now: u64) -> Seq<RenderOp> {
    match session.state {
        SessionState::AwaitingInput => editor_ops(session.editor, key, now) + (match editor_outcome(
            session.editor,
            key,
            now,
        ) {
            OutcomeView::Submitted(line) => command_ops(command_of(line)),
            _ => Seq::empty(),
        }),
        SessionState::ModelSwitchPrompt => match session.picker {
            Some(picker) => match picker_outcome(picker, key) {
                PickView::Choosing => picker_redraw_ops(picker_after(picker, key)),
                PickView::Confirmed(model) => switched_ops(model.name) + prompt_ops(),
                PickView::Cancelled => cancelled_ops() + prompt_ops(),
            },
            None => Seq::empty(),
        },
        _ => Seq::empty(),
    }
}

/// The chat turn that a key press at time `now` begins, if it begins one.
pub open spec fn session_begins(session: SessionView, key: Key, now: u64) -> Option<
    TurnStartView,
> {
    if session.state == SessionState::AwaitingInput {
        match editor_outcome(session.editor, key, now) {
            OutcomeView::Submitted(line) => match command_of(line) {
                CommandView::Chat(message) => Some(
                    TurnStartView { model_id: session.current_model, message },
                ),
                _ => None,
            },
            _ => None,
        }
    } else {
        None
    }
}

/// The session after a chat turn has ended with `reply`.
pub open spec fn after_reply(session: SessionView, reply: Seq<char>) -> SessionView {
    if session.state == SessionState::Streaming {
        SessionView {
            state: SessionState::AwaitingInput,
            history: session.history.push(MessageView { role: assistant_role(), content: reply }),
            ..session
        }
    } else {
        session
    }
}

/// Whether a history is a run of completed turns: a message of the user,
/// then one of the model, and so on.
pub open spec fn alternates(history: Seq<MessageView>) -> bool {
    &&& history.len() % 2 == 0
    &&& forall|i: int|
        0 <= i < history.len() ==> (#[trigger] history[i]).role == if i % 2 == 0 {
            user_role()
        } else {
            assistant_role()
        }
}

/// Whether a session view is one that a session can have: the picker is
/// there exactly while a model is being chosen, and the history is a run of
/// completed turns, followed by the user's message while a reply is being
/// streamed.
pub open spec fn session_wf(session: SessionView) -> bool {
    &&& session.state == SessionState::ModelSwitchPrompt <==> session.picker is Some
    &&& session.picker matches Some(picker) ==> picker_wf(picker)
    &&& if session.state == SessionState::Streaming {
        &&& session.history.len() > 0
        &&& session.history.last().role == user_role()
        &&& alternates(session.history.drop_last())
    } else {
        alternates(session.history)
    }
}

/// A key press keeps the session well formed.
pub proof fn lemma_key_keeps_session_wf(session: SessionView, key: Key, now: u64)
    requires
        session_wf(session),
    ensures
        session_wf(session_after_key(session, key, now)),
{
    let next = session_after_key(session, key, now);
    if session.state == SessionState::AwaitingInput {
        if let OutcomeView::Submitted(line) = editor_outcome(session.editor, key, now) {
            match command_of(line) {
                CommandView::Choose(found) => {
                    lemma_registry_matches_are_few(trim(line));
                },
                CommandView::Chat(message) => {
                    assert(next.history.drop_last() =~= session.history);
                },
                _ => {},
            }
        }
    }
}

/// The end of a turn keeps the session well formed: the history is again a
/// run of completed turns.
pub proof fn lemma_reply_keeps_session_wf(session: SessionView, reply: Seq<char>)
    requires
        session_wf(session),
    ensures
        session_wf(after_reply(session, reply)),
        after_reply(session, reply).state != SessionState::Streaming,
        alternates(after_reply(session, reply).history),
{
    if session.state == SessionState::Streaming {
        let before = session.history.drop_last();
        let next = after_reply(session, reply).history;
        assert forall|i: int| 0 <= i < next.len() implies (#[trigger] next[i]).role == if i % 2
            == 0 {
            user_role()
        } else {
            assistant_role()
        } by {
            if i < before.len() {
                assert(next[i] == before[i]);
            }
        }
    }
}

/// A session that is over stays over, whatever key is pressed.
pub proof fn lemma_exited_is_final(session: SessionView, key: Key, now: u64)
    requires
        session.state == SessionState::Exited,
    ensures
        session_after_key(session, key, now) == session,
        session_key_ops(session, key, now) == Seq::<RenderOp>::empty(),
        session_begins(session, key, now) is None,
{
}

/// A session that has just begun.
pub open spec fn initial_session() -> SessionView {
    SessionView {
        state: SessionState::AwaitingInput,
        history: Seq::empty(),
        current_model: default_model(),
        editor: EditorView { buffer: Seq::empty(), last_interrupt: None },
        picker: None,
    }
}

/// A session that has just begun is well formed.
pub proof fn lemma_initial_session_wf()
    ensures
        session_wf(initial_session()),
{
}

fn push_prompt(ops: &mut Vec<RenderOp>)
    ensures
        final(ops)@ == old(ops)@ + prompt_ops(),
{
    ops.push(RenderOp::MoveToColumnStart);
    push_styled(ops, "你:", Color::Cyan, true);
    push_print(ops, " ");
    ops.push(RenderOp::Flush);
    assert(ops@ =~= old(ops)@ + prompt_ops());
}

fn push_switched(ops: &mut Vec<RenderOp>, name: &str)
    ensures
        final(ops)@ == old(ops)@ + switched_ops(name@),
{
    ops.push(RenderOp::MoveToColumnStart);
    ops.push(RenderOp::SetForeground(Color::Green));
    push_print(ops, "已切换到模型: ");
    push_print(ops, name);
    push_print(ops, "\n");
    ops.push(RenderOp::ResetColor);
    assert(ops@ =~= old(ops)@ + switched_ops(name@));
}

fn push_heading(ops: &mut Vec<RenderOp>, text: &str)
    ensures
        final(ops)@ == old(ops)@ + (seq![RenderOp::MoveToColumnStart] + styled_ops(
            text@,
            Color::Yellow,
            false,
        )),
{
    ops.push(RenderOp::MoveToColumnStart);
    push_styled(ops, text, Color::Yellow, false);
    assert(ops@ =~= old(ops)@ + (seq![RenderOp::MoveToColumnStart] + styled_ops(
        text@,
        Color::Yellow,
        false,
    )));
}

fn push_reply_label(ops: &mut Vec<RenderOp>)
    ensures
        final(ops)@ == old(ops)@ + reply_label_ops(),
{
    ops.push(RenderOp::MoveToColumnStart);
    push_styled(ops, "AI:", Color::Green, true);
    push_print(ops, " ");
    ops.push(RenderOp::Flush);
    assert(ops@ =~= old(ops)@ + reply_label_ops());
}

/// What a key press gives the caller to do.
#[derive(Debug, Clone, PartialEq, Eq)]
pub struct Step {
    /// Terminal operations to carry out, in order.
    pub ops: Vec<RenderOp>,
    /// The chat turn to begin, if the key press submitted a chat message.
    pub begin: Option<TurnStart>,
}

enum Mode {
    AwaitingInput,
    ModelSwitchPrompt(ModelPicker),
    Streaming,
    Exited,
}

/// An interactive session: the conversation, the model in use, and what the
/// keyboard is doing.
pub struct Session {
    mode: Mode,
    history: Vec<ChatMessage>,
    current_model: String,
    editor: LineEditor,
}

impl View for Session {
    type V = SessionView;

    closed spec fn view(&self) -> SessionView {
        SessionView {
            state: match self.mode {
                Mode::AwaitingInput => SessionState::AwaitingInput,
                Mode::ModelSwitchPrompt(_) => SessionState::ModelSwitchPrompt,
                Mode::Streaming => SessionState::Streaming,
                Mode::Exited => SessionState::Exited,
            },
            history: messages_view(self.history@),
            current_model: self.current_model@,
            editor: self.editor@,
            picker: match self.mode {
                Mode::ModelSwitchPrompt(picker) => Some(picker@),
                _ => None,
            },
        }
    }
}

impl Session {
    /// A session that has just begun: no history, the default model, an
    /// empty line.
    pub fn new() -> (out: Session)
        ensures
            out@ == initial_session(),
    {
        let out = Session {
            mode: Mode::AwaitingInput,
            history: Vec::new(),
            current_model: "google/gemini-2.0-flash-001".to_owned(),
            editor: LineEditor::new(),
        };
        assert(out@.history =~= Seq::<MessageView>::empty());
        out
    }

    /// The greeting and the first prompt.
    pub fn greeting() -> (ops: Vec<RenderOp>)
        ensures
            ops@ == welcome_ops() + prompt_ops(),
    {
        let mut ops: Vec<RenderOp> = Vec::new();
        push_styled(
            &mut ops,
            "欢迎使用Hambur，输入'exit'退出，'clear'清空聊天记录，直接输入模型关键字切换模型，连续按两次ESC退出程序",
            Color::Blue,
            true,
        );
        push_print(&mut ops, "\n");
        push_prompt(&mut ops);
        assert(ops@ =~= welcome_ops() + prompt_ops());
        ops
    }

    /// Where the session stands.
    pub fn state(&self) -> (out: SessionState)
        ensures
            out == self@.state,
    {
        match self.mode {
            Mode::AwaitingInput => SessionState::AwaitingInput,
            Mode::ModelSwitchPrompt(_) => SessionState::ModelSwitchPrompt,
            Mode::Streaming => SessionState::Streaming,
            Mode::Exited => SessionState::Exited,
        }
    }

    /// The conversation so far.
    pub fn history(&self) -> (out: &Vec<ChatMessage>)
        ensures
            messages_view(out@) == self@.history,
    {
        &self.history
    }

    /// Identifier of the model that chat messages go to.
    pub fn current_model(&self) -> (out: &str)
        ensures
            out@ == self@.current_model,
    {
        self.current_model.as_str()
    }

    fn apply(&mut self, command: Command, ops: &mut Vec<RenderOp>) -> (begin: Option<TurnStart>)
        requires
            old(self)@.picker is None,
            command@ matches CommandView::Choose(found) ==> 1 < found.len() <= 5,
        ensures
            final(self)@ == after_command(
                SessionView { state: SessionState::AwaitingInput, ..old(self)@ },
                command@,
            ),
            final(ops)@ == old(ops)@ + command_ops(command@),
            begin_view(begin) == match command@ {
                CommandView::Chat(message) => Some(
                    TurnStartView { model_id: old(self)@.current_model, message },
                ),
                _ => None,
            },
    {
        let ghost before = ops@;
        match command {
            Command::Exit => {
                self.mode = Mode::Exited;
                assert(ops@ =~= before + command_ops(command@));
                None
            },
            Command::Clear => {
                self.history = Vec::new();
                self.mode = Mode::AwaitingInput;
                push_heading(ops, "[聊天记录已清空]\n");
                push_prompt(ops);
                assert(self@.history =~= Seq::<MessageView>::empty());
                assert(ops@ =~= before + command_ops(command@));
                None
            },
            Command::Switch(model) => {
                push_switched(ops, model.name.as_str());
                push_prompt(ops);
                self.current_model = model.id;
                self.mode = Mode::AwaitingInput;
                assert(ops@ =~= before + command_ops(command@));
                None
            },
            Command::Choose(found) => {
                let ghost candidates = models_view(found@);
                match ModelPicker::new(found) {
                    Some(picker) => {
                        push_heading(ops, "找到多个匹配的模型，请使用上下方向键选择:\n");
                        picker.draw(false, ops);
                        self.mode = Mode::ModelSwitchPrompt(picker);
                        assert(ops@ =~= before + command_ops(command@));
                    },
                    None => {
                        self.mode = Mode::AwaitingInput;
                    },
                }
                None
            },
            Command::Chat(message) => {
                let ghost earlier = self.history@;
                let entry = ChatMessage::user(message.as_str());
                self.history.push(entry);
                self.mode = Mode::Streaming;
                push_reply_label(ops);
                assert(messages_view(self.history@) =~= messages_view(earlier).push(entry@));
                Some(TurnStart { model_id: self.current_model.clone(), message })
            },
        }
    }

    /// A key was pressed at `now_ms` on a monotonic clock. While a line is
    /// being typed the key edits it, and Enter submits it as a command or a
    /// chat message; while a model is being chosen the key moves, confirms
    /// or calls off the choice; at any other time the key is ignored.
    pub fn on_key(&mut self, key: Key, now_ms: u64) -> (step: Step)
        ensures
            final(self)@ == session_after_key(old(self)@, key, now_ms),
            step.ops@ == session_key_ops(old(self)@, key, now_ms),
            begin_view(step.begin) == session_begins(old(self)@, key, now_ms),
    {
        let mut ops: Vec<RenderOp> = Vec::new();
        let mut begin: Option<TurnStart> = None;
        let mut mode = Mode::Exited;
        std::mem::swap(&mut mode, &mut self.mode);
        match mode {
            Mode::AwaitingInput => {
                let outcome = self.editor.on_key(key, now_ms, &mut ops);
                match outcome {
                    EditorOutcome::Editing => {
                        self.mode = Mode::AwaitingInput;
                        assert(ops@ =~= session_key_ops(old(self)@, key, now_ms));
                    },
                    EditorOutcome::Exit => {
                        self.mode = Mode::Exited;
                        assert(ops@ =~= session_key_ops(old(self)@, key, now_ms));
                    },
                    EditorOutcome::Submitted(line) => {
                        let command = interpret(line.as_str());
                        proof {
                            lemma_registry_matches_are_few(trim(line@));
                        }
                        begin = self.apply(command, &mut ops);
                        assert(ops@ =~= session_key_ops(old(self)@, key, now_ms));
                    },
                }
            },
            Mode::ModelSwitchPrompt(picker) => {
                let mut picker = picker;
                let outcome = picker.on_key(key);
                match outcome {
                    PickerOutcome::Choosing => {
                        picker.draw(true, &mut ops);
                        self.mode = Mode::ModelSwitchPrompt(picker);
                        assert(ops@ =~= session_key_ops(old(self)@, key, now_ms));
                    },
                    PickerOutcome::Confirmed(model) => {
                        push_switched(&mut ops, model.name.as_str());
                        push_prompt(&mut ops);
                        self.current_model = model.id;
                        self.mode = Mode::AwaitingInput;
                        assert(ops@ =~= session_key_ops(old(self)@, key, now_ms));
                    },
                    PickerOutcome::Cancelled => {
                        push_heading(&mut ops, "\n已取消模型切换\n");
                        push_prompt(&mut ops);
                        self.mode = Mode::AwaitingInput;
                        assert(ops@ =~= session_key_ops(old(self)@, key, now_ms));
                    },
                }
            },
            Mode::Streaming => {
                self.mode = Mode::Streaming;
            },
            Mode::Exited => {
                self.mode = Mode::Exited;
            },
        }
        Step { ops, begin }
    }

    /// The chat turn has ended with `reply`: the reply joins the history and
    /// the next line can be typed. Hands out the prompt to show. A session
    /// that is not streaming a reply stays as it is.
    pub fn complete_turn(&mut self, reply: &str) -> (ops: Vec<RenderOp>)
        ensures
            final(self)@ == after_reply(old(self)@, reply@),
            ops@ == if old(self)@.state == SessionState::Streaming {
                prompt_ops()
            } else {
                Seq::<RenderOp>::empty()
            },
    {
        let mut ops: Vec<RenderOp> = Vec::new();
        match self.mode {
            Mode::Streaming => {
                let ghost earlier = self.history@;
                let entry = ChatMessage::assistant(reply);
                self.history.push(entry);
                self.mode = Mode::AwaitingInput;
                push_prompt(&mut ops);
                assert(messages_view(self.history@) =~= messages_view(earlier).push(entry@));
                assert(ops@ =~= prompt_ops());
            },
            _ => {},
        }
        ops
    }
}

} // verus!
