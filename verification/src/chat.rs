//! The wire types of the chat-completions protocol, and the reading of a
//! streamed response object out of a JSON value.

use crate::json::{find_member, lemma_array_view, lemma_object_view, lookup, members_view, items_view, Json, JsonField, JsonMember, JsonValue};
use vstd::prelude::*;

verus! {

/// One entry of the conversation history.
#[derive(Debug, Clone, PartialEq, Eq)]
pub struct ChatMessage {
    pub role: String,
    pub content: String,
}

/// The body of a completion request.
#[derive(Debug, Clone, PartialEq, Eq)]
pub struct ChatRequest {
    pub model: String,
    pub messages: Vec<ChatMessage>,
    pub stream: bool,
}

/// One streamed response object.
#[derive(Debug, Clone, PartialEq, Eq)]
pub struct ChatResponse {
    pub choices: Vec<ChatResponseChoice>,
}

/// One alternative of a streamed response object.
#[derive(Debug, Clone, PartialEq, Eq)]
pub struct ChatResponseChoice {
    pub delta: ChatResponseDelta,
}

/// The incremental part of a choice: answer text, reasoning text, both or
/// neither.
#[derive(Debug, Clone, PartialEq, Eq)]
pub struct ChatResponseDelta {
    pub content: Option<String>,
    pub reasoning_content: Option<String>,
}

/// Mathematical model of a [`ChatMessage`].
pub ghost struct MessageView {
    pub role: Seq<char>,
    pub content: Seq<char>,
}

/// Mathematical model of a [`ChatRequest`].
pub ghost struct RequestView {
    pub model: Seq<char>,
    pub messages: Seq<MessageView>,
    pub stream: bool,
}

/// Mathematical model of a [`ChatResponseDelta`].
pub ghost struct DeltaView {
    pub content: Option<Seq<char>>,
    pub reasoning_content: Option<Seq<char>>,
}

/// Mathematical model of a [`ChatResponseChoice`].
pub ghost struct ChoiceView {
    pub delta: DeltaView,
}

/// Mathematical model of a [`ChatResponse`].
pub ghost struct ResponseView {
    pub choices: Seq<ChoiceView>,
}

/// The characters of an optional string.
pub open spec fn optional_text_view(text: Option<String>) -> Option<Seq<char>> {
    match text {
        Some(s) => Some(s@),
        None => None,
    }
}

/// The models of a run of messages.
pub open spec fn messages_view(messages: Seq<ChatMessage>) -> Seq<MessageView> {
    Seq::new(messages.len(), |i: int| messages[i]@)
}

/// The models of a run of choices.
pub open spec fn choices_view(choices: Seq<ChatResponseChoice>) -> Seq<ChoiceView> {
    Seq::new(choices.len(), |i: int| choices[i]@)
}

impl View for ChatMessage {
    type V = MessageView;

    open spec fn view(&self) -> MessageView {
        MessageView { role: self.role@, content: self.content@ }
    }
}

impl View for ChatRequest {
    type V = RequestView;

    open spec fn view(&self) -> RequestView {
        RequestView {
            model: self.model@,
            messages: messages_view(self.messages@),
            stream: self.stream,
        }
    }
}

impl View for ChatResponseDelta {
    type V = DeltaView;

    open spec fn view(&self) -> DeltaView {
        DeltaView {
            content: optional_text_view(self.content),
            reasoning_content: optional_text_view(self.reasoning_content),
        }
    }
}

impl View for ChatResponseChoice {
    type V = ChoiceView;

    open spec fn view(&self) -> ChoiceView {
        ChoiceView { delta: self.delta@ }
    }
}

impl View for ChatResponse {
    type V = ResponseView;

    open spec fn view(&self) -> ResponseView {
        ResponseView { choices: choices_view(self.choices@) }
    }
}

/// The role of the person at the keyboard.
pub open spec fn user_role() -> Seq<char> {
    "user"@
}

/// The role of the model.
pub open spec fn assistant_role() -> Seq<char> {
    "assistant"@
}

impl ChatMessage {
    /// A message of the user.
    pub fn user(content: &str) -> (out: ChatMessage)
        ensures
            out@ == (MessageView { role: user_role(), content: content@ }),
    {
        ChatMessage { role: "user".to_owned(), content: content.to_owned() }
    }

    /// A message of the model.
    pub fn assistant(content: &str) -> (out: ChatMessage)
        ensures
            out@ == (MessageView { role: assistant_role(), content: content@ }),
    {
        ChatMessage { role: "assistant".to_owned(), content: content.to_owned() }
    }

    /// A copy of this message.
    pub fn duplicate(&self) -> (out: ChatMessage)
        ensures
            out@ == self@,
    {
        ChatMessage { role: self.role.clone(), content: self.content.clone() }
    }
}

/// A copy of a run of messages.
pub fn duplicate_messages(messages: &Vec<ChatMessage>) -> (out: Vec<ChatMessage>)
    ensures
        messages_view(out@) == messages_view(messages@),
{
    let mut out: Vec<ChatMessage> = Vec::new();
    let mut i: usize = 0;
    while i < messages.len()
        invariant
            i <= messages@.len(),
            out@.len() == i,
            forall|j: int| 0 <= j < i ==> (#[trigger] out@[j])@ == messages@[j]@,
        decreases messages@.len() - i,
    {
        out.push(messages[i].duplicate());
        i += 1;
    }
    assert(messages_view(out@) =~= messages_view(messages@));
    out
}

impl ChatRequest {
    /// A streaming request to the model `model_id` that carries the
    /// conversation so far.
    pub fn streaming(model_id: &str, history: &Vec<ChatMessage>) -> (out: ChatRequest)
        ensures
            out@ == (RequestView {
                model: model_id@,
                messages: messages_view(history@),
                stream: true,
            }),
    {
        ChatRequest {
            model: model_id.to_owned(),
            messages: duplicate_messages(history),
            stream: true,
        }
    }
}

/// Why a JSON value is not a streamed response object.
#[derive(Debug, Clone, Copy, PartialEq, Eq)]
pub enum ShapeError {
    /// The document is not an object.
    RootNotObject,
    /// The object has no `choices` member.
    MissingChoices,
    /// `choices` is not an array.
    ChoicesNotArray,
    /// An element of `choices` is not an object.
    ChoiceNotObject,
    /// A choice has no `delta` member.
    MissingDelta,
    /// `delta` is not an object.
    DeltaNotObject,
    /// `content` is present and neither text nor null.
    ContentNotText,
    /// `reasoning_content` is present and neither text nor null.
    ReasoningNotText,
}

/// The diagnostic text of a [`ShapeError`].
pub open spec fn shape_message(e: ShapeError) -> Seq<char> {
    match e {
        ShapeError::RootNotObject => "expected a JSON object"@,
        ShapeError::MissingChoices => "missing field `choices`"@,
        ShapeError::ChoicesNotArray => "field `choices` is not an array"@,
        ShapeError::ChoiceNotObject => "an element of `choices` is not an object"@,
        ShapeError::MissingDelta => "missing field `delta`"@,
        ShapeError::DeltaNotObject => "field `delta` is not an object"@,
        ShapeError::ContentNotText => "field `content` is not a string"@,
        ShapeError::ReasoningNotText => "field `reasoning_content` is not a string"@,
    }
}

impl ShapeError {
    /// The diagnostic text of this error.
    pub fn message(&self) -> (out: String)
        ensures
            out@ == shape_message(*self),
    {
        match self {
            ShapeError::RootNotObject => "expected a JSON object".to_owned(),
            ShapeError::MissingChoices => "missing field `choices`".to_owned(),
            ShapeError::ChoicesNotArray => "field `choices` is not an array".to_owned(),
            ShapeError::ChoiceNotObject => "an element of `choices` is not an object".to_owned(),
            ShapeError::MissingDelta => "missing field `delta`".to_owned(),
            ShapeError::DeltaNotObject => "field `delta` is not an object".to_owned(),
            ShapeError::ContentNotText => "field `content` is not a string".to_owned(),
            ShapeError::ReasoningNotText => "field `reasoning_content` is not a string".to_owned(),
        }
    }
}

/// An optional text member: absent and `null` both read as `None`; any value
/// that is neither text nor `null` is an error.
pub open spec fn text_member(members: Seq<JsonField>, key: Seq<char>) -> Result<
    Option<Seq<char>>,
    (),
> {
    match lookup(members, key) {
        None => Ok(None),
        Some(JsonValue::Null) => Ok(None),
        Some(JsonValue::Text(t)) => Ok(Some(t)),
        Some(_) => Err(()),
    }
}

/// The delta that a JSON value describes.
pub open spec fn delta_of(value: JsonValue) -> Result<DeltaView, ShapeError> {
    match value {
        JsonValue::Object(members) => match text_member(members, "content"@) {
            Err(_) => Err(ShapeError::ContentNotText),
            Ok(content) => match text_member(members, "reasoning_content"@) {
                Err(_) => Err(ShapeError::ReasoningNotText),
                Ok(reasoning_content) => Ok(DeltaView { content, reasoning_content }),
            },
        },
        _ => Err(ShapeError::DeltaNotObject),
    }
}

/// The choice that a JSON value describes.
pub open spec fn choice_of(value: JsonValue) -> Result<ChoiceView, ShapeError> {
    match value {
        JsonValue::Object(members) => match lookup(members, "delta"@) {
            None => Err(ShapeError::MissingDelta),
            Some(delta) => match delta_of(delta) {
                Ok(delta) => Ok(ChoiceView { delta }),
                Err(e) => Err(e),
            },
        },
        _ => Err(ShapeError::ChoiceNotObject),
    }
}

/// The choices that a run of JSON values describes: every element must be a
/// choice, and the first one that is not decides the error.
pub open spec fn choices_of(items: Seq<JsonValue>) -> Result<Seq<ChoiceView>, ShapeError>
    decreases items.len(),
{
    if items.len() == 0 {
        Ok(Seq::empty())
    } else {
        match choices_of(items.drop_last()) {
            Err(e) => Err(e),
            Ok(init) => match choice_of(items.last()) {
                Ok(choice) => Ok(init.push(choice)),
                Err(e) => Err(e),
            },
        }
    }
}

/// The response object that a JSON document describes.
pub open spec fn response_of(value: JsonValue) -> Result<ResponseView, ShapeError> {
    match value {
        JsonValue::Object(members) => match lookup(members, "choices"@) {
            None => Err(ShapeError::MissingChoices),
            Some(JsonValue::Array(items)) => match choices_of(items) {
                Ok(choices) => Ok(ResponseView { choices }),
                Err(e) => Err(e),
            },
            Some(_) => Err(ShapeError::ChoicesNotArray),
        },
        _ => Err(ShapeError::RootNotObject),
    }
}

fn read_text_member(members: &Vec<JsonMember>, key: &str) -> (out: Result<Option<String>, ()>)
    ensures
        match out {
            Ok(text) => text_member(members_view(members@), key@) == Ok::<Option<Seq<char>>, ()>(
                optional_text_view(text),
            ),
            Err(_) => text_member(members_view(members@), key@) is Err,
        },
{
    match find_member(members, key) {
        None => Ok(None),
        Some(Json::Null) => Ok(None),
        Some(Json::Text(t)) => Ok(Some(t.clone())),
        Some(_) => Err(()),
    }
}

impl ChatResponseDelta {
    /// Reads a delta out of a JSON value.
    pub fn from_json(json: &Json) -> (out: Result<ChatResponseDelta, ShapeError>)
        ensures
            match out {
                Ok(delta) => delta_of(json@) == Ok::<DeltaView, ShapeError>(delta@),
                Err(e) => delta_of(json@) == Err::<DeltaView, ShapeError>(e),
            },
    {
        match json {
            Json::Object(members) => {
                proof {
                    lemma_object_view(*members);
                }
                match read_text_member(members, "content") {
                    Err(_) => Err(ShapeError::ContentNotText),
                    Ok(content) => match read_text_member(members, "reasoning_content") {
                        Err(_) => Err(ShapeError::ReasoningNotText),
                        Ok(reasoning_content) => Ok(
                            ChatResponseDelta { content, reasoning_content },
                        ),
                    },
                }
            },
            _ => Err(ShapeError::DeltaNotObject),
        }
    }
}

impl ChatResponseChoice {
    /// Reads a choice out of a JSON value.
    pub fn from_json(json: &Json) -> (out: Result<ChatResponseChoice, ShapeError>)
        ensures
            match out {
                Ok(choice) => choice_of(json@) == Ok::<ChoiceView, ShapeError>(choice@),
                Err(e) => choice_of(json@) == Err::<ChoiceView, ShapeError>(e),
            },
    {
        match json {
            Json::Object(members) => {
                proof {
                    lemma_object_view(*members);
                }
                match find_member(members, "delta") {
                    None => Err(ShapeError::MissingDelta),
                    Some(value) => match ChatResponseDelta::from_json(value) {
                        Ok(delta) => Ok(ChatResponseChoice { delta }),
                        Err(e) => Err(e),
                    },
                }
            },
            _ => Err(ShapeError::ChoiceNotObject),
        }
    }
}

fn read_choices(items: &Vec<Json>) -> (out: Result<Vec<ChatResponseChoice>, ShapeError>)
    ensures
        match out {
            Ok(choices) => choices_of(items_view(items@)) == Ok::<Seq<ChoiceView>, ShapeError>(
                choices_view(choices@),
            ),
            Err(e) => choices_of(items_view(items@)) == Err::<Seq<ChoiceView>, ShapeError>(e),
        },
{
    let ghost all = items_view(items@);
    let mut choices: Vec<ChatResponseChoice> = Vec::new();
    let mut i: usize = 0;
    assert(all.take(0) =~= Seq::<JsonValue>::empty());
    assert(choices_view(choices@) =~= Seq::<ChoiceView>::empty());
    while i < items.len()
        invariant
            i <= items@.len(),
            all == items_view(items@),
            choices_of(all.take(i as int)) == Ok::<Seq<ChoiceView>, ShapeError>(
                choices_view(choices@),
            ),
        decreases items@.len() - i,
    {
        assert(all.take(i + 1).drop_last() =~= all.take(i as int));
        assert(all.take(i + 1).last() == items@[i as int]@);
        match ChatResponseChoice::from_json(&items[i]) {
            Ok(choice) => {
                assert(choices_view(choices@.push(choice)) =~= choices_view(choices@).push(
                    choice@,
                ));
                choices.push(choice);
            },
            Err(e) => {
                proof {
                    lemma_choices_error_sticks(all, i + 1);
                }
                return Err(e);
            },
        }
        i += 1;
    }
    assert(all.take(i as int) =~= all);
    Ok(choices)
}

impl ChatResponse {
    /// Reads a response object out of a JSON document.
    pub fn from_json(json: &Json) -> (out: Result<ChatResponse, ShapeError>)
        ensures
            match out {
                Ok(response) => response_of(json@) == Ok::<ResponseView, ShapeError>(response@),
                Err(e) => response_of(json@) == Err::<ResponseView, ShapeError>(e),
            },
    {
        match json {
            Json::Object(members) => {
                proof {
                    lemma_object_view(*members);
                }
                match find_member(members, "choices") {
                    None => Err(ShapeError::MissingChoices),
                    Some(Json::Array(items)) => {
                        proof {
                            lemma_array_view(*items);
                        }
                        match read_choices(items) {
                            Ok(choices) => Ok(ChatResponse { choices }),
                            Err(e) => Err(e),
                        }
                    },
                    Some(_) => Err(ShapeError::ChoicesNotArray),
                }
            },
            _ => Err(ShapeError::RootNotObject),
        }
    }
}

/// Once a prefix of `items` fails to read, the whole run fails the same way.
pub proof fn lemma_choices_error_sticks(items: Seq<JsonValue>, n: int)
    requires
        0 <= n <= items.len(),
        choices_of(items.take(n)) is Err,
    ensures
        choices_of(items) == choices_of(items.take(n)),
    decreases items.len() - n,
{
    if n == items.len() {
        assert(items.take(n) =~= items);
    } else {
        assert(items.take(n + 1).drop_last() =~= items.take(n));
        lemma_choices_error_sticks(items, n + 1);
    }
}

} // verus!
