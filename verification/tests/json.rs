use hambur::chat::{
    ChatMessage, ChatRequest, ChatResponse, ChatResponseChoice, ChatResponseDelta, ShapeError,
};
use hambur::json::{find_member, parse_json, Json, JsonMember};

fn member(key: &str, value: Json) -> JsonMember {
    JsonMember { key: key.to_string(), value }
}

fn object(members: Vec<JsonMember>) -> Json {
    Json::Object(members)
}

fn response_with_delta(delta: Json) -> Json {
    object(vec![member("choices", Json::Array(vec![object(vec![member("delta", delta)])]))])
}

#[test]
fn parse_json_builds_the_tree() {
    let parsed = parse_json("{\"b\":[1,-2.5,\"x\",null,true],\"a\":{\"k\":\"v\"}}").unwrap();
    let expected = object(vec![
        member("a", object(vec![member("k", Json::Text("v".to_string()))])),
        member(
            "b",
            Json::Array(vec![
                Json::Number("1".to_string()),
                Json::Number("-2.5".to_string()),
                Json::Text("x".to_string()),
                Json::Null,
                Json::Bool(true),
            ]),
        ),
    ]);
    assert_eq!(parsed, expected);
}

#[test]
fn parse_json_decodes_escapes() {
    assert_eq!(parse_json("\"a\\nb\\u00e9\"").unwrap(), Json::Text("a\nb\u{e9}".to_string()));
}

#[test]
fn parse_json_reports_syntax_errors() {
    assert_eq!(parse_json("").unwrap_err(), "EOF while parsing a value at line 1 column 0");
    assert_eq!(parse_json("{\"a\":1} x").unwrap_err(), "trailing characters at line 1 column 9");
    assert!(parse_json("hello").is_err());
}

#[test]
fn find_member_takes_the_first_match() {
    let members = vec![
        member("a", Json::Bool(false)),
        member("b", Json::Null),
        member("a", Json::Bool(true)),
    ];
    assert_eq!(find_member(&members, "a"), Some(&Json::Bool(false)));
    assert_eq!(find_member(&members, "b"), Some(&Json::Null));
    assert_eq!(find_member(&members, "c"), None);
    assert_eq!(find_member(&Vec::new(), "a"), None);
}

#[test]
fn response_is_read_from_json() {
    let delta = object(vec![
        member("content", Json::Text("c".to_string())),
        member("reasoning_content", Json::Null),
        member("role", Json::Text("assistant".to_string())),
    ]);
    let json = object(vec![
        member("id", Json::Text("x".to_string())),
        member(
            "choices",
            Json::Array(vec![
                object(vec![member("delta", delta)]),
                object(vec![member("delta", object(vec![]))]),
            ]),
        ),
    ]);
    let expected = ChatResponse {
        choices: vec![
            ChatResponseChoice {
                delta: ChatResponseDelta { content: Some("c".to_string()), reasoning_content: None },
            },
            ChatResponseChoice {
                delta: ChatResponseDelta { content: None, reasoning_content: None },
            },
        ],
    };
    assert_eq!(ChatResponse::from_json(&json), Ok(expected));
}

#[test]
fn each_shape_error_has_its_input() {
    assert_eq!(ChatResponse::from_json(&Json::Array(vec![])), Err(ShapeError::RootNotObject));
    assert_eq!(ChatResponse::from_json(&object(vec![])), Err(ShapeError::MissingChoices));
    assert_eq!(
        ChatResponse::from_json(&object(vec![member("choices", Json::Null)])),
        Err(ShapeError::ChoicesNotArray)
    );
    assert_eq!(
        ChatResponse::from_json(&object(vec![member(
            "choices",
            Json::Array(vec![Json::Number("1".to_string())])
        )])),
        Err(ShapeError::ChoiceNotObject)
    );
    assert_eq!(
        ChatResponse::from_json(&object(vec![member(
            "choices",
            Json::Array(vec![object(vec![])])
        )])),
        Err(ShapeError::MissingDelta)
    );
    assert_eq!(
        ChatResponse::from_json(&response_with_delta(Json::Text("d".to_string()))),
        Err(ShapeError::DeltaNotObject)
    );
    assert_eq!(
        ChatResponse::from_json(&response_with_delta(object(vec![member(
            "content",
            Json::Number("5".to_string())
        )]))),
        Err(ShapeError::ContentNotText)
    );
    assert_eq!(
        ChatResponse::from_json(&response_with_delta(object(vec![member(
            "reasoning_content",
            Json::Bool(true)
        )]))),
        Err(ShapeError::ReasoningNotText)
    );
}

#[test]
fn first_bad_choice_decides_the_error() {
    let good = object(vec![member("delta", object(vec![]))]);
    let json = object(vec![member(
        "choices",
        Json::Array(vec![good, Json::Null, object(vec![])]),
    )]);
    assert_eq!(ChatResponse::from_json(&json), Err(ShapeError::ChoiceNotObject));
}

#[test]
fn content_error_comes_before_reasoning_error() {
    let delta = object(vec![
        member("reasoning_content", Json::Bool(true)),
        member("content", Json::Bool(true)),
    ]);
    assert_eq!(
        ChatResponse::from_json(&response_with_delta(delta)),
        Err(ShapeError::ContentNotText)
    );
}

#[test]
fn shape_error_messages() {
    assert_eq!(ShapeError::RootNotObject.message(), "expected a JSON object");
    assert_eq!(ShapeError::MissingChoices.message(), "missing field `choices`");
    assert_eq!(ShapeError::ChoicesNotArray.message(), "field `choices` is not an array");
    assert_eq!(
        ShapeError::ChoiceNotObject.message(),
        "an element of `choices` is not an object"
    );
    assert_eq!(ShapeError::MissingDelta.message(), "missing field `delta`");
    assert_eq!(ShapeError::DeltaNotObject.message(), "field `delta` is not an object");
    assert_eq!(ShapeError::ContentNotText.message(), "field `content` is not a string");
    assert_eq!(
        ShapeError::ReasoningNotText.message(),
        "field `reasoning_content` is not a string"
    );
}

#[test]
fn messages_and_requests() {
    let user = ChatMessage::user("hi");
    assert_eq!(user, ChatMessage { role: "user".to_string(), content: "hi".to_string() });
    let assistant = ChatMessage::assistant("hello");
    assert_eq!(
        assistant,
        ChatMessage { role: "assistant".to_string(), content: "hello".to_string() }
    );
    assert_eq!(user.duplicate(), user);
    let history = vec![user.clone(), assistant.clone()];
    let request = ChatRequest::streaming("m-1", &history);
    assert_eq!(
        request,
        ChatRequest { model: "m-1".to_string(), messages: history, stream: true }
    );
}
