use hambur::chat::{ChatMessage, ChatRequest};
use hambur::models::get_provider_by_model;
use hambur::render::{Color, RenderOp};
use hambur::transport::{
    authorization_value, classify_status, content_type_value, describe_http_failure,
    failure_ops, http_failure_message, missing_credential_message, plan_request,
    status_is_success, transport_failure_message, unknown_model_message, FailureKind,
    RequestPlan,
};

#[test]
fn plan_for_a_known_model_with_its_credential() {
    let provider = get_provider_by_model("deepseek-r1-250120");
    let history = vec![ChatMessage::user("hi")];
    let plan = plan_request("deepseek-r1-250120", provider.as_ref(), Some("sk-1"), &history);
    assert_eq!(
        plan,
        Ok(RequestPlan {
            url: "https://ark.cn-beijing.volces.com/api/v3/chat/completions".to_string(),
            authorization: "Bearer sk-1".to_string(),
            content_type: "application/json".to_string(),
            body: ChatRequest {
                model: "deepseek-r1-250120".to_string(),
                messages: history.clone(),
                stream: true,
            },
        })
    );
}

#[test]
fn plan_without_provider_or_credential_is_a_message() {
    let history = vec![ChatMessage::user("hi")];
    assert_eq!(
        plan_request("gpt-x", None, Some("sk-1"), &history),
        Err(unknown_model_message("gpt-x"))
    );
    assert_eq!(plan_request("gpt-x", None, None, &history), Err(unknown_model_message("gpt-x")));
    let provider = get_provider_by_model("google/gemini-2.0-flash-001");
    assert_eq!(
        plan_request("google/gemini-2.0-flash-001", provider.as_ref(), None, &history),
        Err(missing_credential_message("OPENROUTER_API_KEY"))
    );
}

#[test]
fn success_is_the_two_hundreds() {
    assert!(!status_is_success(199));
    assert!(status_is_success(200));
    assert!(status_is_success(204));
    assert!(status_is_success(299));
    assert!(!status_is_success(300));
    assert!(!status_is_success(401));
    assert!(!status_is_success(0));
}

#[test]
fn failures_are_told_apart() {
    assert_eq!(classify_status(401), FailureKind::Unauthorized);
    assert_eq!(classify_status(429), FailureKind::RateLimited);
    assert_eq!(classify_status(500), FailureKind::Other);
    assert_eq!(classify_status(403), FailureKind::Other);
}

#[test]
fn unauthorized_message_names_the_credential_variable() {
    assert_eq!(
        http_failure_message(401, "denied", "OPENAI_API_KEY"),
        "\u{8ba4}\u{8bc1}\u{5931}\u{8d25}(401): API\u{5bc6}\u{94a5}\u{53ef}\u{80fd}\u{65e0}\u{6548}\u{6216}\u{5df2}\u{8fc7}\u{671f}\u{3002}\u{8bf7}\u{68c0}\u{67e5}OPENAI_API_KEY\u{73af}\u{5883}\u{53d8}\u{91cf}\u{8bbe}\u{7f6e}\u{3002}\n\u{539f}\u{59cb}\u{6570}\u{636e}: denied"
    );
}

#[test]
fn rate_limit_message() {
    assert_eq!(
        http_failure_message(429, "slow down", "K"),
        "\u{8bf7}\u{6c42}\u{8fc7}\u{591a}(429): \u{5df2}\u{8d85}\u{51fa}API\u{901f}\u{7387}\u{9650}\u{5236}\u{3002}\n\u{539f}\u{59cb}\u{6570}\u{636e}: slow down"
    );
}

#[test]
fn generic_message_carries_status_and_reason_phrase() {
    assert_eq!(
        http_failure_message(404, "{}", "K"),
        "API\u{8bf7}\u{6c42}\u{5931}\u{8d25}(404): Not Found\n\u{539f}\u{59cb}\u{6570}\u{636e}: {}"
    );
    assert_eq!(
        http_failure_message(500, "", "K"),
        "API\u{8bf7}\u{6c42}\u{5931}\u{8d25}(500): Internal Server Error\n\u{539f}\u{59cb}\u{6570}\u{636e}: "
    );
}

#[test]
fn status_without_a_reason_phrase_is_an_unknown_error() {
    assert_eq!(
        http_failure_message(599, "b", "K"),
        "API\u{8bf7}\u{6c42}\u{5931}\u{8d25}(599): \u{672a}\u{77e5}\u{9519}\u{8bef}\n\u{539f}\u{59cb}\u{6570}\u{636e}: b"
    );
    assert_eq!(
        http_failure_message(7, "b", "K"),
        "API\u{8bf7}\u{6c42}\u{5931}\u{8d25}(7): \u{672a}\u{77e5}\u{9519}\u{8bef}\n\u{539f}\u{59cb}\u{6570}\u{636e}: b"
    );
    assert_eq!(
        http_failure_message(65535, "b", "K"),
        "API\u{8bf7}\u{6c42}\u{5931}\u{8d25}(65535): \u{672a}\u{77e5}\u{9519}\u{8bef}\n\u{539f}\u{59cb}\u{6570}\u{636e}: b"
    );
}

#[test]
fn describe_uses_the_reason_it_is_given() {
    assert_eq!(
        describe_http_failure(503, Some("Busy".to_string()), "body", "K"),
        "API\u{8bf7}\u{6c42}\u{5931}\u{8d25}(503): Busy\n\u{539f}\u{59cb}\u{6570}\u{636e}: body"
    );
    assert_eq!(
        describe_http_failure(503, None, "body", "K"),
        "API\u{8bf7}\u{6c42}\u{5931}\u{8d25}(503): \u{672a}\u{77e5}\u{9519}\u{8bef}\n\u{539f}\u{59cb}\u{6570}\u{636e}: body"
    );
    assert_eq!(
        describe_http_failure(401, Some("ignored".to_string()), "b", "VAR"),
        http_failure_message(401, "b", "VAR")
    );
}

#[test]
fn other_failure_messages() {
    assert_eq!(
        transport_failure_message("connection refused"),
        "API\u{8bf7}\u{6c42}\u{5931}\u{8d25}: connection refused\n\u{8bf7}\u{68c0}\u{67e5}\u{7f51}\u{7edc}\u{8fde}\u{63a5}\u{548c}API\u{7aef}\u{70b9}\u{914d}\u{7f6e}"
    );
    assert_eq!(
        unknown_model_message("gpt-x"),
        "\u{672a}\u{627e}\u{5230}\u{6a21}\u{578b} gpt-x \u{7684}\u{63d0}\u{4f9b}\u{5546}"
    );
    assert_eq!(
        missing_credential_message("OPENROUTER_API_KEY"),
        "\u{672a}\u{627e}\u{5230}OPENROUTER_API_KEY\u{73af}\u{5883}\u{53d8}\u{91cf}"
    );
}

#[test]
fn request_headers() {
    assert_eq!(authorization_value("sk-123"), "Bearer sk-123");
    assert_eq!(authorization_value(""), "Bearer ");
    assert_eq!(content_type_value(), "application/json");
}

#[test]
fn failure_is_shown_in_red_in_one_go() {
    assert_eq!(
        failure_ops("no\n"),
        vec![
            RenderOp::SetForeground(Color::Red),
            RenderOp::Print('n'),
            RenderOp::ResetColor,
            RenderOp::SetForeground(Color::Red),
            RenderOp::Print('o'),
            RenderOp::ResetColor,
            RenderOp::ResetColor,
            RenderOp::Print('\n'),
            RenderOp::MoveToColumnStart,
            RenderOp::Flush,
        ]
    );
}
