//! What surrounds the stream: the request headers, and the messages that
//! take the place of a reply when no stream can be opened.

use crate::chat::{messages_view, optional_text_view, ChatMessage, ChatRequest, RequestView};
use crate::models::{ModelProvider, ProviderView};
use crate::render::{ops_for_notice, push_notice, Color, RenderOp};
use crate::text::{decimal, decimal_string};
use vstd::prelude::*;
use vstd::string::StringExecFns;

verus! {

/// The reason phrase that HTTP registers for a status code, if it registers
/// one.
pub uninterp spec fn canonical_reason(status: u16) -> Option<Seq<char>>;

/// `reqwest::StatusCode::canonical_reason`, on the status that
/// `reqwest::StatusCode::from_u16` makes of the number. Trusted: the phrase
/// depends on the number alone; a number that is no status code has none.
#[verifier::external_body]
fn reason_phrase(status: u16) -> (out: Option<String>)
    ensures
        optional_text_view(out) == canonical_reason(status),
{
    reqwest::StatusCode::from_u16(status).ok().and_then(|s| s.canonical_reason()).map(
        str::to_owned,
    )
}

/// Whether a response with this status carries a stream to decode.
pub open spec fn is_success(status: u16) -> bool {
    200 <= status < 300
}

/// Whether a response with this status carries a stream to decode. Any
/// other response is reported by [`http_failure_message`] and never
/// decoded.
pub fn status_is_success(status: u16) -> (out: bool)
    ensures
        out == is_success(status),
{
    200 <= status && status < 300
}

/// The kinds of failed response that are told apart.
#[derive(Debug, Clone, Copy, PartialEq, Eq)]
pub enum FailureKind {
    /// The credential is missing, wrong or expired (401).
    Unauthorized,
    /// Too many requests (429).
    RateLimited,
    /// Any other status.
    Other,
}

/// The kind of failure that a status stands for.
pub open spec fn failure_kind(status: u16) -> FailureKind {
    if status == 401 {
        FailureKind::Unauthorized
    } else if status == 429 {
        FailureKind::RateLimited
    } else {
        FailureKind::Other
    }
}

/// The kind of failure that a status stands for.
pub fn classify_status(status: u16) -> (out: FailureKind)
    ensures
        out == failure_kind(status),
{
    if status == 401 {
        FailureKind::Unauthorized
    } else if status == 429 {
        FailureKind::RateLimited
    } else {
        FailureKind::Other
    }
}

/// The message for a failed response, given the reason phrase of its status.
pub open spec fn http_failure_text(
    status: u16,
    reason: Option<Seq<char>>,
    body: Seq<char>,
    key_env: Seq<char>,
) -> Seq<char> {
    match failure_kind(status) {
        FailureKind::Unauthorized => "认证失败(401): API密钥可能无效或已过期。请检查"@ + key_env
            + "环境变量设置。\n原始数据: "@ + body,
        FailureKind::RateLimited => "请求过多(429): 已超出API速率限制。\n原始数据: "@ + body,
        FailureKind::Other => "API请求失败("@ + decimal(status as nat) + "): "@ + (match reason {
            Some(phrase) => phrase,
            None => "未知错误"@,
        }) + "\n原始数据: "@ + body,
    }
}

/// The message for a failed response, given the reason phrase of its status:
/// `body` is what the server sent, `key_env` names the variable that holds
/// the credential.
pub fn describe_http_failure(status: u16, reason: Option<String>, body: &str, key_env: &str) -> (out:
    String)
    ensures
        out@ == http_failure_text(status, optional_text_view(reason), body@, key_env@),
{
    match classify_status(status) {
        FailureKind::Unauthorized => {
            let mut out = "认证失败(401): API密钥可能无效或已过期。请检查".to_owned();
            out.append(key_env);
            out.append("环境变量设置。\n原始数据: ");
            out.append(body);
            out
        },
        FailureKind::RateLimited => {
            let mut out = "请求过多(429): 已超出API速率限制。\n原始数据: ".to_owned();
            out.append(body);
            out
        },
        FailureKind::Other => {
            let mut out = "API请求失败(".to_owned();
            let code = decimal_string(status as u64);
            out.append(code.as_str());
            out.append("): ");
            match reason {
                Some(phrase) => {
                    out.append(phrase.as_str());
                },
                None => {
                    out.append("未知错误");
                },
            }
            out.append("\n原始数据: ");
            out.append(body);
            out
        },
    }
}

/// The message for a failed response.
pub fn http_failure_message(status: u16, body: &str, key_env: &str) -> (out: String)
    ensures
        out@ == http_failure_text(status, canonical_reason(status), body@, key_env@),
{
    describe_http_failure(status, reason_phrase(status), body, key_env)
}

/// The message for a request that never got an answer.
pub open spec fn transport_failure_text(detail: Seq<char>) -> Seq<char> {
    "API请求失败: "@ + detail + "\n请检查网络连接和API端点配置"@
}

/// The message for a request that never got an answer; `detail` is what the
/// transport says of it.
pub fn transport_failure_message(detail: &str) -> (out: String)
    ensures
        out@ == transport_failure_text(detail@),
{
    let mut out = "API请求失败: ".to_owned();
    out.append(detail);
    out.append("\n请检查网络连接和API端点配置");
    out
}

/// The message for a model that no provider serves.
pub open spec fn unknown_model_text(model_id: Seq<char>) -> Seq<char> {
    "未找到模型 "@ + model_id + " 的提供商"@
}

/// The message for a model that no provider serves.
pub fn unknown_model_message(model_id: &str) -> (out: String)
    ensures
        out@ == unknown_model_text(model_id@),
{
    let mut out = "未找到模型 ".to_owned();
    out.append(model_id);
    out.append(" 的提供商");
    out
}

/// The message for a credential variable that is not set.
pub open spec fn missing_credential_text(key_env: Seq<char>) -> Seq<char> {
    "未找到"@ + key_env + "环境变量"@
}

/// The message for a credential variable that is not set.
pub fn missing_credential_message(key_env: &str) -> (out: String)
    ensures
        out@ == missing_credential_text(key_env@),
{
    let mut out = "未找到".to_owned();
    out.append(key_env);
    out.append("环境变量");
    out
}

/// The value of the `Authorization` header for a credential.
pub open spec fn bearer(api_key: Seq<char>) -> Seq<char> {
    "Bearer "@ + api_key
}

/// The value of the `Authorization` header for a credential.
pub fn authorization_value(api_key: &str) -> (out: String)
    ensures
        out@ == bearer(api_key@),
{
    let mut out = "Bearer ".to_owned();
    out.append(api_key);
    out
}

/// The value of the `Content-Type` header of a request.
pub fn content_type_value() -> (out: &'static str)
    ensures
        out@ == "application/json"@,
{
    "application/json"
}

/// The terminal operations that show a failure message.
pub fn failure_ops(message: &str) -> (ops: Vec<RenderOp>)
    ensures
        ops@ == ops_for_notice(message@, Color::Red),
{
    let mut ops: Vec<RenderOp> = Vec::new();
    push_notice(&mut ops, message, Color::Red);
    assert(ops@ =~= ops_for_notice(message@, Color::Red));
    ops
}

/// What it takes to send a completion request.
#[derive(Debug, Clone, PartialEq, Eq)]
pub struct RequestPlan {
    /// Endpoint to post to.
    pub url: String,
    /// Value of the `Authorization` header.
    pub authorization: String,
    /// Value of the `Content-Type` header.
    pub content_type: String,
    /// The body, to be sent as JSON.
    pub body: ChatRequest,
}

/// Mathematical model of a [`RequestPlan`].
pub ghost struct PlanView {
    pub url: Seq<char>,
    pub authorization: Seq<char>,
    pub content_type: Seq<char>,
    pub body: RequestView,
}

impl View for RequestPlan {
    type V = PlanView;

    open spec fn view(&self) -> PlanView {
        PlanView {
            url: self.url@,
            authorization: self.authorization@,
            content_type: self.content_type@,
            body: self.body@,
        }
    }
}

/// The request for a turn, or the message that stands in for the reply when
/// the turn cannot be configured: the model must have a provider, and the
/// provider's credential must be at hand.
pub open spec fn planned(
    model_id: Seq<char>,
    provider: Option<ProviderView>,
    api_key: Option<Seq<char>>,
    history: Seq<crate::chat::MessageView>,
) -> Result<PlanView, Seq<char>> {
    match provider {
        None => Err(unknown_model_text(model_id)),
        Some(provider) => match api_key {
            None => Err(missing_credential_text(provider.api_key_env)),
            Some(key) => Ok(
                PlanView {
                    url: provider.api_base,
                    authorization: bearer(key),
                    content_type: "application/json"@,
                    body: RequestView { model: model_id, messages: history, stream: true },
                },
            ),
        },
    }
}

/// The view of an optional provider.
pub open spec fn provider_view(provider: Option<&ModelProvider>) -> Option<ProviderView> {
    match provider {
        Some(p) => Some(p@),
        None => None,
    }
}

/// The characters of an optional string slice.
pub open spec fn key_view(api_key: Option<&str>) -> Option<Seq<char>> {
    match api_key {
        Some(key) => Some(key@),
        None => None,
    }
}

/// Plans the request for a turn: `provider` is the provider that serves
/// `model_id`, if one does, `api_key` the value of its credential variable,
/// if it is set, `history` the conversation with the user's new message.
pub fn plan_request(
    model_id: &str,
    provider: Option<&ModelProvider>,
    api_key: Option<&str>,
    history: &Vec<ChatMessage>,
) -> (out: Result<RequestPlan, String>)
    ensures
        match out {
            Ok(plan) => planned(
                model_id@,
                provider_view(provider),
                key_view(api_key),
                messages_view(history@),
            ) == Ok::<PlanView, Seq<char>>(plan@),
            Err(message) => planned(
                model_id@,
                provider_view(provider),
                key_view(api_key),
                messages_view(history@),
            ) == Err::<PlanView, Seq<char>>(message@),
        },
{
    match provider {
        None => Err(unknown_model_message(model_id)),
        Some(provider) => match api_key {
            None => Err(missing_credential_message(provider.api_key_env.as_str())),
            Some(key) => Ok(
                RequestPlan {
                    url: provider.api_base.clone(),
                    authorization: authorization_value(key),
                    content_type: content_type_value().to_owned(),
                    body: ChatRequest::streaming(model_id, history),
                },
            ),
        },
    }
}

} // verus!
