//! Data types shared by the pool and the dispatcher.

use std::collections::HashMap;
use vstd::prelude::*;
use vstd::string::StringExecFns;

verus! {

/// `serde_json::Value`, a JSON document. It is declared so that a request
/// can carry its body: the library hands the value on, never looks inside
/// it and claims nothing of it.
#[verifier::external_type_specification]
#[verifier::external_body]
pub struct ExJsonValue(serde_json::Value);

/// Kind of a credential.
#[derive(Debug, Clone, Copy, PartialEq, Eq, Hash, Structural)]
pub enum KeyType {
    /// Google Gemini API key.
    Gemini,
    /// Google AI Studio session cookie.
    AIStudio,
}

/// State of a credential inside the pool.
#[derive(Debug, Clone, Copy, PartialEq, Eq, Hash, Structural)]
pub enum KeyStatus {
    /// Ready to be leased.
    Available,
    /// Leased to one in-flight attempt.
    InUse,
    /// Rejected by the backend; never leased again.
    Invalid,
    /// Suspended until the cooldown interval has passed.
    CoolingDown,
}

/// How a dispatch attempt ended, as reported when a credential is returned.
#[derive(Debug, Clone, Copy, PartialEq, Eq, Structural)]
pub enum Reason {
    /// The call succeeded.
    Success,
    /// The backend signalled a rate limit.
    RateLimited,
    /// The backend rejected the credential.
    AuthError,
    /// The call failed in transport.
    NetworkError,
    /// Anything else.
    Unknown,
}

/// Mathematical model of a credential: what the pool's rules read and write.
pub struct Credential {
    /// Kind of the credential.
    pub kind: KeyType,
    /// Identifier, unique inside a pool.
    pub id: u128,
    /// The key or cookie value.
    pub secret: Seq<char>,
    /// Time of the last return that counted as a use; `None` until then.
    pub last_used: Option<u64>,
    /// Current state.
    pub status: KeyStatus,
}

/// A Gemini API key.
#[derive(Debug, Clone, PartialEq, Eq, Hash)]
pub struct GeminiApiKeyInfo {
    /// Unique identifier: the 128-bit value of a UUID.
    pub id: u128,
    /// The API key.
    pub key_value: String,
    /// Time of the last use, in the pool's time unit.
    pub last_used: Option<u64>,
    /// Current state.
    pub status: KeyStatus,
}

/// An AI Studio session cookie.
#[derive(Debug, Clone, PartialEq, Eq, Hash)]
pub struct AIStudioCookieInfo {
    /// Unique identifier: the 128-bit value of a UUID.
    pub id: u128,
    /// The cookie.
    pub cookie_value: String,
    /// Time of the last use, in the pool's time unit.
    pub last_used: Option<u64>,
    /// Current state.
    pub status: KeyStatus,
}

/// A credential: an API key or a session cookie.
#[derive(Debug, Clone, PartialEq, Eq, Hash)]
pub enum Key {
    /// Gemini API key.
    Gemini(GeminiApiKeyInfo),
    /// AI Studio cookie.
    AIStudio(AIStudioCookieInfo),
}

impl View for Key {
    type V = Credential;

    open spec fn view(&self) -> Credential {
        match *self {
            Key::Gemini(info) => Credential {
                kind: KeyType::Gemini,
                id: info.id,
                secret: info.key_value@,
                last_used: info.last_used,
                status: info.status,
            },
            Key::AIStudio(info) => Credential {
                kind: KeyType::AIStudio,
                id: info.id,
                secret: info.cookie_value@,
                last_used: info.last_used,
                status: info.status,
            },
        }
    }
}

impl Key {
    /// Kind of this credential.
    pub fn get_type(&self) -> (kind: KeyType)
        ensures
            kind == self@.kind,
    {
        match self {
            Key::Gemini(_) => KeyType::Gemini,
            Key::AIStudio(_) => KeyType::AIStudio,
        }
    }

    /// Identifier of this credential.
    pub fn get_id(&self) -> (id: u128)
        ensures
            id == self@.id,
    {
        match self {
            Key::Gemini(info) => info.id,
            Key::AIStudio(info) => info.id,
        }
    }

    /// Current state of this credential.
    pub fn get_status(&self) -> (status: KeyStatus)
        ensures
            status == self@.status,
    {
        match self {
            Key::Gemini(info) => info.status,
            Key::AIStudio(info) => info.status,
        }
    }

    /// Time of the last use, if any.
    pub fn get_last_used(&self) -> (last_used: Option<u64>)
        ensures
            last_used == self@.last_used,
    {
        match self {
            Key::Gemini(info) => info.last_used,
            Key::AIStudio(info) => info.last_used,
        }
    }

    /// The key or cookie value that authenticates a call.
    pub fn get_secret(&self) -> (secret: &String)
        ensures
            secret@ == self@.secret,
    {
        match self {
            Key::Gemini(info) => &info.key_value,
            Key::AIStudio(info) => &info.cookie_value,
        }
    }

    /// Replaces the last-use time and leaves everything else as it was.
    pub fn set_last_used(&mut self, last_used: Option<u64>)
        ensures
            final(self)@ == (Credential { last_used: last_used, ..old(self)@ }),
    {
        match self {
            Key::Gemini(info) => info.last_used = last_used,
            Key::AIStudio(info) => info.last_used = last_used,
        }
    }

    /// Replaces the state and leaves everything else as it was.
    pub fn set_status(&mut self, status: KeyStatus)
        ensures
            final(self)@ == (Credential { status: status, ..old(self)@ }),
    {
        match self {
            Key::Gemini(info) => info.status = status,
            Key::AIStudio(info) => info.status = status,
        }
    }
}

/// Mathematical model of a `HandlerError`: the variant and its detail text.
pub enum Failure {
    /// The request could not be processed.
    RequestFailed(Seq<char>),
    /// The prompt could not be rewritten.
    PromptProcessingFailed(Seq<char>),
    /// The backend rejected the credential.
    BackendAuthError(Seq<char>),
    /// The backend signalled a rate limit.
    BackendRateLimited(Seq<char>),
    /// The backend failed in another way, or no credential was to be had.
    BackendServiceError(Seq<char>),
}

impl Failure {
    /// The text that describes the failure to a reader.
    pub open spec fn text(self) -> Seq<char> {
        match self {
            Failure::RequestFailed(detail) => "请求失败: "@ + detail,
            Failure::PromptProcessingFailed(detail) => "提示词处理失败: "@ + detail,
            Failure::BackendAuthError(detail) => "后端认证错误: "@ + detail,
            Failure::BackendRateLimited(detail) => "后端速率限制: "@ + detail,
            Failure::BackendServiceError(detail) => "后端服务错误: "@ + detail,
        }
    }
}

/// The one terminal failure that a caller of the proxy may receive.
#[derive(Debug, Clone, PartialEq, Eq)]
pub enum HandlerError {
    /// The request could not be processed.
    RequestFailed(String),
    /// The prompt could not be rewritten.
    PromptProcessingFailed(String),
    /// The backend rejected the credential.
    BackendAuthError(String),
    /// The backend signalled a rate limit.
    BackendRateLimited(String),
    /// The backend failed in another way, or no credential was to be had.
    BackendServiceError(String),
}

impl View for HandlerError {
    type V = Failure;

    open spec fn view(&self) -> Failure {
        match *self {
            HandlerError::RequestFailed(detail) => Failure::RequestFailed(detail@),
            HandlerError::PromptProcessingFailed(detail) => Failure::PromptProcessingFailed(
                detail@,
            ),
            HandlerError::BackendAuthError(detail) => Failure::BackendAuthError(detail@),
            HandlerError::BackendRateLimited(detail) => Failure::BackendRateLimited(detail@),
            HandlerError::BackendServiceError(detail) => Failure::BackendServiceError(detail@),
        }
    }
}

impl HandlerError {
    /// The text that describes the failure to a reader.
    pub fn message(&self) -> (text: String)
        ensures
            text@ == self@.text(),
    {
        match self {
            HandlerError::RequestFailed(detail) => "请求失败: ".to_owned().concat(
                detail.as_str(),
            ),
            HandlerError::PromptProcessingFailed(detail) => "提示词处理失败: ".to_owned().concat(
                detail.as_str(),
            ),
            HandlerError::BackendAuthError(detail) => "后端认证错误: ".to_owned().concat(
                detail.as_str(),
            ),
            HandlerError::BackendRateLimited(detail) => "后端速率限制: ".to_owned().concat(
                detail.as_str(),
            ),
            HandlerError::BackendServiceError(detail) => "后端服务错误: ".to_owned().concat(
                detail.as_str(),
            ),
        }
    }
}

/// One call that the front end wants made upstream.
#[derive(Debug)]
pub struct DispatchRequest {
    /// Path of the upstream endpoint.
    pub path: String,
    /// Query parameters.
    pub query: HashMap<String, String>,
    /// Request body.
    pub body: serde_json::Value,
    /// Kind of credential that the call needs.
    pub key_type: KeyType,
}

} // verus!
