//! Configuration of the proxy, as loaded once at startup.

use crate::ident::{fresh_id, is_random_uuid};
use crate::models::{AIStudioCookieInfo, Credential, GeminiApiKeyInfo, Key, KeyStatus, KeyType};
use vstd::prelude::*;

verus! {

/// Which adjacent messages of the same role are merged in a prompt.
#[derive(Debug, Clone, Copy, PartialEq, Eq, Structural)]
pub enum MergeRole {
    /// Merge user messages.
    User,
    /// Merge model messages.
    Model,
    /// Merge nothing.
    Off,
}

impl Default for MergeRole {
    fn default() -> (role: Self)
        ensures
            role == MergeRole::Off,
    {
        MergeRole::Off
    }
}

/// How prompts are rewritten before they go upstream.
#[derive(Debug, Clone)]
pub struct PromptConfig {
    /// Which messages are merged.
    pub merge_role: MergeRole,
    /// Text put before a model message.
    pub model_prefix: String,
    /// Text put before a user message.
    pub user_prefix: String,
    /// Text put after a model message.
    pub model_suffix: String,
    /// Text put after a user message.
    pub user_suffix: String,
}

impl Default for PromptConfig {
    fn default() -> (config: Self)
        ensures
            config.merge_role == MergeRole::Off,
            config.model_prefix@ == "Assistant: "@,
            config.user_prefix@ == "Human: "@,
            config.model_suffix@ == "\n"@,
            config.user_suffix@ == "\n"@,
    {
        PromptConfig {
            merge_role: MergeRole::default(),
            model_prefix: default_model_prefix(),
            user_prefix: default_user_prefix(),
            model_suffix: default_model_suffix(),
            user_suffix: default_user_suffix(),
        }
    }
}

/// Prefix of a model message unless the configuration names one.
pub fn default_model_prefix() -> (prefix: String)
    ensures
        prefix@ == "Assistant: "@,
{
    "Assistant: ".to_owned()
}

/// Prefix of a user message unless the configuration names one.
pub fn default_user_prefix() -> (prefix: String)
    ensures
        prefix@ == "Human: "@,
{
    "Human: ".to_owned()
}

/// Suffix of a model message unless the configuration names one.
pub fn default_model_suffix() -> (suffix: String)
    ensures
        suffix@ == "\n"@,
{
    "\n".to_owned()
}

/// Suffix of a user message unless the configuration names one.
pub fn default_user_suffix() -> (suffix: String)
    ensures
        suffix@ == "\n"@,
{
    "\n".to_owned()
}

/// Where the TLS certificate and its private key are.
#[derive(Debug, Clone)]
pub struct TlsConfig {
    /// Path of the certificate file.
    pub cert_path: String,
    /// Path of the private key file.
    pub key_path: String,
}

/// One Gemini API key of the configuration.
#[derive(Debug, Clone)]
pub struct GeminiKeyConfig {
    /// The API key.
    pub key_value: String,
    /// Whether the key may be used.
    pub enabled: bool,
}

/// One AI Studio cookie of the configuration.
#[derive(Debug, Clone)]
pub struct AIStudioCookieConfig {
    /// The cookie.
    pub cookie_value: String,
    /// Whether the cookie may be used.
    pub enabled: bool,
}

/// One credential entry of the configuration.
#[derive(Debug, Clone)]
pub enum KeyConfig {
    /// A Gemini API key.
    Gemini(GeminiKeyConfig),
    /// An AI Studio cookie.
    AIStudio(AIStudioCookieConfig),
}

/// State that a credential is loaded with: a disabled entry is `Invalid`
/// from the start.
pub open spec fn initial_status(enabled: bool) -> KeyStatus {
    if enabled {
        KeyStatus::Available
    } else {
        KeyStatus::Invalid
    }
}

impl KeyConfig {
    /// Kind of the credential that this entry stands for.
    pub open spec fn kind(&self) -> KeyType {
        match *self {
            KeyConfig::Gemini(_) => KeyType::Gemini,
            KeyConfig::AIStudio(_) => KeyType::AIStudio,
        }
    }

    /// The credential that this entry stands for, under the identifier `id`:
    /// never used, and `Available` exactly if the entry is enabled.
    pub open spec fn credential(&self, id: u128) -> Credential {
        match *self {
            KeyConfig::Gemini(config) => Credential {
                kind: KeyType::Gemini,
                id: id,
                secret: config.key_value@,
                last_used: None,
                status: initial_status(config.enabled),
            },
            KeyConfig::AIStudio(config) => Credential {
                kind: KeyType::AIStudio,
                id: id,
                secret: config.cookie_value@,
                last_used: None,
                status: initial_status(config.enabled),
            },
        }
    }

    /// Makes the credential of this entry under the identifier `id`.
    pub fn to_key_with_id(&self, id: u128) -> (key: Key)
        ensures
            key@ == self.credential(id),
    {
        match self {
            KeyConfig::Gemini(config) => Key::Gemini(
                GeminiApiKeyInfo {
                    id,
                    key_value: config.key_value.clone(),
                    last_used: None,
                    status: if config.enabled {
                        KeyStatus::Available
                    } else {
                        KeyStatus::Invalid
                    },
                },
            ),
            KeyConfig::AIStudio(config) => Key::AIStudio(
                AIStudioCookieInfo {
                    id,
                    cookie_value: config.cookie_value.clone(),
                    last_used: None,
                    status: if config.enabled {
                        KeyStatus::Available
                    } else {
                        KeyStatus::Invalid
                    },
                },
            ),
        }
    }

    /// Makes the credential of this entry under a fresh random identifier.
    pub fn to_key(&self) -> (key: Key)
        ensures
            key@ == self.credential(key@.id),
            is_random_uuid(key@.id),
    {
        self.to_key_with_id(fresh_id())
    }

    /// Kind of the credential that this entry stands for.
    pub fn get_type(&self) -> (kind: KeyType)
        ensures
            kind == self.kind(),
    {
        match self {
            KeyConfig::Gemini(_) => KeyType::Gemini,
            KeyConfig::AIStudio(_) => KeyType::AIStudio,
        }
    }
}

/// Configuration of the whole proxy.
#[derive(Debug, Clone)]
pub struct Config {
    /// Base URL of the Gemini API.
    pub gemini_base_url: String,
    /// Base URL of AI Studio.
    pub aistudio_base_url: String,
    /// Key that callers of the proxy authenticate with.
    pub management_key: String,
    /// Address to listen on.
    pub listen_address: String,
    /// TLS files, if TLS is served.
    pub tls: Option<TlsConfig>,
    /// How prompts are rewritten.
    pub prompt_config: PromptConfig,
    /// The credentials.
    pub keys: Vec<KeyConfig>,
    /// Attempts that one request may take.
    pub retry_limit: u32,
    /// Cooldown interval in seconds.
    pub cooldown_seconds: u64,
}

/// Address to listen on unless the configuration names one.
pub fn default_listen_address() -> (address: String)
    ensures
        address@ == "127.0.0.1:3200"@,
{
    "127.0.0.1:3200".to_owned()
}

/// Whether a credential entry is enabled unless it says so itself.
pub fn default_true() -> (enabled: bool)
    ensures
        enabled,
{
    true
}

/// Base URL of the Gemini API unless the configuration names one.
pub fn default_gemini_url() -> (url: String)
    ensures
        url@ == "https://generativelanguage.googleapis.com"@,
{
    "https://generativelanguage.googleapis.com".to_owned()
}

/// Base URL of AI Studio unless the configuration names one.
pub fn default_aistudio_url() -> (url: String)
    ensures
        url@ == "https://aistudio.google.com/app"@,
{
    "https://aistudio.google.com/app".to_owned()
}

/// Retry limit unless the configuration names one.
pub fn default_retry_limit() -> (limit: u32)
    ensures
        limit == 3,
{
    3
}

/// Cooldown interval in seconds unless the configuration names one.
pub fn default_cooldown_seconds() -> (seconds: u64)
    ensures
        seconds == 60,
{
    60
}

} // verus!
