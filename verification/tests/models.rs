use gemini_proxy::models::{
    AIStudioCookieInfo, GeminiApiKeyInfo, HandlerError, Key, KeyStatus, KeyType,
};

fn gemini() -> Key {
    Key::Gemini(GeminiApiKeyInfo {
        id: 42,
        key_value: "api-key".to_string(),
        last_used: Some(17),
        status: KeyStatus::CoolingDown,
    })
}

fn cookie() -> Key {
    Key::AIStudio(AIStudioCookieInfo {
        id: 43,
        cookie_value: "cookie".to_string(),
        last_used: None,
        status: KeyStatus::Available,
    })
}

#[test]
fn key_getters() {
    let g = gemini();
    assert_eq!(g.get_type(), KeyType::Gemini);
    assert_eq!(g.get_id(), 42);
    assert_eq!(g.get_status(), KeyStatus::CoolingDown);
    assert_eq!(g.get_last_used(), Some(17));
    assert_eq!(g.get_secret(), "api-key");

    let c = cookie();
    assert_eq!(c.get_type(), KeyType::AIStudio);
    assert_eq!(c.get_id(), 43);
    assert_eq!(c.get_status(), KeyStatus::Available);
    assert_eq!(c.get_last_used(), None);
    assert_eq!(c.get_secret(), "cookie");
}

#[test]
fn set_status_changes_only_the_status() {
    let mut g = gemini();
    g.set_status(KeyStatus::Invalid);
    assert_eq!(
        g,
        Key::Gemini(GeminiApiKeyInfo {
            id: 42,
            key_value: "api-key".to_string(),
            last_used: Some(17),
            status: KeyStatus::Invalid,
        })
    );
    let mut c = cookie();
    c.set_status(KeyStatus::InUse);
    assert_eq!(c.get_status(), KeyStatus::InUse);
    assert_eq!(c.get_id(), 43);
    assert_eq!(c.get_secret(), "cookie");
    assert_eq!(c.get_last_used(), None);
}

#[test]
fn set_last_used_changes_only_the_time() {
    let mut c = cookie();
    c.set_last_used(Some(99));
    assert_eq!(
        c,
        Key::AIStudio(AIStudioCookieInfo {
            id: 43,
            cookie_value: "cookie".to_string(),
            last_used: Some(99),
            status: KeyStatus::Available,
        })
    );
    let mut g = gemini();
    g.set_last_used(None);
    assert_eq!(g.get_last_used(), None);
    assert_eq!(g.get_status(), KeyStatus::CoolingDown);
}

#[test]
fn error_messages() {
    let detail = || "boom".to_string();
    assert_eq!(HandlerError::RequestFailed(detail()).message(), "请求失败: boom");
    assert_eq!(HandlerError::PromptProcessingFailed(detail()).message(), "提示词处理失败: boom");
    assert_eq!(HandlerError::BackendAuthError(detail()).message(), "后端认证错误: boom");
    assert_eq!(HandlerError::BackendRateLimited(detail()).message(), "后端速率限制: boom");
    assert_eq!(HandlerError::BackendServiceError(detail()).message(), "后端服务错误: boom");
    assert_eq!(HandlerError::RequestFailed(String::new()).message(), "请求失败: ");
}
