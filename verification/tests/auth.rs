use nidex::auth::{
    api_key_from_env_value, codex_api_key_env_var, login_with_api_key, load_auth_after_ephemeral,
    load_auth_after_persisted, load_auth_start, logout_outcome, logout_stores, openai_api_key_env_var,
    AuthCredentialsStoreMode, AuthDotJson, AuthError, AuthManager, CodexAuth, LoadStep, TokenData,
};
use nidex::protocol::AuthMode as ApiAuthMode;

fn stored_key(key: &str) -> AuthDotJson {
    AuthDotJson {
        auth_mode: None,
        openai_api_key: Some(key.to_string()),
        tokens: None,
        last_refresh: None,
    }
}

#[test]
fn login_with_api_key_overwrites_existing_auth_json() {
    let _stale = AuthDotJson {
        auth_mode: None,
        openai_api_key: Some("sk-old".to_string()),
        tokens: Some(TokenData {
            id_token: "stale.header.payload".to_string(),
            access_token: "stale-access".to_string(),
            refresh_token: "stale-refresh".to_string(),
            account_id: Some("stale-acc".to_string()),
        }),
        last_refresh: None,
    };
    let auth = login_with_api_key("sk-new");
    assert_eq!(auth.openai_api_key.as_deref(), Some("sk-new"));
    assert!(auth.tokens.is_none(), "tokens should be cleared");
    assert_eq!(auth.auth_mode, Some(ApiAuthMode::ApiKey));
}

#[test]
fn missing_auth_json_returns_none() {
    let auth = load_auth_after_persisted(Ok(None)).expect("call should succeed");
    assert!(auth.is_none());
}

#[test]
fn loads_api_key_from_auth_json() {
    let auth = load_auth_after_persisted(Ok(Some(stored_key("sk-test-key")))).unwrap().unwrap();
    assert_eq!(auth.api_auth_mode(), ApiAuthMode::ApiKey);
    assert_eq!(auth.api_key(), Some("sk-test-key"));
}

#[test]
fn logout_removes_auth_file() {
    let stores = logout_stores(AuthCredentialsStoreMode::File);
    assert_eq!(stores, vec![AuthCredentialsStoreMode::Ephemeral, AuthCredentialsStoreMode::File]);
    assert_eq!(logout_outcome(&vec![Ok(false), Ok(true)]), Ok(true));
    let mut manager = AuthManager::from_auth_for_testing(CodexAuth::from_api_key("sk-test-key"));
    assert!(manager.auth().is_some());
    assert_eq!(manager.logout(Ok(true), Ok(None)), Ok(true));
    assert!(manager.auth().is_none());
}

#[test]
fn logout_stops_at_the_first_store_error() {
    let err = AuthError { message: "keyring unavailable".to_string() };
    let r = logout_outcome(&vec![Err(err.clone()), Ok(true)]);
    assert_eq!(r, Err(err));
    assert_eq!(logout_outcome(&vec![Ok(false), Ok(false)]), Ok(false));
    assert_eq!(logout_stores(AuthCredentialsStoreMode::Ephemeral), vec![AuthCredentialsStoreMode::Ephemeral]);
}

#[test]
fn env_key_wins_when_enabled() {
    match load_auth_start(true, Some("  sk-env  ".to_string())) {
        LoadStep::Done(Ok(Some(a))) => assert_eq!(a.api_key(), Some("sk-env")),
        other => panic!("unexpected step: {other:?}"),
    }
    assert!(matches!(load_auth_start(false, Some("sk-env".to_string())), LoadStep::ReadEphemeral));
    assert!(matches!(load_auth_start(true, Some("   ".to_string())), LoadStep::ReadEphemeral));
    assert!(matches!(load_auth_start(true, None), LoadStep::ReadEphemeral));
}

#[test]
fn ephemeral_store_is_read_before_the_configured_one() {
    match load_auth_after_ephemeral(Ok(Some(stored_key("sk-eph"))), AuthCredentialsStoreMode::File) {
        LoadStep::Done(Ok(Some(a))) => assert_eq!(a.api_key(), Some("sk-eph")),
        other => panic!("unexpected step: {other:?}"),
    }
    assert!(matches!(
        load_auth_after_ephemeral(Ok(None), AuthCredentialsStoreMode::Keyring),
        LoadStep::ReadPersisted(AuthCredentialsStoreMode::Keyring)
    ));
    assert!(matches!(
        load_auth_after_ephemeral(Ok(None), AuthCredentialsStoreMode::Ephemeral),
        LoadStep::Done(Ok(None))
    ));
    let err = AuthError { message: "broken".to_string() };
    match load_auth_after_ephemeral(Err(err.clone()), AuthCredentialsStoreMode::File) {
        LoadStep::Done(Err(e)) => assert_eq!(e, err),
        other => panic!("unexpected step: {other:?}"),
    }
}

#[test]
fn stored_data_without_a_key_is_an_error() {
    let mut data = stored_key("x");
    data.openai_api_key = None;
    let err = load_auth_after_persisted(Ok(Some(data))).unwrap_err();
    assert_eq!(err.message, "API key auth is missing a key.");
}

#[test]
fn env_values_are_trimmed() {
    assert_eq!(api_key_from_env_value(Some(" sk-1 \n".to_string())), Some("sk-1".to_string()));
    assert_eq!(api_key_from_env_value(Some("\t".to_string())), None);
    assert_eq!(api_key_from_env_value(None), None);
    assert_eq!(openai_api_key_env_var(), "OPENAI_API_KEY");
    assert_eq!(codex_api_key_env_var(), "CODEX_API_KEY");
}

#[test]
fn reload_reports_changes_of_the_credentials() {
    let mut manager = AuthManager::new(
        "/home/u/.codex".to_string(),
        false,
        AuthCredentialsStoreMode::File,
        Ok(None),
    );
    assert!(manager.get_auth_mode().is_none());
    assert!(manager.reload(Ok(Some(CodexAuth::from_api_key("sk-1")))));
    assert_eq!(manager.get_auth_mode(), Some(ApiAuthMode::ApiKey));
    assert!(!manager.reload(Ok(Some(CodexAuth::from_api_key("sk-1")))));
    assert!(manager.reload(Ok(Some(CodexAuth::from_api_key("sk-2")))));
    assert_eq!(manager.auth().unwrap().api_key(), Some("sk-2"));
    assert!(manager.reload(Err(AuthError { message: "gone".to_string() })));
    assert!(manager.auth().is_none());
    assert!(!manager.reload(Ok(None)));
    assert_eq!(manager.codex_home(), "/home/u/.codex");
}

#[test]
fn failed_logout_keeps_credentials() {
    let mut manager = AuthManager::from_auth_for_testing_with_home(
        CodexAuth::create_dummy_chatgpt_auth_for_testing(),
        "/tmp/h".to_string(),
    );
    let err = AuthError { message: "denied".to_string() };
    assert_eq!(manager.logout(Err(err.clone()), Ok(None)), Err(err));
    assert_eq!(manager.auth().unwrap().api_key(), Some("test-api-key"));
    assert_eq!(manager.auth().unwrap().get_token(), Ok("test-api-key".to_string()));
}
