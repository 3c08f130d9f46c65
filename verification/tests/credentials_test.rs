use musictui2::credentials::{
    resolve_github_token, resolve_webdav_password, store_webdav_password, webdav_password_key,
    CredentialStore, InMemoryStore, GITHUB_TOKEN_KEY,
};
use musictui2::credentials::{delete_result, read_result, write_result, CredentialError, KeyringOutcome};

#[test]
fn in_memory_store_round_trips() {
    let mut store = InMemoryStore::new();
    assert!(store.get("missing").unwrap().is_none());

    store.set("webdav-password:home-nas", "hunter2").unwrap();
    assert_eq!(
        store.get("webdav-password:home-nas").unwrap().as_deref(),
        Some("hunter2")
    );

    store.delete("webdav-password:home-nas").unwrap();
    assert!(store.get("webdav-password:home-nas").unwrap().is_none());
}

#[test]
fn in_memory_store_overwrites_existing_value() {
    let mut store = InMemoryStore::new();
    store.set("k", "v1").unwrap();
    store.set("k", "v2").unwrap();
    assert_eq!(store.get("k").unwrap().as_deref(), Some("v2"));
}

#[test]
fn in_memory_store_delete_is_idempotent() {
    let mut store = InMemoryStore::new();
    store.delete("never-set").unwrap();
    store.delete("never-set").unwrap();
}

#[test]
fn webdav_password_key_namespaces_by_source_name() {
    assert_eq!(webdav_password_key("home"), "webdav-password:home");
    assert_eq!(webdav_password_key("work"), "webdav-password:work");
    assert_ne!(webdav_password_key("a"), webdav_password_key("b"));
}

#[test]
fn resolve_github_token_prefers_environment_over_keyring() {
    let mut store = InMemoryStore::new();
    store.set(GITHUB_TOKEN_KEY, "from-keyring").unwrap();

    let resolved = resolve_github_token(Some("from-env".to_string()), &store).unwrap();
    assert_eq!(resolved.as_deref(), Some("from-env"));
}

#[test]
fn resolve_github_token_falls_back_to_keyring_when_env_missing() {
    let mut store = InMemoryStore::new();
    store.set(GITHUB_TOKEN_KEY, "from-keyring").unwrap();
    let resolved = resolve_github_token(None, &store).unwrap();
    assert_eq!(resolved.as_deref(), Some("from-keyring"));
}

#[test]
fn resolve_github_token_treats_empty_env_as_missing() {
    let mut store = InMemoryStore::new();
    store.set(GITHUB_TOKEN_KEY, "from-keyring").unwrap();
    let resolved = resolve_github_token(Some(String::new()), &store).unwrap();
    assert_eq!(resolved.as_deref(), Some("from-keyring"));
}

#[test]
fn resolve_github_token_returns_none_when_no_source_has_value() {
    let store = InMemoryStore::new();
    assert!(resolve_github_token(None, &store).unwrap().is_none());
    assert!(resolve_github_token(Some(String::new()), &store)
        .unwrap()
        .is_none());
}

#[test]
fn resolve_webdav_password_prefers_keyring_over_inline_fallback() {
    let mut store = InMemoryStore::new();
    store_webdav_password("nas", "from-keyring", &mut store).unwrap();
    let resolved = resolve_webdav_password("nas", Some("inline-legacy"), &store).unwrap();
    assert_eq!(resolved.as_deref(), Some("from-keyring"));
}

#[test]
fn resolve_webdav_password_falls_back_to_inline_when_keyring_missing() {
    let store = InMemoryStore::new();
    let resolved = resolve_webdav_password("nas", Some("inline-legacy"), &store).unwrap();
    assert_eq!(resolved.as_deref(), Some("inline-legacy"));
}

#[test]
fn resolve_webdav_password_returns_none_when_no_source_has_value() {
    let store = InMemoryStore::new();
    assert!(resolve_webdav_password("nas", None, &store)
        .unwrap()
        .is_none());
    assert!(resolve_webdav_password("nas", Some(""), &store)
        .unwrap()
        .is_none());
}

#[test]
fn resolve_webdav_password_treats_empty_keyring_entry_as_missing() {
    let mut store = InMemoryStore::new();
    store_webdav_password("nas", "", &mut store).unwrap();
    let resolved = resolve_webdav_password("nas", Some("inline-legacy"), &store).unwrap();
    assert_eq!(resolved.as_deref(), Some("inline-legacy"));
}

#[test]
fn store_webdav_password_namespaces_each_source_independently() {
    let mut store = InMemoryStore::new();
    store_webdav_password("home", "h-secret", &mut store).unwrap();
    store_webdav_password("work", "w-secret", &mut store).unwrap();
    assert_eq!(
        resolve_webdav_password("home", None, &store)
            .unwrap()
            .as_deref(),
        Some("h-secret")
    );
    assert_eq!(
        resolve_webdav_password("work", None, &store)
            .unwrap()
            .as_deref(),
        Some("w-secret")
    );
}

#[test]
fn deleting_one_key_keeps_the_others() {
    let mut store = InMemoryStore::new();
    store.set("a", "1").unwrap();
    store.set("b", "2").unwrap();
    store.delete("a").unwrap();
    assert!(store.get("a").unwrap().is_none());
    assert_eq!(store.get("b").unwrap().as_deref(), Some("2"));
}

#[test]
fn stored_webdav_password_beats_empty_inline_value() {
    let mut store = InMemoryStore::new();
    store_webdav_password("nas", "secret", &mut store).unwrap();
    let resolved = resolve_webdav_password("nas", Some(""), &store).unwrap();
    assert_eq!(resolved.as_deref(), Some("secret"));
}

fn assert_send_sync<T: Send + Sync + ?Sized>() {}

#[test]
fn credential_store_is_object_safe_and_thread_shareable() {
    assert_send_sync::<dyn CredentialStore>();
    let _boxed: Box<dyn CredentialStore> = Box::new(InMemoryStore::new());
}

#[test]
fn an_empty_stored_token_counts_as_none() {
    let mut store = InMemoryStore::new();
    store.set(GITHUB_TOKEN_KEY, "").unwrap();
    assert!(resolve_github_token(None, &store).unwrap().is_none());
    assert!(resolve_github_token(Some(String::new()), &store).unwrap().is_none());
    assert_eq!(
        resolve_github_token(Some("env".to_string()), &store).unwrap().as_deref(),
        Some("env")
    );
}

fn backend_text(e: CredentialError) -> String {
    match e {
        CredentialError::Backend(t) => t,
    }
}

#[test]
fn keyring_outcomes_map_to_store_results() {
    assert_eq!(read_result(KeyringOutcome::Done("pw".to_string())).unwrap(), Some("pw".to_string()));
    assert_eq!(read_result(KeyringOutcome::NoEntry("none".to_string())).unwrap(), None);
    assert_eq!(backend_text(read_result(KeyringOutcome::Failed("locked".to_string())).unwrap_err()), "locked");
    assert!(write_result(KeyringOutcome::Done(())).is_ok());
    assert_eq!(backend_text(write_result(KeyringOutcome::NoEntry("none".to_string())).unwrap_err()), "none");
    assert_eq!(backend_text(write_result(KeyringOutcome::Failed("denied".to_string())).unwrap_err()), "denied");
    assert!(delete_result(KeyringOutcome::Done(())).is_ok());
    assert!(delete_result(KeyringOutcome::NoEntry("none".to_string())).is_ok());
    assert_eq!(backend_text(delete_result(KeyringOutcome::Failed("denied".to_string())).unwrap_err()), "denied");
}
