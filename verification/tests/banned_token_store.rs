use auth_service::domain::data_stores::BannedTokenStore;
use auth_service::services::data_stores::hashset_banned_token_store::HashsetBannedTokenStore;

#[test]
fn store_token_succeeds() {
    let mut token_store = HashsetBannedTokenStore::default();

    assert!(token_store.store_token("some token string".to_string()).is_ok());
}

#[test]
fn contains_token_returns_true_for_found_token() {
    let mut token_store = HashsetBannedTokenStore::default();

    let token = "some token value".to_string();

    token_store.store_token(token.clone()).unwrap();

    assert!(token_store.contains_token(&token).unwrap());
}

#[test]
fn contains_token_returns_false_for_missing_token() {
    let mut token_store = HashsetBannedTokenStore::default();

    assert!(!token_store.contains_token("some token value").unwrap());

    let token = "some token value".to_string();

    token_store.store_token(token.clone()).unwrap();

    assert!(!token_store.contains_token("some other token value").unwrap());
}

#[test]
fn store_token_is_idempotent() {
    let mut token_store = HashsetBannedTokenStore::new();

    let token = "some token value".to_string();
    token_store.store_token(token.clone()).unwrap();
    token_store.store_token(token.clone()).unwrap();

    assert!(token_store.contains_token(&token).unwrap());
}
