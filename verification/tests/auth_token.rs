use auth_service::domain::data_stores::BannedTokenStore;
use auth_service::domain::email::Email;
use auth_service::services::data_stores::hashset_banned_token_store::HashsetBannedTokenStore;
use auth_service::utils::auth::generate_auth_token;
use auth_service::utils::auth::validate_token;
use auth_service::utils::auth::TokenValidationError;
use auth_service::utils::auth::TOKEN_TTL_SECONDS;

const KEY: &str = "test-signing-key";
const NOW: u64 = 1_700_000_000;

fn bob() -> Email {
    Email::parse("bob@example.com".to_string()).unwrap()
}

#[test]
fn minted_token_validates_successfully() {
    let store = HashsetBannedTokenStore::new();
    let token = generate_auth_token(&bob(), KEY, NOW);

    let claims = validate_token(&token, &store, KEY, NOW + 1).unwrap();
    assert_eq!(claims.sub, "bob@example.com");
    assert_eq!(claims.exp, NOW + TOKEN_TTL_SECONDS);
}

#[test]
fn revoked_token_fails_with_revoked() {
    let mut store = HashsetBannedTokenStore::new();
    let token = generate_auth_token(&bob(), KEY, NOW);

    assert!(validate_token(&token, &store, KEY, NOW + 1).is_ok());

    store.store_token(token.clone()).unwrap();

    assert_eq!(
        validate_token(&token, &store, KEY, NOW + 1),
        Err(TokenValidationError::Revoked)
    );
}

#[test]
fn expired_token_fails_with_expired() {
    let store = HashsetBannedTokenStore::new();
    let token = generate_auth_token(&bob(), KEY, NOW);

    assert_eq!(
        validate_token(&token, &store, KEY, NOW + TOKEN_TTL_SECONDS),
        Err(TokenValidationError::Expired)
    );
}

#[test]
fn tampered_token_fails_with_bad_signature() {
    let store = HashsetBannedTokenStore::new();
    let token = generate_auth_token(&bob(), KEY, NOW);

    // Change the identity without recomputing the tag.
    let tampered = token.replace("bob@example.com", "mallory@example.com");
    assert_eq!(
        validate_token(&tampered, &store, KEY, NOW + 1),
        Err(TokenValidationError::BadSignature)
    );

    // A token signed under another key is also rejected.
    let other = generate_auth_token(&bob(), "another-key", NOW);
    assert_eq!(
        validate_token(&other, &store, KEY, NOW + 1),
        Err(TokenValidationError::BadSignature)
    );
}

#[test]
fn malformed_tokens_are_rejected() {
    let store = HashsetBannedTokenStore::new();
    let candidates = [
        "",
        "not-a-token",
        "deadbeef.1700000000.bob@example.com",
        &"a".repeat(64),
        &format!("{}.{}", "a".repeat(64), "bob@example.com"),
        &format!("{}.123456", "a".repeat(64)),
        &format!("{}.99999999999999999999999.bob@example.com", "a".repeat(64)),
    ];
    for candidate in candidates {
        assert_eq!(
            validate_token(candidate, &store, KEY, NOW),
            Err(TokenValidationError::MalformedToken),
            "accepted {candidate}"
        );
    }
}

#[test]
fn token_shape_is_tag_expiry_identity() {
    let token = generate_auth_token(&bob(), KEY, NOW);
    let expiry = (NOW + TOKEN_TTL_SECONDS).to_string();

    assert_eq!(token.len(), 64 + 1 + expiry.len() + 1 + "bob@example.com".len());
    assert_eq!(&token[64..65], ".");
    assert_eq!(&token[65..65 + expiry.len()], expiry.as_str());
    assert!(token.ends_with(".bob@example.com"));
    assert!(token[..64].chars().all(|c| c.is_ascii_hexdigit()));
}
