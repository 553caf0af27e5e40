use auth_service::domain::data_stores::LoginAttemptId;
use auth_service::domain::data_stores::TwoFACode;
use auth_service::domain::data_stores::UserStoreError;
use auth_service::domain::email::Email;
use auth_service::domain::password::HashedPassword;
use auth_service::services::data_stores::postgres_user_store::user_from_row;
use auth_service::services::data_stores::redis_banned_token_store;
use auth_service::services::data_stores::redis_two_fa_code_store;

#[test]
fn banned_token_key_is_prefixed() {
    let key = redis_banned_token_store::get_key("some token value");
    assert_eq!(key, "banned_token:some token value");
}

#[test]
fn two_fa_code_key_is_prefixed() {
    let email = Email::parse("bob@example.com".to_string()).unwrap();
    let key = redis_two_fa_code_store::get_key(&email);
    assert_eq!(key, "two_fa_code:bob@example.com");
}

#[test]
fn two_fa_tuple_round_trips() {
    let login_attempt_id = LoginAttemptId::default();
    let code = TwoFACode::default();

    let stored = redis_two_fa_code_store::encode_two_fa_tuple(&login_attempt_id, &code);
    assert_eq!(
        stored,
        format!("{}:{}", login_attempt_id.as_ref(), code.as_ref())
    );

    let (decoded_id, decoded_code) =
        redis_two_fa_code_store::decode_two_fa_tuple(&stored).unwrap();
    assert_eq!(decoded_id, login_attempt_id);
    assert_eq!(decoded_code, code);
}

#[test]
fn two_fa_tuple_rejects_corrupt_values() {
    let candidates = [
        "",
        "not a stored tuple",
        "00112233-4455-6677-8899-aabbccddeeff:12345",
        "00112233-4455-6677-8899-aabbccddeeff 123456",
        "00112233+4455+6677+8899+aabbccddeeff:123456",
    ];
    for candidate in candidates {
        assert!(
            redis_two_fa_code_store::decode_two_fa_tuple(candidate).is_none(),
            "accepted {candidate}"
        );
    }
}

#[test]
fn attempt_id_and_code_formats() {
    let id = LoginAttemptId::default();
    assert!(LoginAttemptId::parse(id.as_ref().to_owned()).is_ok());
    assert!(LoginAttemptId::parse("notavalidloginattemptid".to_owned()).is_err());
    assert!(LoginAttemptId::parse("00112233-4455-6677-8899-aabbccddeeff".to_owned()).is_ok());

    let code = TwoFACode::default();
    assert!(TwoFACode::parse(code.as_ref().to_owned()).is_ok());
    assert_eq!(code.as_ref().len(), 6);
    assert!(TwoFACode::parse("123456".to_owned()).is_ok());
    assert!(TwoFACode::parse("012345".to_owned()).is_err());
    assert!(TwoFACode::parse("12345".to_owned()).is_err());
    assert!(TwoFACode::parse("notavalid2facode".to_owned()).is_err());
}

#[test]
fn user_from_row_rebuilds_a_stored_user() {
    let hashed = HashedPassword::parse("password123".to_string()).unwrap();

    let user = user_from_row(
        "bob@example.com".to_owned(),
        hashed.as_ref().to_owned(),
        true,
    )
    .unwrap();
    assert_eq!(user.email.as_ref(), "bob@example.com");
    assert_eq!(user.password.as_ref(), hashed.as_ref());
    assert!(user.requires_2fa);

    assert_eq!(
        user_from_row("not-an-email".to_owned(), hashed.as_ref().to_owned(), false),
        Err(UserStoreError::UnexpectedError)
    );
    assert_eq!(
        user_from_row("bob@example.com".to_owned(), "not-a-hash".to_owned(), false),
        Err(UserStoreError::UnexpectedError)
    );
}
