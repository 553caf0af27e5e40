use auth_service::domain::data_stores::LoginAttemptId;
use auth_service::domain::data_stores::TwoFACode;
use auth_service::domain::data_stores::TwoFACodeStore;
use auth_service::domain::data_stores::TwoFACodeStoreError;
use auth_service::domain::email::Email;
use auth_service::services::data_stores::hashmap_two_fa_code_store::HashmapTwoFACodeStore;

#[test]
fn add_code_successfully_adds_code() {
    let mut store = HashmapTwoFACodeStore::default();

    assert_eq!(store.count(), 0);

    let email = Email::parse("bob@example.com".to_string()).unwrap();
    let login_attempt_id = LoginAttemptId::default();
    let code = TwoFACode::default();
    let result = store.add_code(email.clone(), login_attempt_id.clone(), code.clone());

    assert!(result.is_ok());
    assert!(store.count() == 1);
    assert_eq!(store.get_code(&email), Ok((login_attempt_id, code)));
}

#[test]
fn remove_code_successfully_removes_existing_code() {
    let mut store = HashmapTwoFACodeStore::default();

    let email = Email::parse("bob@example.com".to_string()).unwrap();
    let login_attempt_id = LoginAttemptId::default();
    let code = TwoFACode::default();

    store
        .add_code(email.clone(), login_attempt_id.clone(), code.clone())
        .unwrap();

    assert!(store.count() == 1);
    assert_eq!(store.get_code(&email), Ok((login_attempt_id, code)));

    let result = store.remove_code(&email);

    assert!(result.is_ok());
    assert!(store.get_code(&email).is_err());
}

#[test]
fn remove_code_fails_on_missing_code() {
    let mut store = HashmapTwoFACodeStore::default();

    assert_eq!(store.count(), 0);

    let email = Email::parse("bob@example.com".to_string()).unwrap();

    let result = store.remove_code(&email);

    assert_eq!(result, Err(TwoFACodeStoreError::LoginAttemptIdNotFound));
}

#[test]
fn get_code_successfully_gets_existing_code() {
    let mut store = HashmapTwoFACodeStore::default();

    let email = Email::parse("bob@example.com".to_string()).unwrap();
    let login_attempt_id = LoginAttemptId::default();
    let code = TwoFACode::default();

    store
        .add_code(email.clone(), login_attempt_id.clone(), code.clone())
        .unwrap();

    let result = store.get_code(&email);

    assert_eq!(result, Ok((login_attempt_id, code)));
    assert_eq!(store.count(), 1);
}

#[test]
fn get_code_fails_on_missing_code() {
    let store = HashmapTwoFACodeStore::default();

    let email = Email::parse("bob@example.com".to_string()).unwrap();
    let result = store.get_code(&email);

    assert_eq!(result, Err(TwoFACodeStoreError::LoginAttemptIdNotFound));
}

#[test]
fn add_code_overwrites_existing_challenge() {
    let mut store = HashmapTwoFACodeStore::new();

    let email = Email::parse("bob@example.com".to_string()).unwrap();
    let first_id = LoginAttemptId::default();
    let first_code = TwoFACode::default();
    let second_id = LoginAttemptId::default();
    let second_code = TwoFACode::default();

    store
        .add_code(email.clone(), first_id, first_code)
        .unwrap();
    store
        .add_code(email.clone(), second_id.clone(), second_code.clone())
        .unwrap();

    assert_eq!(store.count(), 1);
    assert_eq!(store.get_code(&email), Ok((second_id, second_code)));
}
