use auth_service::domain::data_stores::UserStore;
use auth_service::domain::data_stores::UserStoreError;
use auth_service::domain::email::Email;
use auth_service::domain::password::HashedPassword;
use auth_service::domain::user::User;
use auth_service::services::data_stores::hashmap_user_store::HashmapUserStore;

#[test]
fn hashmap_user_store_test_add_user() {
    let mut user_store = HashmapUserStore::default();
    let email = Email::parse("bob@example.com".to_string()).unwrap();
    let password = HashedPassword::parse("password".to_string()).unwrap();

    let bob = User::new(email, password, true);
    let bob_clone = bob.clone();

    assert!(user_store.add_user(bob).is_ok());

    assert_eq!(
        user_store.add_user(bob_clone).unwrap_err(),
        UserStoreError::UserAlreadyExists
    );
}

#[test]
fn hashmap_user_store_test_get_user() {
    let mut user_store = HashmapUserStore::default();

    let bob_email = Email::parse("bob@example.com".to_string()).unwrap();
    let bob_password = HashedPassword::parse("password".to_string()).unwrap();
    let bob_requires_2fa = true;
    let bob = User::new(bob_email.clone(), bob_password, bob_requires_2fa);

    assert_eq!(
        user_store.get_user(&bob.email).unwrap_err(),
        UserStoreError::UserNotFound
    );

    user_store.add_user(bob.clone()).unwrap();

    assert_eq!(user_store.get_user(&bob_email).unwrap(), bob);
}

#[test]
fn hashmap_user_store_test_validate_user() {
    let mut user_store = HashmapUserStore::default();

    let bob_email = Email::parse("bob@example.com".to_string()).unwrap();
    let bob_raw_password = "password";
    let bob_password = HashedPassword::parse(bob_raw_password.to_string()).unwrap();
    let bob_requires_2fa = true;
    let bob = User::new(bob_email.clone(), bob_password.clone(), bob_requires_2fa);

    let _ = user_store.add_user(bob.clone());

    assert!(user_store
        .validate_user(&bob_email, bob_raw_password)
        .is_ok());

    let missing_user = Email::parse("somebodyelse@example.com".to_string()).unwrap();
    let missing_raw_password = "blahblahblah";
    assert_eq!(
        user_store
            .validate_user(&missing_user, missing_raw_password)
            .unwrap_err(),
        UserStoreError::UserNotFound
    );
}

#[test]
fn hashmap_user_store_rejects_wrong_password() {
    let mut user_store = HashmapUserStore::new();

    let email = Email::parse("bob@example.com".to_string()).unwrap();
    let password = HashedPassword::parse("password123".to_string()).unwrap();
    user_store
        .add_user(User::new(email.clone(), password, false))
        .unwrap();

    assert_eq!(
        user_store.validate_user(&email, "wrongpassword").unwrap_err(),
        UserStoreError::InvalidCredentials
    );
}
