use auth_service::domain::data_stores::TwoFACodeStore;
use auth_service::domain::error::AuthAPIError;
use auth_service::domain::email::Email;
use auth_service::routes::login::login;
use auth_service::routes::login::LoginRequest;
use auth_service::routes::login::LoginResponse;
use auth_service::routes::logout::logout;
use auth_service::routes::signup::signup;
use auth_service::routes::signup::SignupRequest;
use auth_service::routes::signup::SignupResponse;
use auth_service::routes::verify_2fa::verify_2fa;
use auth_service::routes::verify_2fa::Verify2FARequest;
use auth_service::routes::verify_token::verify_token;
use auth_service::routes::verify_token::VerifyTokenRequest;
use auth_service::services::data_stores::hashmap_two_fa_code_store::HashmapTwoFACodeStore;
use auth_service::services::data_stores::hashmap_user_store::HashmapUserStore;
use auth_service::services::data_stores::hashset_banned_token_store::HashsetBannedTokenStore;

const KEY: &str = "test-signing-key";
const NOW: u64 = 1_700_000_000;

fn login_request(email: &str, password: &str) -> LoginRequest {
    LoginRequest { email: email.to_owned(), password: password.to_owned() }
}

fn signup_request(email: &str, password: &str, requires_2fa: bool) -> SignupRequest {
    SignupRequest { email: email.to_owned(), password: password.to_owned(), requires_2fa }
}

#[test]
fn login_should_return_400_if_invalid_input() {
    let users = HashmapUserStore::new();
    let mut two_fa = HashmapTwoFACodeStore::new();

    let test_cases = [
        ("", "password123"),
        ("invalidemailaddress.com", "password123"),
        ("bob@example.com", "abc"),
    ];

    for (email, password) in test_cases {
        let result = login(&users, &mut two_fa, KEY, NOW, login_request(email, password));
        let err = result.unwrap_err();
        assert_eq!(err, AuthAPIError::InvalidCredentials, "Failed for input: {email} {password}");
        assert_eq!(err.status_code(), 400);
        assert_eq!(err.message(), "Invalid credentials".to_owned());
    }
}

#[test]
fn login_should_return_401_if_incorrect_credentials() {
    let users = HashmapUserStore::new();
    let mut two_fa = HashmapTwoFACodeStore::new();

    let request = login_request("bob@example.com", "abcabcabcabc");
    let err = login(&users, &mut two_fa, KEY, NOW, request).unwrap_err();

    assert_eq!(err, AuthAPIError::IncorrectCredentials);
    assert_eq!(err.status_code(), 401);
    assert_eq!(err.message(), "Incorrect credentials".to_owned());
}

#[test]
fn login_with_wrong_password_is_incorrect_credentials() {
    let mut users = HashmapUserStore::new();
    let mut two_fa = HashmapTwoFACodeStore::new();

    signup(&mut users, signup_request("bob@example.com", "password123", false)).unwrap();

    let err = login(&users, &mut two_fa, KEY, NOW, login_request("bob@example.com", "password456"))
        .unwrap_err();
    assert_eq!(err, AuthAPIError::IncorrectCredentials);
}

#[test]
fn should_return_200_if_valid_credentials_and_2fa_disabled() {
    let mut users = HashmapUserStore::new();
    let mut two_fa = HashmapTwoFACodeStore::new();

    let response = signup(&mut users, signup_request("bob@example.com", "password123", false));
    assert!(response.is_ok());

    let (response, token) =
        login(&users, &mut two_fa, KEY, NOW, login_request("bob@example.com", "password123"))
            .unwrap();

    assert_eq!(response, LoginResponse::RegularAuth);
    let auth_token = token.expect("No auth cookie found");
    assert!(!auth_token.is_empty());
}

#[test]
fn should_return_201_if_valid_input() {
    let mut users = HashmapUserStore::new();

    let test_cases = [
        ("alice@example.com", "password123", true),
        ("bob@example.com", "password456", false),
    ];

    for (email, password, requires_2fa) in test_cases {
        let response = signup(&mut users, signup_request(email, password, requires_2fa)).unwrap();

        let expected_response =
            SignupResponse { message: "User created successfully!".to_owned() };
        assert_eq!(response, expected_response, "Failed for input: {email}");
    }
}

#[test]
fn signup_should_return_400_if_invalid_input() {
    let mut users = HashmapUserStore::new();

    let test_cases = [
        ("", "password123", true),
        ("invalidemailaddress.com", "password123", true),
        ("bob@example.com", "abc", true),
    ];

    for (email, password, requires_2fa) in test_cases {
        let err =
            signup(&mut users, signup_request(email, password, requires_2fa)).unwrap_err();
        assert_eq!(err, AuthAPIError::InvalidCredentials, "Failed for input: {email} {password}");
        assert_eq!(err.status_code(), 400);
        assert_eq!(err.message(), "Invalid credentials".to_owned());
    }
}

#[test]
fn should_return_409_if_email_already_exists() {
    let mut users = HashmapUserStore::new();

    signup(&mut users, signup_request("bob@example.com", "password123", true)).unwrap();

    let err =
        signup(&mut users, signup_request("bob@example.com", "password123", true)).unwrap_err();
    assert_eq!(err, AuthAPIError::UserAlreadyExists);
    assert_eq!(err.status_code(), 409);
    assert_eq!(err.message(), "User already exists".to_owned());
}

#[test]
fn verify_2fa_should_return_400_if_invalid_input() {
    let mut two_fa = HashmapTwoFACodeStore::new();

    let test_cases = [
        ("", "", ""),
        ("notavalidemail.com", "notavalidloginattemptid", "notavalid2facode"),
    ];

    for (email, login_attempt_id, two_fa_code) in test_cases {
        let err = verify_2fa(
            &mut two_fa,
            KEY,
            NOW,
            Verify2FARequest {
                email: email.to_owned(),
                login_attempt_id: login_attempt_id.to_owned(),
                two_fa_code: two_fa_code.to_owned(),
            },
        )
        .unwrap_err();
        assert_eq!(err, AuthAPIError::InvalidCredentials, "Failed for input: {email}");
        assert_eq!(err.status_code(), 400);
    }
}

#[test]
fn verify_2fa_should_return_401_if_incorrect_credentials() {
    let mut two_fa = HashmapTwoFACodeStore::new();

    // Well-formed id and code, but no challenge was ever issued.
    let err = verify_2fa(
        &mut two_fa,
        KEY,
        NOW,
        Verify2FARequest {
            email: "bob@example.com".to_owned(),
            login_attempt_id: "00112233-4455-6677-8899-aabbccddeeff".to_owned(),
            two_fa_code: "123456".to_owned(),
        },
    )
    .unwrap_err();
    assert_eq!(err, AuthAPIError::IncorrectCredentials);
    assert_eq!(err.status_code(), 401);
}

/// Runs a signup plus a login for an account that requires a second factor
/// and hands back the challenge as the client and the store see it.
fn start_two_fa_login(
    users: &mut HashmapUserStore,
    two_fa: &mut HashmapTwoFACodeStore,
    email: &str,
) -> (String, String) {
    signup(users, signup_request(email, "password123", true)).unwrap();

    let (response, token) =
        login(users, two_fa, KEY, NOW, login_request(email, "password123")).unwrap();
    assert!(token.is_none());
    let response_body = match response {
        LoginResponse::TwoFactorAuth(body) => body,
        LoginResponse::RegularAuth => panic!("expected a second-factor challenge"),
    };
    assert_eq!(response_body.message, "2FA required".to_string());
    assert!(!response_body.login_attempt_id.is_empty());

    let parsed = Email::parse(email.to_string()).unwrap();
    let (_, two_fa_code) = two_fa.get_code(&parsed).unwrap();

    (response_body.login_attempt_id, two_fa_code.as_ref().to_owned())
}

#[test]
fn should_return_401_if_old_code() {
    let mut users = HashmapUserStore::new();
    let mut two_fa = HashmapTwoFACodeStore::new();

    let (login_attempt_id, two_fa_code) =
        start_two_fa_login(&mut users, &mut two_fa, "bob@example.com");

    // A second login replaces the pending challenge.
    let (response, _) =
        login(&users, &mut two_fa, KEY, NOW, login_request("bob@example.com", "password123"))
            .unwrap();
    assert!(matches!(response, LoginResponse::TwoFactorAuth(_)));

    let err = verify_2fa(
        &mut two_fa,
        KEY,
        NOW,
        Verify2FARequest {
            email: "bob@example.com".to_owned(),
            login_attempt_id,
            two_fa_code,
        },
    )
    .unwrap_err();
    assert_eq!(err, AuthAPIError::IncorrectCredentials);
    assert_eq!(err.status_code(), 401);
}

#[test]
fn should_return_200_if_correct_code() {
    let mut users = HashmapUserStore::new();
    let mut two_fa = HashmapTwoFACodeStore::new();

    let (login_attempt_id, two_fa_code) =
        start_two_fa_login(&mut users, &mut two_fa, "bob@example.com");

    let auth_token = verify_2fa(
        &mut two_fa,
        KEY,
        NOW,
        Verify2FARequest {
            email: "bob@example.com".to_owned(),
            login_attempt_id,
            two_fa_code,
        },
    )
    .expect("No auth cookie found");
    assert!(!auth_token.is_empty());
}

#[test]
fn should_return_401_if_same_code_twice() {
    let mut users = HashmapUserStore::new();
    let mut two_fa = HashmapTwoFACodeStore::new();

    let (login_attempt_id, two_fa_code) =
        start_two_fa_login(&mut users, &mut two_fa, "bob@example.com");

    let request = Verify2FARequest {
        email: "bob@example.com".to_owned(),
        login_attempt_id: login_attempt_id.clone(),
        two_fa_code: two_fa_code.clone(),
    };
    let auth_token = verify_2fa(&mut two_fa, KEY, NOW, request).unwrap();
    assert!(!auth_token.is_empty());

    let replay = Verify2FARequest {
        email: "bob@example.com".to_owned(),
        login_attempt_id,
        two_fa_code,
    };
    let err = verify_2fa(&mut two_fa, KEY, NOW, replay).unwrap_err();
    assert_eq!(err, AuthAPIError::IncorrectCredentials);
    assert_eq!(err.status_code(), 401);
}

#[test]
fn logout_revokes_the_token() {
    let mut users = HashmapUserStore::new();
    let mut two_fa = HashmapTwoFACodeStore::new();
    let mut banned = HashsetBannedTokenStore::new();

    signup(&mut users, signup_request("bob@example.com", "password123", false)).unwrap();
    let (_, token) =
        login(&users, &mut two_fa, KEY, NOW, login_request("bob@example.com", "password123"))
            .unwrap();
    let token = token.unwrap();

    assert!(verify_token(
        &banned,
        KEY,
        NOW + 1,
        VerifyTokenRequest { token: token.clone() },
    )
    .is_ok());

    logout(&mut banned, KEY, NOW + 1, Some(token.clone())).unwrap();

    let err = verify_token(&banned, KEY, NOW + 1, VerifyTokenRequest { token: token.clone() })
        .unwrap_err();
    assert_eq!(err, AuthAPIError::InvalidToken);

    // A second logout with the now-revoked token is rejected too.
    let err = logout(&mut banned, KEY, NOW + 1, Some(token)).unwrap_err();
    assert_eq!(err, AuthAPIError::InvalidToken);
}

#[test]
fn logout_without_token_is_missing_token() {
    let mut banned = HashsetBannedTokenStore::new();

    let err = logout(&mut banned, KEY, NOW, None).unwrap_err();
    assert_eq!(err, AuthAPIError::MissingToken);
    assert_eq!(err.status_code(), 400);
    assert_eq!(err.message(), "Missing token".to_owned());
}

#[test]
fn verify_token_rejects_garbage() {
    let banned = HashsetBannedTokenStore::new();

    let err = verify_token(
        &banned,
        KEY,
        NOW,
        VerifyTokenRequest { token: "not-a-token".to_owned() },
    )
    .unwrap_err();
    assert_eq!(err, AuthAPIError::InvalidToken);
    assert_eq!(err.status_code(), 401);
    assert_eq!(err.message(), "Invalid token".to_owned());
}
