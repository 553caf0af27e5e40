use auth_service::domain::email::Email;

#[test]
fn empty_string_is_invalid() {
    let email = "".to_string();
    assert!(Email::parse(email).is_err());
}

#[test]
fn string_missing_at_symbol_is_invalid() {
    let email = "bobatexample.com".to_string();
    assert!(Email::parse(email).is_err());
}

#[test]
fn valid_email_parses_and_round_trips() {
    let candidates = ["bob@example.com", "a@b.co", "first.last+tag@sub.example.org"];
    for candidate in candidates {
        let email = Email::parse(candidate.to_string()).unwrap();
        assert_eq!(email.as_ref(), candidate);
    }
}

#[test]
fn malformed_addresses_are_rejected() {
    let candidates = ["@", "no-domain@", "@no-user.com", "two@@example.com", "spaces in@user.com"];
    for candidate in candidates {
        assert!(Email::parse(candidate.to_string()).is_err(), "accepted {candidate}");
    }
}
