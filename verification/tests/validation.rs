//! The validation boundary: subscriber names and emails, the subscription
//! flow, tokens, and configuration parsing.

use newsletter::configuration::Environment;
use newsletter::domain::{is_valid_name, SubscriberEmail, SubscriberName};
use newsletter::configuration::ApplicationBaseUrl;
use newsletter::subscriptions::{subscribe, SubscriberStatus, SubscriberStore};

fn base_url() -> ApplicationBaseUrl {
    ApplicationBaseUrl("https://news.example".to_string())
}

#[test]
fn a_256_grapheme_long_name_is_valid() {
    assert!(is_valid_name(&"a".repeat(256)));
}

#[test]
fn a_name_longer_than_256_graphemes_is_rejected() {
    assert!(!is_valid_name(&"a".repeat(257)));
}

#[test]
fn whitespace_only_names_are_rejected() {
    assert!(!is_valid_name(" "));
    assert!(!is_valid_name("   \t\n"));
    assert!(!is_valid_name(""));
}

#[test]
fn names_containing_an_invalid_character_are_rejected() {
    for name in &["/", "(", ")", "\"", "<", ">", "\\", "{", "}"] {
        assert!(!is_valid_name(name), "{} should be rejected", name);
        assert!(SubscriberName::parse(name.to_string()).is_err());
    }
}

#[test]
fn a_valid_name_is_parsed_successfully() {
    assert!(is_valid_name("Ursula Le Guin"));
    let parsed = SubscriberName::parse("Ursula Le Guin".to_string()).expect("a valid name");
    assert_eq!(parsed.as_string(), "Ursula Le Guin");
}

#[test]
fn empty_or_malformed_emails_are_rejected() {
    assert!(SubscriberEmail::parse("".to_string()).is_err());
    assert!(SubscriberEmail::parse("definitely-not-an-email".to_string()).is_err());
    assert!(SubscriberEmail::parse("@domain.com".to_string()).is_err());
    assert!(SubscriberEmail::parse("user@".to_string()).is_err());
    assert!(SubscriberEmail::parse("user name@domain.com".to_string()).is_err());
}

#[test]
fn a_valid_email_is_parsed_successfully() {
    let parsed =
        SubscriberEmail::parse("ursula_le_guin@gmail.com".to_string()).expect("a valid email");
    assert_eq!(parsed.as_string(), "ursula_le_guin@gmail.com");
}

#[test]
fn subscribe_persists_the_new_subscriber_as_pending() {
    let mut store = SubscriberStore::new();
    let form = newsletter::subscriptions::FormData {
        email: "ursula_le_guin@gmail.com".to_string(),
        name: "le guin".to_string(),
    };
    let success = subscribe(&mut store, &base_url(), form).expect("a valid form");
    assert_eq!(success.response.status, 200);
    assert!(success.response.body.is_empty());
    assert_eq!(store.count(), 1);
    let row = store.get(0);
    assert_eq!(row.email, "ursula_le_guin@gmail.com");
    assert_eq!(row.name, "le guin");
    assert!(matches!(row.status, SubscriberStatus::PendingConfirmation));
}

#[test]
fn subscribe_rejects_an_invalid_form_with_a_400() {
    let mut store = SubscriberStore::new();
    let cases = vec![
        ("ursula_le_guin@gmail.com", ""),
        ("", "Ursula"),
        ("definitely-not-an-email", "Ursula"),
    ];
    for (email, name) in cases {
        let form = newsletter::subscriptions::FormData {
            email: email.to_string(),
            name: name.to_string(),
        };
        let err = subscribe(&mut store, &base_url(), form)
            .expect_err("an invalid form must be rejected");
        assert_eq!(err.status_code(), 400);
    }
    assert_eq!(store.count(), 0);
}

#[test]
fn subscribing_the_same_email_twice_fails_with_a_500() {
    let mut store = SubscriberStore::new();
    let form = |name: &str| newsletter::subscriptions::FormData {
        email: "ursula_le_guin@gmail.com".to_string(),
        name: name.to_string(),
    };
    subscribe(&mut store, &base_url(), form("le guin")).expect("first sign-up");
    let err = subscribe(&mut store, &base_url(), form("another"))
        .expect_err("a duplicate email must fail");
    assert_eq!(err.status_code(), 500);
    assert_eq!(store.count(), 1);
}

#[test]
fn the_confirmation_email_carries_the_tokened_link() {
    let mut store = SubscriberStore::new();
    let form = newsletter::subscriptions::FormData {
        email: "ursula_le_guin@gmail.com".to_string(),
        name: "le guin".to_string(),
    };
    let success = subscribe(&mut store, &base_url(), form).expect("a valid form");
    let link = format!(
        "https://news.example/subscriptions/confirm?subscription_token={}",
        success.token
    );
    assert_eq!(success.confirmation_email.to, "ursula_le_guin@gmail.com");
    assert_eq!(success.confirmation_email.subject, "Welcome!");
    assert!(success.confirmation_email.html_body.contains(&link));
    assert!(success.confirmation_email.text_body.contains(&link));
}

#[test]
fn subscription_tokens_are_25_alphanumeric_characters() {
    let mut store = SubscriberStore::new();
    let form = newsletter::subscriptions::FormData {
        email: "a@example.com".to_string(),
        name: "a".to_string(),
    };
    let success = subscribe(&mut store, &base_url(), form).expect("a valid form");
    assert_eq!(success.token.len(), 25);
    assert!(success.token.chars().all(|c| c.is_ascii_alphanumeric()));
}

#[test]
fn confirming_a_token_marks_the_subscriber_confirmed() {
    let mut store = SubscriberStore::new();
    let form = newsletter::subscriptions::FormData {
        email: "a@example.com".to_string(),
        name: "a".to_string(),
    };
    let success = subscribe(&mut store, &base_url(), form).expect("a valid form");
    assert!(matches!(store.get(0).status, SubscriberStatus::PendingConfirmation));

    let id = store
        .confirm_subscriber(&success.token)
        .expect("a freshly issued token must confirm");
    assert_eq!(id, success.subscriber_id);
    assert!(matches!(store.get(0).status, SubscriberStatus::Confirmed));

    assert!(store.confirm_subscriber(&"unknown-token".to_string()).is_err());
}

#[test]
fn only_confirmed_subscribers_are_listed_for_delivery() {
    let mut store = SubscriberStore::new();
    for (email, confirm) in [("a@example.com", true), ("b@example.com", false)] {
        let form = newsletter::subscriptions::FormData {
            email: email.to_string(),
            name: email.to_string().replace('@', " at "),
        };
        let success = subscribe(&mut store, &base_url(), form).expect("a valid form");
        if confirm {
            store.confirm_subscriber(&success.token).expect("confirm");
        }
    }
    let listed = store.get_confirmed_subscribers();
    assert_eq!(listed.len(), 1);
    match &listed[0] {
        Ok(email) => assert_eq!(email.as_string(), "a@example.com"),
        Err(raw) => panic!("a well-formed stored email was rejected: {}", raw),
    }
}

#[test]
fn environment_names_parse_case_insensitively() {
    assert_eq!(Environment::parse("local"), Ok(Environment::Local));
    assert_eq!(Environment::parse("Local"), Ok(Environment::Local));
    assert_eq!(Environment::parse("production"), Ok(Environment::Production));
    assert_eq!(Environment::parse("PRODUCTION"), Ok(Environment::Production));
    assert!(Environment::parse("staging").is_err());
}

#[test]
fn environment_names_round_trip_through_as_str() {
    assert_eq!(Environment::parse(Environment::Local.as_str()), Ok(Environment::Local));
    assert_eq!(
        Environment::parse(Environment::Production.as_str()),
        Ok(Environment::Production)
    );
}
