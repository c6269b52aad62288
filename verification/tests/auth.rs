//! Credential verification, 'Basic' header decoding, login decisions, and
//! the HMAC-tagged query string — exercised against the real argon2,
//! base64, hmac, sha2, hex and urlencoding implementations.

use argon2::{Argon2, PasswordHasher};
use base64::Engine;
use hmac::{KeyInit, Mac};
use newsletter::authentication::{
    basic_authentication, validate_credentials, AuthError, BasicAuthError, CredentialStore,
    Credentials, StoredCredential,
};
use newsletter::login::{
    hex_decode, login, login_form, login_redirect, HmacSecret, LoginError, QueryParams, TagError,
};

fn phc_hash_of(password: &str) -> String {
    Argon2::default()
        .hash_password_with_salt(password.as_bytes(), b"a-test-only-salt")
        .expect("hashing a test password should succeed")
        .to_string()
}

fn store_with_user(username: &str, password: &str, user_id: u128) -> CredentialStore {
    let mut store = CredentialStore::new();
    store
        .add_user(StoredCredential {
            user_id,
            username: username.to_string(),
            password_hash: phc_hash_of(password),
        })
        .expect("adding a fresh username should succeed");
    store
}

#[test]
fn valid_credentials_verify_to_the_stored_user_id() {
    let store = store_with_user("admin", "everythinghastostartsomewhere", 42);
    let credentials = Credentials {
        username: "admin".to_string(),
        password: "everythinghastostartsomewhere".to_string(),
    };
    assert_eq!(validate_credentials(&store, &credentials).ok(), Some(42));
}

#[test]
fn a_wrong_password_is_invalid_credentials() {
    let store = store_with_user("admin", "right-password", 42);
    let credentials = Credentials {
        username: "admin".to_string(),
        password: "wrong-password".to_string(),
    };
    match validate_credentials(&store, &credentials) {
        Err(AuthError::InvalidCredentials(_)) => {}
        other => panic!("expected invalid credentials, got {:?}", other.is_ok()),
    }
}

#[test]
fn an_unknown_username_is_invalid_credentials() {
    let store = store_with_user("admin", "some-password", 42);
    let credentials = Credentials {
        username: "random-username".to_string(),
        password: "random-password".to_string(),
    };
    match validate_credentials(&store, &credentials) {
        Err(AuthError::InvalidCredentials(_)) => {}
        other => panic!("expected invalid credentials, got {:?}", other.is_ok()),
    }
}

#[test]
fn an_unusable_stored_hash_is_an_unexpected_error() {
    let mut store = CredentialStore::new();
    store
        .add_user(StoredCredential {
            user_id: 1,
            username: "admin".to_string(),
            password_hash: "not a PHC string".to_string(),
        })
        .expect("adding a fresh username should succeed");
    let credentials = Credentials {
        username: "admin".to_string(),
        password: "whatever".to_string(),
    };
    match validate_credentials(&store, &credentials) {
        Err(AuthError::UnexpectedError(_)) => {}
        other => panic!("expected an unexpected error, got {:?}", other.is_ok()),
    }
}

#[test]
fn unknown_username_timing_resembles_wrong_password_timing() {
    let store = store_with_user("admin", "right-password", 42);
    let wrong = Credentials {
        username: "admin".to_string(),
        password: "wrong-password".to_string(),
    };
    let unknown = Credentials {
        username: "random-username".to_string(),
        password: "wrong-password".to_string(),
    };
    let _ = validate_credentials(&store, &wrong);
    let _ = validate_credentials(&store, &unknown);

    let t0 = std::time::Instant::now();
    for _ in 0..3 {
        let _ = validate_credentials(&store, &wrong);
    }
    let known_user_time = t0.elapsed();

    let t1 = std::time::Instant::now();
    for _ in 0..3 {
        let _ = validate_credentials(&store, &unknown);
    }
    let unknown_user_time = t1.elapsed();

    // The fallback verification keeps the unknown-username path doing the
    // same hashing work; without it this path would be orders of magnitude
    // faster. The bound is loose on purpose: this is an approximate check.
    assert!(
        unknown_user_time * 4 >= known_user_time,
        "unknown-username verification returned suspiciously fast: {:?} vs {:?}",
        unknown_user_time,
        known_user_time
    );
}

#[test]
fn duplicate_usernames_are_refused() {
    let mut store = store_with_user("admin", "pw", 1);
    let err = store.add_user(StoredCredential {
        user_id: 2,
        username: "admin".to_string(),
        password_hash: phc_hash_of("other"),
    });
    assert!(err.is_err());
}

#[test]
fn basic_authentication_decodes_username_and_password() {
    let encoded = base64::engine::general_purpose::STANDARD.encode("user:pass:word");
    let header = format!("Basic {}", encoded);
    let credentials =
        basic_authentication(Some(&header)).expect("a well-formed header must decode");
    assert_eq!(credentials.username, "user");
    assert_eq!(credentials.password, "pass:word");
}

#[test]
fn basic_authentication_rejects_each_malformed_header_distinctly() {
    assert!(matches!(basic_authentication(None), Err(BasicAuthError::MissingHeader)));

    let bearer = "Bearer abc".to_string();
    assert!(matches!(basic_authentication(Some(&bearer)), Err(BasicAuthError::NotBasic)));

    let bad_base64 = "Basic !!!not-base64!!!".to_string();
    assert!(matches!(
        basic_authentication(Some(&bad_base64)),
        Err(BasicAuthError::InvalidBase64)
    ));

    let bad_utf8 = format!(
        "Basic {}",
        base64::engine::general_purpose::STANDARD.encode([0xffu8, 0xfe, 0xfd])
    );
    assert!(matches!(basic_authentication(Some(&bad_utf8)), Err(BasicAuthError::InvalidUtf8)));

    let no_colon = format!(
        "Basic {}",
        base64::engine::general_purpose::STANDARD.encode("username-alone")
    );
    assert!(matches!(
        basic_authentication(Some(&no_colon)),
        Err(BasicAuthError::MissingPassword)
    ));
}

#[test]
fn a_failed_login_redirects_with_an_error_flash_message() {
    let store = store_with_user("admin", "right-password", 42);
    let form = newsletter::login::FormData {
        username: "random-username".to_string(),
        password: "random-password".to_string(),
    };
    let (error, response) = match login(&store, form) {
        Err(failure) => failure,
        Ok(_) => panic!("wrong credentials must fail"),
    };
    assert_eq!(error.status_code(), 303);
    assert_eq!(error.message(), "Authentication failed");
    assert_eq!(response.status, 303);
    assert_eq!(response.headers[0].0, "Location");
    assert_eq!(response.headers[0].1, "/login");
    assert_eq!(response.headers[1].0, "X-Flash");
    assert_eq!(response.headers[1].1, "Authentication failed");

    let again = login_redirect(&LoginError::AuthError("nope".to_string()));
    assert_eq!(again.headers[1].1, "Authentication failed");
}

#[test]
fn a_successful_login_redirects_to_the_dashboard() {
    let store = store_with_user("admin", "right-password", 42);
    let form = newsletter::login::FormData {
        username: "admin".to_string(),
        password: "right-password".to_string(),
    };
    let (user_id, response) = match login(&store, form) {
        Ok(success) => success,
        Err(_) => panic!("right credentials must succeed"),
    };
    assert_eq!(user_id, 42);
    assert_eq!(response.status, 303);
    assert_eq!(response.headers.len(), 1);
    assert_eq!(response.headers[0].1, "/admin/dashboard");
}

#[test]
fn the_login_page_renders_pending_flash_messages() {
    let page = login_form(&vec!["Authentication failed".to_string()]);
    assert!(page.contains("<p><i>Authentication failed</i></p>"));
    assert!(page.contains("<form action=\"/login\" method=\"post\">"));

    let bare = login_form(&Vec::new());
    assert!(!bare.contains("<p><i>"));
}

#[test]
fn hex_decoding_matches_the_reference_implementation() {
    assert_eq!(hex_decode("deadBEEF"), Some(hex::decode("deadBEEF").unwrap()));
    assert_eq!(hex_decode(""), Some(Vec::new()));
    assert_eq!(hex_decode("abc"), None);
    assert_eq!(hex_decode("zz"), None);
}

#[test]
fn a_correctly_tagged_error_message_is_accepted() {
    let secret = HmacSecret("super-secret".to_string());
    let error = "Authentication failed".to_string();
    let query_string = format!("error={}", urlencoding::encode(&error));
    let mut mac =
        <hmac::Hmac<sha2::Sha256> as KeyInit>::new_from_slice(b"super-secret").unwrap();
    mac.update(query_string.as_bytes());
    let tag = hex::encode(mac.finalize().into_bytes());

    let params = QueryParams { error: error.clone(), tag };
    assert_eq!(params.verify(&secret), Ok(error));
}

#[test]
fn a_tampered_error_message_is_rejected() {
    let secret = HmacSecret("super-secret".to_string());
    let query_string = format!("error={}", urlencoding::encode("Authentication failed"));
    let mut mac =
        <hmac::Hmac<sha2::Sha256> as KeyInit>::new_from_slice(b"super-secret").unwrap();
    mac.update(query_string.as_bytes());
    let tag = hex::encode(mac.finalize().into_bytes());

    let tampered = QueryParams { error: "You are now an admin".to_string(), tag };
    assert_eq!(tampered.verify(&secret), Err(TagError::TagMismatch));

    let not_hex = QueryParams {
        error: "Authentication failed".to_string(),
        tag: "not-hex".to_string(),
    };
    assert_eq!(not_hex.verify(&secret), Err(TagError::InvalidHex));
}

#[test]
fn publish_error_responses_carry_the_documented_statuses() {
    let auth = newsletter::newsletters::PublishError::AuthError("denied".to_string());
    let response = auth.error_response();
    assert_eq!(response.status, 401);
    assert_eq!(
        response.headers,
        vec![("WWW-Authenticate".to_string(), "Basic realm=\"publish\"".to_string())]
    );

    let unexpected =
        newsletter::newsletters::PublishError::UnexpectedError("boom".to_string());
    let response = unexpected.error_response();
    assert_eq!(response.status, 500);
    assert!(response.headers.is_empty());
    assert!(response.body.is_empty());
}

#[test]
fn authorize_publish_accepts_only_verified_basic_credentials() {
    let store = store_with_user("publisher", "s3cret", 77);
    let good = format!(
        "Basic {}",
        base64::engine::general_purpose::STANDARD.encode("publisher:s3cret")
    );
    assert_eq!(
        newsletter::newsletters::authorize_publish(&store, Some(&good)).ok(),
        Some(77)
    );

    let wrong = format!(
        "Basic {}",
        base64::engine::general_purpose::STANDARD.encode("publisher:wrong")
    );
    match newsletter::newsletters::authorize_publish(&store, Some(&wrong)) {
        Err(newsletter::newsletters::PublishError::AuthError(_)) => {}
        _ => panic!("wrong password must be an authentication failure"),
    }
    match newsletter::newsletters::authorize_publish(&store, None) {
        Err(newsletter::newsletters::PublishError::AuthError(_)) => {}
        _ => panic!("a missing header must be an authentication failure"),
    }
}
