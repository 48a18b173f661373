use axum::http::header::AUTHORIZATION;
use axum::http::{HeaderMap, HeaderValue};
use pinokio::auth::{is_authorized, is_token_accepted};

fn with_authorization(value: &[u8]) -> HeaderMap {
    let mut headers = HeaderMap::new();
    headers.insert(AUTHORIZATION, HeaderValue::from_bytes(value).unwrap());
    headers
}

#[test]
fn no_configured_token_accepts_every_request() {
    assert!(is_authorized(None, None, &HeaderMap::new()));
    assert!(is_authorized(None, Some("x"), &with_authorization(b"Basic y")));
}

#[test]
fn query_token_must_match() {
    let none = HeaderMap::new();
    assert!(is_authorized(Some("secret"), Some("secret"), &none));
    assert!(!is_authorized(Some("secret"), Some("Secret"), &none));
    assert!(!is_authorized(Some("secret"), Some("secret "), &none));
    assert!(!is_authorized(Some("secret"), Some(""), &none));
    assert!(!is_authorized(Some("secret"), None, &none));
}

#[test]
fn bearer_token_must_match() {
    assert!(is_authorized(Some("secret"), None, &with_authorization(b"Bearer secret")));
    assert!(is_authorized(Some("secret"), None, &with_authorization(b"Bearer   secret \t")));
    assert!(!is_authorized(Some("secret"), None, &with_authorization(b"bearer secret")));
    assert!(!is_authorized(Some("secret"), None, &with_authorization(b"Bearer")));
    assert!(!is_authorized(Some("secret"), None, &with_authorization(b"secret")));
    assert!(!is_authorized(Some("secret"), None, &with_authorization(b"Bearer secret2")));
}

#[test]
fn header_that_is_no_text_carries_no_token() {
    let token = "s\u{e9}cret";
    assert!(!is_authorized(Some(token), None, &with_authorization("Bearer sécret".as_bytes())));
    assert!(is_authorized(Some(token), Some(token), &with_authorization(b"Bearer x")));
}

#[test]
fn first_authorization_header_counts() {
    let mut headers = with_authorization(b"Bearer first");
    headers.append(AUTHORIZATION, HeaderValue::from_static("Bearer second"));
    assert!(is_authorized(Some("first"), None, &headers));
    assert!(!is_authorized(Some("second"), None, &headers));
}

#[test]
fn query_token_decides_alone() {
    let headers = with_authorization(b"Bearer secret");
    assert!(!is_authorized(Some("secret"), Some("wrong"), &headers));
}

#[test]
fn token_in_the_header_text() {
    assert!(is_token_accepted(Some("t"), None, Some("Bearer t")));
    assert!(!is_token_accepted(Some("t"), None, Some("Bearer u")));
    assert!(!is_token_accepted(Some("t"), None, None));
    assert!(is_token_accepted(Some(""), None, Some("Bearer  ")));
}
