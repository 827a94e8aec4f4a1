use ajaya::csrf::{
    csrf_forbidden, extract_cookie, is_state_changing, CsrfDecision, CsrfLayer, CsrfToken,
    SameSite,
};
use ajaya::method_filter::Method;

fn headers(cookie: Option<&str>, token: Option<&str>) -> http::HeaderMap {
    let mut h = http::HeaderMap::new();
    if let Some(c) = cookie {
        h.insert("cookie", c.parse().unwrap());
    }
    if let Some(t) = token {
        h.insert("x-csrf-token", t.parse().unwrap());
    }
    h
}

fn is_uuid(s: &str) -> bool {
    s.len() == 36 && s.chars().all(|c| c.is_ascii_hexdigit() && !c.is_ascii_uppercase() || c == '-')
}

#[test]
fn safe_methods_always_pass_and_get_a_new_token() {
    let layer = CsrfLayer::new();
    match layer.decide(&Method::Get, &headers(None, None)) {
        CsrfDecision::Proceed { token, set_cookie } => {
            assert!(set_cookie);
            assert!(is_uuid(token.as_str()));
        }
        _ => panic!("GET must pass"),
    }
}

#[test]
fn post_with_matching_header_passes() {
    let layer = CsrfLayer::new();
    let h = headers(Some("theme=dark; csrf_token=abc123"), Some("abc123"));
    match layer.decide(&Method::Post, &h) {
        CsrfDecision::Proceed { token, set_cookie } => {
            assert_eq!(token.as_str(), "abc123");
            assert!(!set_cookie);
        }
        _ => panic!("matching token must pass"),
    }
}

#[test]
fn post_without_cookie_mismatch_or_missing_header_is_forbidden() {
    let layer = CsrfLayer::new();
    for h in [
        headers(None, Some("abc")),
        headers(Some("csrf_token=abc"), Some("xyz")),
        headers(Some("csrf_token=abc"), None),
    ] {
        match layer.decide(&Method::Delete, &h) {
            CsrfDecision::Reject(resp) => {
                assert_eq!(resp.status, 403);
                assert_eq!(resp.headers.get("content-type").unwrap(), "application/json");
                assert_eq!(
                    String::from_utf8(resp.body).unwrap(),
                    r#"{"error":"Forbidden","code":403,"message":"CSRF token validation failed"}"#
                );
            }
            _ => panic!("must be refused"),
        }
    }
}

#[test]
fn cookie_lookup_takes_first_match_trimmed() {
    let mut h = http::HeaderMap::new();
    h.append("cookie", "a=1;  csrf_token = first ; csrf_token=second".parse().unwrap());
    h.append("cookie", "csrf_token=third".parse().unwrap());
    assert_eq!(extract_cookie(&h, "csrf_token"), Some("first".to_string()));
    assert_eq!(extract_cookie(&h, "missing"), None);
    let mut h = http::HeaderMap::new();
    h.append("cookie", "other=1".parse().unwrap());
    h.append("cookie", "csrf_token=v=w".parse().unwrap());
    assert_eq!(extract_cookie(&h, "csrf_token"), Some("v=w".to_string()));
}

#[test]
fn state_changing_methods() {
    assert!(!is_state_changing(&Method::Get));
    assert!(!is_state_changing(&Method::Head));
    assert!(!is_state_changing(&Method::Options));
    assert!(!is_state_changing(&Method::Trace));
    assert!(is_state_changing(&Method::Post));
    assert!(is_state_changing(&Method::Put));
    assert!(is_state_changing(&Method::Patch));
    assert!(is_state_changing(&Method::Delete));
    assert!(is_state_changing(&Method::Extension("PURGE".to_string())));
}

#[test]
fn token_cookie_text_and_header() {
    let token = CsrfToken::from_string("tok".to_string());
    let layer = CsrfLayer::new();
    assert_eq!(layer.cookie_text(&token), "csrf_token=tok; SameSite=Strict; Path=/");
    let layer = CsrfLayer::new().secure(true).same_site(SameSite::Lax);
    assert_eq!(layer.cookie_text(&token), "csrf_token=tok; SameSite=Lax; Secure; Path=/");
    let layer = CsrfLayer::new().same_site(SameSite::Unrestricted);
    assert_eq!(layer.cookie_text(&token), "csrf_token=tok; SameSite=None; Path=/");
    let mut h = http::HeaderMap::new();
    CsrfLayer::new().set_token_cookie(&token, &mut h);
    assert_eq!(h.get("set-cookie").unwrap(), "csrf_token=tok; SameSite=Strict; Path=/");
    assert_eq!(csrf_forbidden().status, 403);
    assert!(is_uuid(CsrfToken::new().as_str()));
}
