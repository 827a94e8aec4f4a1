use ajaya::cors::{CorsDecision, CorsLayer};
use ajaya::method_filter::Method;

fn request(origin: Option<&str>, preflight: bool) -> http::HeaderMap {
    let mut h = http::HeaderMap::new();
    if let Some(o) = origin {
        h.insert("origin", o.parse().unwrap());
    }
    if preflight {
        h.insert("access-control-request-method", "POST".parse().unwrap());
        h.insert("access-control-request-headers", "x-token".parse().unwrap());
    }
    h
}

#[test]
fn permissive_preflight_answers_with_wildcard() {
    let layer = CorsLayer::permissive();
    let d = layer.decide(&Method::Options, &request(Some("https://a.example"), true));
    let resp = match d {
        CorsDecision::Preflight(r) => r,
        _ => panic!("expected a preflight answer"),
    };
    assert_eq!(resp.status, 204);
    assert!(resp.body.is_empty());
    let h = &resp.headers;
    assert_eq!(h.get("access-control-allow-origin").unwrap(), "*");
    assert_eq!(
        h.get("access-control-allow-methods").unwrap(),
        "GET, HEAD, POST, PUT, DELETE, PATCH, OPTIONS"
    );
    assert_eq!(h.get("access-control-allow-headers").unwrap(), "*");
    assert_eq!(h.get("access-control-max-age").unwrap(), "86400");
    assert!(h.get("access-control-allow-credentials").is_none());
    assert!(h.get("vary").is_none());
}

#[test]
fn request_without_origin_passes_through() {
    let layer = CorsLayer::permissive();
    assert!(matches!(layer.decide(&Method::Get, &request(None, false)), CorsDecision::PassThrough));
}

#[test]
fn options_without_request_method_is_an_actual_request() {
    let layer = CorsLayer::permissive();
    match layer.decide(&Method::Options, &request(Some("https://a.example"), false)) {
        CorsDecision::Actual(o) => assert_eq!(o, b"https://a.example".to_vec()),
        _ => panic!("expected an actual request"),
    }
}

#[test]
fn disallowed_origin_gets_bare_preflight_and_untouched_response() {
    let layer = CorsLayer::new().allow_origin(vec![b"https://good.example".to_vec()]);
    let resp = layer.build_preflight(b"https://evil.example", &request(None, true));
    assert_eq!(resp.status, 204);
    assert!(resp.headers.is_empty());

    let mut h = http::HeaderMap::new();
    h.insert("content-type", "text/plain".parse().unwrap());
    let before = h.clone();
    layer.apply_response_headers(&mut h, b"https://evil.example");
    assert_eq!(h, before);
}

#[test]
fn allow_listed_origin_is_reflected_with_vary() {
    let layer = CorsLayer::new()
        .allow_origin(vec![b"https://good.example".to_vec()])
        .allow_headers(vec!["authorization".to_string(), "content-type".to_string()])
        .expose_headers(vec!["x-request-id".to_string()]);
    let resp = layer.build_preflight(b"https://good.example", &request(None, true));
    let h = &resp.headers;
    assert_eq!(h.get("access-control-allow-origin").unwrap(), "https://good.example");
    assert_eq!(h.get("access-control-allow-methods").unwrap(), "GET, POST, PUT, DELETE, PATCH");
    assert_eq!(h.get("access-control-allow-headers").unwrap(), "authorization, content-type");
    assert_eq!(h.get("access-control-max-age").unwrap(), "3600");
    assert_eq!(h.get("vary").unwrap(), "origin");

    let mut r = http::HeaderMap::new();
    r.insert("vary", "accept-encoding".parse().unwrap());
    layer.apply_response_headers(&mut r, b"https://good.example");
    assert_eq!(r.get("access-control-allow-origin").unwrap(), "https://good.example");
    assert_eq!(r.get("access-control-expose-headers").unwrap(), "x-request-id");
    let vary: Vec<_> = r.get_all("vary").iter().map(|v| v.to_str().unwrap().to_string()).collect();
    assert_eq!(vary, vec!["accept-encoding".to_string(), "origin".to_string()]);
    assert!(r.get("access-control-allow-credentials").is_none());
}

#[test]
fn credentials_turn_wildcard_into_mirrored_origin() {
    let layer = CorsLayer::permissive().allow_credentials(true);
    let mut r = http::HeaderMap::new();
    layer.apply_response_headers(&mut r, b"https://app.example");
    assert_eq!(r.get("access-control-allow-origin").unwrap(), "https://app.example");
    assert_eq!(r.get("access-control-allow-credentials").unwrap(), "true");
    assert_eq!(r.get("vary").unwrap(), "origin");
}

#[test]
fn very_permissive_mirrors_requested_headers() {
    let layer = CorsLayer::very_permissive();
    let resp = layer.build_preflight(b"https://x.example", &request(Some("https://x.example"), true));
    let h = &resp.headers;
    assert_eq!(h.get("access-control-allow-origin").unwrap(), "https://x.example");
    assert_eq!(h.get("access-control-allow-headers").unwrap(), "x-token");
    assert_eq!(h.get("access-control-allow-credentials").unwrap(), "true");
}

#[test]
fn method_list_and_max_age_builders() {
    let layer = CorsLayer::permissive()
        .allow_methods(vec![Method::Get, Method::Extension("PURGE".to_string())])
        .max_age_secs(60);
    assert_eq!(layer.methods_header(), "GET, PURGE");
    let resp = layer.build_preflight(b"o", &http::HeaderMap::new());
    assert_eq!(resp.headers.get("access-control-max-age").unwrap(), "60");
    let layer = layer.max_age(ajaya::duration::TimeSpan::from_millis(2500));
    let resp = layer.build_preflight(b"o", &http::HeaderMap::new());
    assert_eq!(resp.headers.get("access-control-max-age").unwrap(), "2");
}

#[test]
fn empty_header_list_sends_no_allow_headers() {
    let layer = CorsLayer::new().allow_origin(vec![b"o".to_vec()]);
    assert_eq!(layer.headers_header(&http::HeaderMap::new()), None);
    assert_eq!(layer.resolved_origin(b"o"), Some(b"o".to_vec()));
    assert_eq!(layer.resolved_origin(b"p"), None);
}
