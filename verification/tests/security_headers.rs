use ajaya::security_headers::{
    HeaderMode, SecurityHeadersLayer, SensitiveHeadersLayer, SetRequestHeaderLayer,
    SetResponseHeaderLayer,
};

#[test]
fn defaults_are_added() {
    let mut h = http::HeaderMap::new();
    SecurityHeadersLayer::new().apply(&mut h);
    assert_eq!(h.get("x-frame-options").unwrap(), "DENY");
    assert_eq!(h.get("x-content-type-options").unwrap(), "nosniff");
    assert_eq!(h.get("x-xss-protection").unwrap(), "1; mode=block");
    assert_eq!(h.get("strict-transport-security").unwrap(), "max-age=31536000; includeSubDomains");
    assert_eq!(h.get("referrer-policy").unwrap(), "strict-origin-when-cross-origin");
    assert_eq!(h.get("permissions-policy").unwrap(), "geolocation=(), microphone=(), camera=()");
    assert!(h.get("content-security-policy").unwrap().to_str().unwrap().starts_with("default-src 'self'"));
    assert_eq!(h.len(), 7);
}

#[test]
fn existing_headers_are_never_replaced() {
    let mut h = http::HeaderMap::new();
    h.insert("x-frame-options", "SAMEORIGIN".parse().unwrap());
    h.insert("content-security-policy", "default-src *".parse().unwrap());
    SecurityHeadersLayer::new().apply(&mut h);
    assert_eq!(h.get("x-frame-options").unwrap(), "SAMEORIGIN");
    assert_eq!(h.get("content-security-policy").unwrap(), "default-src *");
}

#[test]
fn builders_change_the_suite() {
    let layer = SecurityHeadersLayer::new()
        .hsts_max_age(60)
        .frame_options("SAMEORIGIN")
        .no_content_security_policy();
    let mut h = http::HeaderMap::new();
    layer.apply(&mut h);
    assert_eq!(h.get("strict-transport-security").unwrap(), "max-age=60; includeSubDomains");
    assert_eq!(h.get("x-frame-options").unwrap(), "SAMEORIGIN");
    assert!(h.get("content-security-policy").is_none());

    let mut h = http::HeaderMap::new();
    SecurityHeadersLayer::new().content_security_policy("img-src *".to_string()).apply(&mut h);
    assert_eq!(h.get("content-security-policy").unwrap(), "img-src *");
    // an invalid value is skipped
    let mut h = http::HeaderMap::new();
    SecurityHeadersLayer::new().content_security_policy("a\nb".to_string()).apply(&mut h);
    assert!(h.get("content-security-policy").is_none());
}

#[test]
fn header_modes() {
    let mut h = http::HeaderMap::new();
    h.insert("x-powered-by", "old".parse().unwrap());
    SetResponseHeaderLayer::if_not_present("X-Powered-By", "new").header().apply(&mut h);
    assert_eq!(h.get("x-powered-by").unwrap(), "old");
    SetResponseHeaderLayer::appending("x-powered-by", "more").header().apply(&mut h);
    assert_eq!(h.get_all("x-powered-by").iter().count(), 2);
    SetResponseHeaderLayer::overriding("x-powered-by", "ajaya").header().apply(&mut h);
    let all: Vec<_> = h.get_all("x-powered-by").iter().collect();
    assert_eq!(all.len(), 1);
    assert_eq!(all[0], "ajaya");

    let mut h = http::HeaderMap::new();
    SetRequestHeaderLayer::if_not_present("X-Tenant", "t1").header().apply(&mut h);
    assert_eq!(h.get("x-tenant").unwrap(), "t1");
    SetRequestHeaderLayer::overriding("x-tenant", "t2").header().apply(&mut h);
    assert_eq!(h.get("x-tenant").unwrap(), "t2");
    assert_eq!(HeaderMode::Appending, HeaderMode::Appending);
}

#[test]
fn sensitive_headers_marker_lists_names() {
    let layer = SensitiveHeadersLayer::new(vec!["authorization".to_string(), "cookie".to_string()]);
    let m = layer.marker();
    assert_eq!(m.0, vec!["authorization".to_string(), "cookie".to_string()]);
}
