use ajaya::body_limit::{collect_limited, payload_too_large, BodyCollector, RequestBodyLimitLayer};
use ajaya::rate_limit::{too_many_requests, KeyExtractor, RateLimitLayer};
use ajaya::request_id::{PropagateRequestIdLayer, RequestId, RequestIdLayer};
use ajaya::timeout::{default_panic_response, timeout_response_for, TimeoutLayer};
use ajaya::map_response::{map_response, map_response_with_state};

fn text(body: &[u8]) -> String {
    String::from_utf8(body.to_vec()).unwrap()
}

#[test]
fn declared_length_above_limit_is_refused() {
    let svc = RequestBodyLimitLayer::new(10).layer(());
    let mut h = http::HeaderMap::new();
    h.insert("content-length", "11".parse().unwrap());
    assert!(svc.declared_too_large(&h));
    h.insert("content-length", "10".parse().unwrap());
    assert!(!svc.declared_too_large(&h));
    h.insert("content-length", "ten".parse().unwrap());
    assert!(!svc.declared_too_large(&h));
    assert!(!svc.declared_too_large(&http::HeaderMap::new()));
    assert_eq!(svc.limit(), 10);
}

#[test]
fn streamed_body_is_refused_exactly_when_longer_than_the_limit() {
    let chunks = vec![b"abc".to_vec(), b"defg".to_vec()];
    assert_eq!(collect_limited(&chunks, 7), Some(b"abcdefg".to_vec()));
    assert_eq!(collect_limited(&chunks, 6), None);
    assert_eq!(collect_limited(&vec![], 0), Some(vec![]));

    let mut c = BodyCollector::new(4);
    assert!(c.push_data(b"ab"));
    assert!(c.push_data(b"cd"));
    assert!(!c.push_data(b"e"));
    assert_eq!(c.into_bytes(), b"abcde");
}

#[test]
fn payload_too_large_body_names_the_limit() {
    let r = payload_too_large(1024);
    assert_eq!(r.status, 413);
    assert_eq!(r.headers.get("content-type").unwrap(), "application/json");
    assert_eq!(text(&r.body), r#"{"error":"Payload Too Large","code":413,"limit_bytes":1024}"#);
}

#[test]
fn rate_limit_keys() {
    let mut h = http::HeaderMap::new();
    h.insert("x-forwarded-for", " 10.0.0.1 , 10.0.0.2".parse().unwrap());
    h.insert("x-real-ip", "10.9.9.9".parse().unwrap());
    assert_eq!(KeyExtractor::IpAddress.extract_key(&h, None), "10.0.0.1");
    h.remove("x-forwarded-for");
    assert_eq!(KeyExtractor::IpAddress.extract_key(&h, None), "10.9.9.9");
    let empty = http::HeaderMap::new();
    assert_eq!(KeyExtractor::IpAddress.extract_key(&empty, Some("127.0.0.1".to_string())), "127.0.0.1");
    assert_eq!(KeyExtractor::IpAddress.extract_key(&empty, None), "unknown");

    let mut h = http::HeaderMap::new();
    h.insert("x-api-key", "k1".parse().unwrap());
    assert_eq!(KeyExtractor::Header("X-Api-Key".to_string()).extract_key(&h, None), "k1");
    assert_eq!(KeyExtractor::Header("x-other".to_string()).extract_key(&h, None), "unknown");
    assert_eq!(KeyExtractor::Header("bad name".to_string()).extract_key(&h, None), "unknown");
    assert_eq!(KeyExtractor::Global.extract_key(&h, None), "__global__");

    let layer = RateLimitLayer::new(5, ajaya::duration::TimeSpan::from_secs(1)).by_header("x-api-key".to_string());
    assert_eq!(layer.capacity(), 5);
    assert!(matches!(layer.extractor(), KeyExtractor::Header(_)));
    assert!(matches!(layer.global().extractor(), KeyExtractor::Global));
}

#[test]
fn too_many_requests_answer() {
    let r = too_many_requests(3, 100);
    assert_eq!(r.status, 429);
    assert_eq!(r.headers.get("retry-after").unwrap(), "3");
    assert_eq!(r.headers.get("x-ratelimit-limit").unwrap(), "100");
    assert_eq!(r.headers.get("x-ratelimit-remaining").unwrap(), "0");
    assert_eq!(r.headers.get("content-type").unwrap(), "application/json");
    assert_eq!(text(&r.body), r#"{"error":"Too Many Requests","code":429,"retry_after":3}"#);
}

#[test]
fn request_id_is_reused_or_generated_and_echoed() {
    let svc = RequestIdLayer::new().layer(());
    let mut h = http::HeaderMap::new();
    h.insert("x-request-id", "abc-1".parse().unwrap());
    let id = svc.identify(&mut h);
    assert_eq!(id.as_str(), "abc-1");
    let mut resp = http::HeaderMap::new();
    svc.finish(&id, &mut resp);
    assert_eq!(resp.get("x-request-id").unwrap(), "abc-1");

    let mut h = http::HeaderMap::new();
    let id = svc.identify(&mut h);
    assert_eq!(id.as_str().len(), 36);
    assert_eq!(h.get("x-request-id").unwrap(), id.as_str());
    assert_eq!(RequestId::from_string("x".to_string()).as_str(), "x");
}

#[test]
fn propagation_copies_only_an_incoming_id() {
    let svc = PropagateRequestIdLayer::new().layer(());
    let mut h = http::HeaderMap::new();
    h.insert("x-request-id", "zzz".parse().unwrap());
    let incoming = svc.incoming(&h);
    let mut resp = http::HeaderMap::new();
    svc.finish(incoming, &mut resp);
    assert_eq!(resp.get("x-request-id").unwrap(), "zzz");
    let mut resp = http::HeaderMap::new();
    svc.finish(svc.incoming(&http::HeaderMap::new()), &mut resp);
    assert!(resp.is_empty());
}

#[test]
fn timeout_and_panic_answers() {
    let r = timeout_response_for(1500);
    assert_eq!(r.status, 408);
    assert_eq!(
        text(&r.body),
        r#"{"error":"Request Timeout","code":408,"message":"Request exceeded the 1500ms time limit"}"#
    );
    let svc = TimeoutLayer::new(ajaya::duration::TimeSpan::from_millis(250)).layer(());
    assert_eq!(svc.duration(), ajaya::duration::TimeSpan::from_millis(250));
    assert_eq!(
        text(&svc.timeout_response().body),
        r#"{"error":"Request Timeout","code":408,"message":"Request exceeded the 250ms time limit"}"#
    );
    let p = default_panic_response();
    assert_eq!(p.status, 500);
    assert_eq!(text(&p.body), r#"{"error":"Internal Server Error","code":500}"#);
}

#[test]
fn map_response_layers_keep_function_and_state() {
    let layer = map_response(7u32);
    let svc = layer.layer("inner");
    assert_eq!(*svc.f(), 7);
    assert_eq!(*svc.inner(), "inner");
    let layer = map_response_with_state(1u8, 2u16);
    assert_eq!(*layer.state(), 1);
    let svc = layer.layer(3u32);
    assert_eq!((*svc.state(), *svc.f(), *svc.inner()), (1, 2, 3));
}

#[test]
fn header_room_is_counted_in_names() {
    let mut h = http::HeaderMap::new();
    assert!(ajaya::headers::has_header_room(&h, 6554));
    assert!(!ajaya::headers::has_header_room(&h, 6555));
    h.insert("a", "1".parse().unwrap());
    h.append("a", "2".parse().unwrap());
    assert!(ajaya::headers::has_header_room(&h, 6553));
    assert!(!ajaya::headers::has_header_room(&h, 6554));
}
