use ajaya::error::{error_display, error_response, status_display, status_error_message_of, ErrorResponse};
use ajaya::response::{json_response, AppendHeaders, ErasedHandlerWrapper, Html, Redirect, Response, StreamBody};

fn text(body: &[u8]) -> String {
    String::from_utf8(body.to_vec()).unwrap()
}

#[test]
fn error_response_body_uses_sorted_keys() {
    let r = ErrorResponse::new(404).into_response();
    assert_eq!(r.status, 404);
    assert_eq!(r.headers.get("content-type").unwrap(), "application/json");
    assert_eq!(text(&r.body), r#"{"code":404,"error":"Not Found"}"#);

    let r = ErrorResponse::new(400)
        .message("bad \"input\"\n".to_string())
        .request_id("rid-1".to_string())
        .into_response();
    assert_eq!(text(&r.body), r#"{"code":400,"error":"bad \"input\"\n","request_id":"rid-1"}"#);
}

#[test]
fn json_escaping_of_control_characters() {
    let b = ErrorResponse::new(500).message("a\u{1}b\\c\tq".to_string()).build_body();
    assert_eq!(text(&b), r#"{"code":500,"error":"a\u0001b\\c\tq"}"#);
    let unknown = ErrorResponse::new(599).build_body();
    assert_eq!(text(&unknown), r#"{"code":599,"error":"Internal Server Error"}"#);
}

#[test]
fn errors_from_status_and_message() {
    assert_eq!(status_error_message_of(418), "I'm a teapot");
    assert_eq!(status_error_message_of(599), "Unknown Error");
    let r = error_response(503, None);
    assert_eq!(text(&r.body), r#"{"code":503,"error":"Service Unavailable"}"#);
    let r = error_response(422, Some("nope"));
    assert_eq!(r.status, 422);
    assert_eq!(text(&r.body), r#"{"code":422,"error":"nope"}"#);
    assert_eq!(status_display(404), "404 Not Found");
    assert_eq!(error_display(404, Some("missing")), "missing (404 Not Found)");
    assert_eq!(error_display(599, None), "599 <unknown status code>");
}

#[test]
fn redirects() {
    let r = Redirect::to("/login");
    assert_eq!(r.status, 303);
    assert_eq!(r.headers.get("location").unwrap(), "/login");
    assert!(r.body.is_empty());
    assert_eq!(Redirect::permanent("/new").status, 301);
    assert_eq!(Redirect::temporary("/tmp").status, 307);
    assert_eq!(r.headers.len(), 1);
}

#[test]
fn html_text_bytes_and_json_bodies() {
    let r = Html("<h1>Hi</h1>".to_string()).into_response();
    assert_eq!(r.status, 200);
    assert_eq!(r.headers.get("content-type").unwrap(), "text/html; charset=utf-8");
    assert_eq!(text(&r.body), "<h1>Hi</h1>");
    let r = Response::text("plain");
    assert_eq!(r.headers.get("content-type").unwrap(), "text/plain; charset=utf-8");
    let r = Response::bytes(vec![1, 2, 3]).with_status(201);
    assert_eq!(r.status, 201);
    assert_eq!(r.headers.get("content-type").unwrap(), "application/octet-stream");
    assert_eq!(r.body, vec![1, 2, 3]);
    let r = json_response(Some(b"{\"a\":1}".to_vec()));
    assert_eq!((r.status, text(&r.body)), (200, "{\"a\":1}".to_string()));
    let r = json_response(None);
    assert_eq!(r.status, 500);
    assert_eq!(text(&r.body), r#"{"error":"Serialization failed","code":500}"#);
}

#[test]
fn append_headers_appends_valid_pairs_in_order() {
    let mut h = http::HeaderMap::new();
    h.insert("cache-control", "public".parse().unwrap());
    AppendHeaders(vec![
        ("Cache-Control".to_string(), "no-store".to_string()),
        ("bad name".to_string(), "x".to_string()),
        ("x-one".to_string(), "1".to_string()),
        ("x-bad-value".to_string(), "a\nb".to_string()),
    ])
    .apply(&mut h);
    let cc: Vec<_> = h.get_all("cache-control").iter().map(|v| v.to_str().unwrap()).collect();
    assert_eq!(cc, vec!["public", "no-store"]);
    assert_eq!(h.get("x-one").unwrap(), "1");
    assert!(h.get("x-bad-value").is_none());
    assert_eq!(h.keys_len(), 2);
}

#[test]
fn stream_body_and_handler_wrapper_keep_their_contents() {
    let s = StreamBody::new(vec![1u8, 2]);
    assert_eq!(s.into_inner(), vec![1u8, 2]);
    let w: ErasedHandlerWrapper<u32, (), ()> = ErasedHandlerWrapper::new(9);
    assert_eq!(*w.handler(), 9);
}
