use ajaya::multipart::{
    validate_multipart_request, FieldCounter, MultipartConfig, MultipartConstraints,
    MultipartError, ParserErrorKind, ProgressCounter,
};
use ajaya::rejection::MultipartRejection;

const BOUNDARY: &str = "ARVIK-BOUNDARY";

fn content_type() -> String {
    format!("multipart/form-data; boundary={BOUNDARY}")
}

fn headers(content_type: &str, len: Option<u64>) -> http::HeaderMap {
    let mut h = http::HeaderMap::new();
    h.insert("content-type", content_type.parse().unwrap());
    if let Some(len) = len {
        h.insert("content-length", len.to_string().parse().unwrap());
    }
    h
}

fn body_text(r: &ajaya::response::Response) -> String {
    String::from_utf8(r.body.clone()).unwrap()
}

#[test]
fn non_multipart_content_type_returns_unsupported_media_type() {
    let config = MultipartConfig::new().with_constraints(MultipartConstraints::new());
    let err = validate_multipart_request(&headers("text/plain", None), &config).unwrap_err();
    assert!(matches!(err, MultipartRejection::InvalidContentType));
    let resp = err.into_response();
    assert_eq!(resp.status, 415);
    assert!(body_text(&resp).contains("multipart/form-data"));
}

#[test]
fn missing_boundary_returns_clear_rejection() {
    let config = MultipartConfig::new().with_constraints(MultipartConstraints::new());
    let err = validate_multipart_request(&headers("multipart/form-data", None), &config).unwrap_err();
    assert!(matches!(err, MultipartRejection::MissingBoundary));
    let resp = err.into_response();
    assert_eq!(resp.status, 400);
    assert!(body_text(&resp).contains("Missing multipart boundary"));
}

#[test]
fn content_length_above_total_limit_rejects_before_body_is_read() {
    let config =
        MultipartConfig::new().with_constraints(MultipartConstraints::new().max_total_size(16));
    let err = validate_multipart_request(&headers(&content_type(), Some(1024)), &config).unwrap_err();
    assert!(matches!(err, MultipartRejection::PayloadTooLarge));
    let resp = err.into_response();
    assert_eq!(resp.status, 413);
    assert!(body_text(&resp).contains("maximum allowed size"));
}

#[test]
fn boundary_is_returned_for_a_valid_request() {
    let config = MultipartConfig::new();
    let b = validate_multipart_request(&headers(&content_type(), Some(10)), &config).unwrap();
    assert_eq!(b, BOUNDARY);
}

#[test]
fn missing_content_type_is_invalid() {
    let config = MultipartConfig::new();
    let err = validate_multipart_request(&http::HeaderMap::new(), &config).unwrap_err();
    assert!(matches!(err, MultipartRejection::InvalidContentType));
}

#[test]
fn max_fields_returns_typed_too_many_fields_error() {
    let mut counter = FieldCounter::new(1);
    assert!(counter.count_field().is_ok());
    let err = counter.count_field().unwrap_err();
    assert!(matches!(err, MultipartError::TooManyFields { limit: 1 }));
    assert!(err.is_too_many_fields());
    assert!(err.is_limit_exceeded());
    assert_eq!(err.status_code(), 413);
    assert_eq!(err.message(), "Multipart field count exceeded limit: 1");
}

#[test]
fn progress_stream_reports_monotonic_uploaded_bytes() {
    let mut progress = ProgressCounter::new();
    let mut previous = 0;
    let mut data = Vec::new();
    for chunk in [b"abc".to_vec(), b"defgh".to_vec()] {
        let chunk = progress.record(chunk);
        assert!(chunk.bytes_read() > previous);
        previous = chunk.bytes_read();
        data.extend_from_slice(chunk.bytes());
    }
    assert_eq!(previous, 8);
    assert_eq!(data, b"abcdefgh");
}

#[test]
fn constraints_defaults_and_builders() {
    let c = MultipartConstraints::new();
    assert_eq!(c.max_fields, 100);
    assert_eq!(c.max_field_size, 5 * 1024 * 1024);
    assert_eq!(c.max_total_size, 50 * 1024 * 1024);
    let c = c.max_fields(3).max_field_size(10).max_total_size(20);
    assert_eq!((c.max_fields, c.max_field_size, c.max_total_size), (3, 10, 20));

    let cfg = MultipartConfig::new().max_fields(7).with_temp_dir(std::path::PathBuf::from("/tmp/x"));
    assert_eq!(cfg.constraints().max_fields, 7);
    assert_eq!(cfg.temp_dir(), Some(&std::path::PathBuf::from("/tmp/x")));
    assert_eq!(MultipartConfig::new().temp_dir(), None);
}

#[test]
fn multipart_error_statuses_and_messages() {
    let size = MultipartError::Parser {
        kind: ParserErrorKind::FieldSizeExceeded,
        message: "field exceeded".to_string(),
    };
    assert!(size.is_size_exceeded());
    assert_eq!(size.status_code(), 413);
    assert_eq!(size.message(), "Multipart error: field exceeded");

    let other = MultipartError::Parser { kind: ParserErrorKind::Other, message: "bad".to_string() };
    assert!(!other.is_limit_exceeded());
    assert_eq!(other.status_code(), 400);

    let io = MultipartError::Io("disk full".to_string());
    assert!(io.is_io());
    assert_eq!(io.status_code(), 500);
    let resp = io.into_response();
    assert_eq!(resp.status, 500);
    assert_eq!(resp.headers.get("content-type").unwrap(), "text/plain; charset=utf-8");
    assert_eq!(body_text(&resp), "Multipart temporary file error: disk full");
}
