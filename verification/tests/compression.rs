use ajaya::compression::{
    accept_encoding, compression_error_response, decoder_for, decompression_error_response,
    finish_compressed, mark_decoded, mark_uncompressed, request_encoding, should_compress,
    CompressionLayer, CompressionLevel, Encoding, decompression_plan, decompression_outcome,
    DecompressionPlan, DecompressionOutcome, CompressionOutcome,
};

fn response_headers(ct: Option<&str>, ce: Option<&str>) -> http::HeaderMap {
    let mut h = http::HeaderMap::new();
    if let Some(ct) = ct {
        h.insert("content-type", ct.parse().unwrap());
    }
    if let Some(ce) = ce {
        h.insert("content-encoding", ce.parse().unwrap());
    }
    h
}

#[test]
fn preference_is_zstd_then_brotli_then_gzip_then_deflate() {
    let layer = CompressionLayer::new();
    assert_eq!(layer.preferred_encoding("gzip, deflate, br, zstd"), Some(Encoding::Zstd));
    assert_eq!(layer.preferred_encoding("gzip, deflate, br"), Some(Encoding::Br));
    assert_eq!(layer.preferred_encoding("brotli"), Some(Encoding::Br));
    assert_eq!(layer.preferred_encoding("GZIP, deflate"), Some(Encoding::Gzip));
    assert_eq!(layer.preferred_encoding("deflate"), Some(Encoding::Deflate));
    assert_eq!(layer.preferred_encoding("identity"), None);
    let no_zstd = CompressionLayer::new().zstd(false).br(false);
    assert_eq!(no_zstd.preferred_encoding("zstd, br, gzip"), Some(Encoding::Gzip));
}

#[test]
fn lowercase_preference_matches_substrings() {
    let layer = CompressionLayer::new().gzip(false).deflate(true);
    assert_eq!(layer.preferred_encoding_lower("x-gzip, deflate"), Some(Encoding::Deflate));
    assert_eq!(layer.preferred_encoding_lower("DEFLATE"), None);
}

#[test]
fn compressible_types() {
    assert!(should_compress(&response_headers(Some("text/html"), None)));
    assert!(should_compress(&response_headers(Some("application/json"), None)));
    assert!(should_compress(&response_headers(Some("application/wasm"), None)));
    assert!(should_compress(&response_headers(Some("image/svg+xml"), None)));
    assert!(!should_compress(&response_headers(Some("image/png"), None)));
    assert!(!should_compress(&response_headers(None, None)));
}

#[test]
fn already_encoded_or_incompressible_responses_are_left_alone() {
    let layer = CompressionLayer::new();
    assert_eq!(layer.response_encoding("gzip", &response_headers(Some("text/plain"), Some("br"))), None);
    assert_eq!(layer.response_encoding("gzip", &response_headers(Some("image/png"), None)), None);
    assert_eq!(
        layer.response_encoding("gzip", &response_headers(Some("text/plain"), None)),
        Some(Encoding::Gzip)
    );
}

#[test]
fn settings_and_min_size() {
    let layer = CompressionLayer::new().min_size(10).quality(CompressionLevel::Best);
    assert!(layer.below_min_size(9));
    assert!(!layer.below_min_size(10));
    assert_eq!(layer.level(), CompressionLevel::Best);
    assert_eq!(CompressionLevel::default(), CompressionLevel::Default);
    assert!(CompressionLayer::new().below_min_size(1023));
    assert!(!CompressionLayer::new().below_min_size(1024));
}

#[test]
fn compressed_response_headers() {
    let mut h = response_headers(Some("text/plain"), None);
    h.insert("content-length", "100".parse().unwrap());
    let body = finish_compressed(&mut h, Encoding::Br, b"plain body".to_vec(), Some(b"packed".to_vec()));
    assert_eq!(body, b"packed");
    assert_eq!(h.get("content-encoding").unwrap(), "br");
    assert_eq!(h.get("vary").unwrap(), "Accept-Encoding");
    assert!(h.get("content-length").is_none());
    assert_eq!(h.get("content-type").unwrap(), "text/plain");

    let mut h = http::HeaderMap::new();
    let body = finish_compressed(&mut h, Encoding::Gzip, b"plain body".to_vec(), None);
    assert_eq!(body, b"plain body");
    assert_eq!(Encoding::Deflate.header_value(), "deflate");

    let mut h = http::HeaderMap::new();
    mark_uncompressed(&mut h);
    assert_eq!(h.get("vary").unwrap(), "Accept-Encoding");
}

#[test]
fn accept_encoding_defaults_to_empty() {
    assert_eq!(accept_encoding(&http::HeaderMap::new()), "");
    let mut h = http::HeaderMap::new();
    h.insert("accept-encoding", "gzip".parse().unwrap());
    assert_eq!(accept_encoding(&h), "gzip");
}

#[test]
fn decompression_decisions() {
    let mut h = http::HeaderMap::new();
    h.insert("content-encoding", "GZip".parse().unwrap());
    let e = request_encoding(&h).unwrap();
    assert_eq!(e, "gzip");
    assert_eq!(decoder_for(&e), Some(Encoding::Gzip));
    assert_eq!(decoder_for("brotli"), Some(Encoding::Br));
    assert_eq!(decoder_for("identity"), None);
    mark_decoded(&mut h);
    assert!(h.get("content-encoding").is_none());
    assert_eq!(request_encoding(&http::HeaderMap::new()), None);

    let r = decompression_error_response();
    assert_eq!(r.status, 400);
    assert_eq!(r.body, b"Failed to read compressed body");
    let r = compression_error_response();
    assert_eq!(r.status, 500);
    assert!(r.headers.is_empty());
    assert_eq!(r.body, b"Compression error");
}

#[test]
fn decompression_plan_reads_known_and_unknown_encodings() {
    assert_eq!(decompression_plan(&http::HeaderMap::new()), DecompressionPlan::Forward);
    let mut h = http::HeaderMap::new();
    h.insert("content-encoding", "GZip".parse().unwrap());
    assert_eq!(decompression_plan(&h), DecompressionPlan::Read(Some(Encoding::Gzip)));
    h.insert("content-encoding", "brotli".parse().unwrap());
    assert_eq!(decompression_plan(&h), DecompressionPlan::Read(Some(Encoding::Br)));
    h.insert("content-encoding", "x-custom".parse().unwrap());
    assert_eq!(decompression_plan(&h), DecompressionPlan::Read(None));
}

#[test]
fn decompression_outcome_cases() {
    let mut h = http::HeaderMap::new();
    h.insert("content-encoding", "gzip".parse().unwrap());
    h.insert("x-other", "1".parse().unwrap());
    // read failure: 400, handler not called, headers unchanged
    match decompression_outcome(&mut h, Some(Encoding::Gzip), None, None) {
        DecompressionOutcome::Answer(r) => {
            assert_eq!(r.status, 400);
            assert_eq!(r.body, b"Failed to read compressed body".to_vec());
        }
        DecompressionOutcome::CallInner(_) => panic!("expected an answer"),
    }
    assert!(h.contains_key("content-encoding"));
    // decode failure: the body as read, headers unchanged
    match decompression_outcome(&mut h, Some(Encoding::Gzip), Some(b"raw".to_vec()), None) {
        DecompressionOutcome::CallInner(b) => assert_eq!(b, b"raw".to_vec()),
        DecompressionOutcome::Answer(_) => panic!("expected the handler"),
    }
    assert!(h.contains_key("content-encoding"));
    // unknown encoding: the body as read even if something was decoded
    match decompression_outcome(&mut h, None, Some(b"raw".to_vec()), Some(b"x".to_vec())) {
        DecompressionOutcome::CallInner(b) => assert_eq!(b, b"raw".to_vec()),
        DecompressionOutcome::Answer(_) => panic!("expected the handler"),
    }
    assert!(h.contains_key("content-encoding"));
    // decoded: the decoded body, without content-encoding
    match decompression_outcome(&mut h, Some(Encoding::Gzip), Some(b"raw".to_vec()), Some(b"plain".to_vec())) {
        DecompressionOutcome::CallInner(b) => assert_eq!(b, b"plain".to_vec()),
        DecompressionOutcome::Answer(_) => panic!("expected the handler"),
    }
    assert!(!h.contains_key("content-encoding"));
    assert_eq!(h.get("x-other").unwrap(), "1");
}

#[test]
fn compression_outcome_small_large_and_failed_read() {
    let layer = CompressionLayer::new().min_size(10);
    let mut h = response_headers(Some("text/plain"), None);
    h.insert("content-length", "5".parse().unwrap());
    match layer.compression_outcome(&mut h, Encoding::Gzip, Some(b"small".to_vec()), Some(b"zz".to_vec())) {
        CompressionOutcome::Send(b) => assert_eq!(b, b"small".to_vec()),
        CompressionOutcome::Answer(_) => panic!("expected the body"),
    }
    assert_eq!(h.get("vary").unwrap(), "Accept-Encoding");
    assert!(!h.contains_key("content-encoding"));
    assert!(h.contains_key("content-length"));

    let mut h = response_headers(Some("text/plain"), None);
    h.insert("content-length", "20".parse().unwrap());
    match layer.compression_outcome(&mut h, Encoding::Br, Some(vec![b'a'; 20]), Some(b"packed".to_vec())) {
        CompressionOutcome::Send(b) => assert_eq!(b, b"packed".to_vec()),
        CompressionOutcome::Answer(_) => panic!("expected the body"),
    }
    assert_eq!(h.get("content-encoding").unwrap(), "br");
    assert_eq!(h.get("vary").unwrap(), "Accept-Encoding");
    assert!(!h.contains_key("content-length"));

    let mut h = response_headers(Some("text/plain"), None);
    match layer.compression_outcome(&mut h, Encoding::Br, None, None) {
        CompressionOutcome::Answer(r) => {
            assert_eq!(r.status, 500);
            assert_eq!(r.body, b"Compression error".to_vec());
        }
        CompressionOutcome::Send(_) => panic!("expected an answer"),
    }
    assert!(!h.contains_key("vary"));
}
