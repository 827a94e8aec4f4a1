use ajaya::method_filter::Method;
use ajaya::ws::{compute_accept_key, WebSocketConfig, WebSocketUpgrade, WebSocketUpgradeRejection};

fn handshake_headers(extra: &[(&'static str, &'static str)]) -> http::HeaderMap {
    let mut h = http::HeaderMap::new();
    h.insert("connection", "keep-alive, Upgrade".parse().unwrap());
    h.insert("upgrade", "websocket".parse().unwrap());
    h.insert("sec-websocket-version", "13".parse().unwrap());
    h.insert("sec-websocket-key", "dGhlIHNhbXBsZSBub25jZQ==".parse().unwrap());
    for (k, v) in extra {
        h.insert(*k, v.parse().unwrap());
    }
    h
}

#[test]
fn accept_key_rfc_example() {
    let key = "dGhlIHNhbXBsZSBub25jZQ==";
    let expected = "s3pPLMBiTxaQ9kYGzzhZRbK+xOo=";
    assert_eq!(compute_accept_key(key), expected);
}

#[test]
fn valid_handshake_is_accepted_with_rfc_key() {
    let up = WebSocketUpgrade::from_request(&Method::Get, &handshake_headers(&[])).unwrap();
    assert_eq!(up.accept_key(), "s3pPLMBiTxaQ9kYGzzhZRbK+xOo=");
    assert_eq!(up.selected_protocol(), None);
    assert_eq!(up.config().write_buffer_size, 128 * 1024);
    assert_eq!(up.config().max_write_buffer_size, 512 * 1024);
    let resp = up.upgrade_response();
    assert_eq!(resp.status, 101);
    assert_eq!(resp.headers.get("upgrade").unwrap(), "websocket");
    assert_eq!(resp.headers.get("connection").unwrap(), "upgrade");
    assert_eq!(
        resp.headers.get("sec-websocket-accept").unwrap(),
        "s3pPLMBiTxaQ9kYGzzhZRbK+xOo="
    );
}

#[test]
fn handshake_rejections_follow_check_order() {
    let err = WebSocketUpgrade::from_request(&Method::Post, &handshake_headers(&[])).err().unwrap();
    assert_eq!(err, WebSocketUpgradeRejection::MethodNotGet);
    assert_eq!(err.status(), 405);

    let mut h = handshake_headers(&[]);
    h.remove("connection");
    let err = WebSocketUpgrade::from_request(&Method::Get, &h).err().unwrap();
    assert_eq!(err, WebSocketUpgradeRejection::ConnectionNotUpgrade);
    assert_eq!(err.status(), 400);

    let h = handshake_headers(&[("upgrade", "h2c")]);
    let err = WebSocketUpgrade::from_request(&Method::Get, &h).err().unwrap();
    assert_eq!(err, WebSocketUpgradeRejection::UpgradeNotWebSocket);

    let h = handshake_headers(&[("sec-websocket-version", "8")]);
    let err = WebSocketUpgrade::from_request(&Method::Get, &h).err().unwrap();
    assert_eq!(err, WebSocketUpgradeRejection::InvalidWebSocketVersionHeader);

    let mut h = handshake_headers(&[]);
    h.remove("sec-websocket-key");
    let err = WebSocketUpgrade::from_request(&Method::Get, &h).err().unwrap();
    assert_eq!(err, WebSocketUpgradeRejection::MissingSecWebSocketKey);
}

#[test]
fn protocol_negotiation_picks_first_client_protocol_we_support() {
    let h = handshake_headers(&[("sec-websocket-protocol", "chat, superchat")]);
    let up = WebSocketUpgrade::from_request(&Method::Get, &h)
        .unwrap()
        .protocols(vec!["superchat".to_string(), "chat".to_string()]);
    assert_eq!(up.selected_protocol(), Some("chat"));
    let resp = up.upgrade_response();
    assert_eq!(resp.headers.get("sec-websocket-protocol").unwrap(), "chat");

    let h = handshake_headers(&[("sec-websocket-protocol", "graphql-ws")]);
    let up = WebSocketUpgrade::from_request(&Method::Get, &h)
        .unwrap()
        .protocols(vec!["chat".to_string()]);
    assert_eq!(up.selected_protocol(), None);
}

#[test]
fn config_defaults_and_builders() {
    let c = WebSocketConfig::default();
    assert_eq!(c.max_message_size, Some(64 * 1024 * 1024));
    assert_eq!(c.max_frame_size, Some(16 * 1024 * 1024));
    assert!(!c.accept_unmasked_frames);
    assert_eq!(c.write_buffer_size, 128 * 1024);
    assert_eq!(c.max_write_buffer_size, 512 * 1024);

    let up = WebSocketUpgrade::from_request(&Method::Get, &handshake_headers(&[]))
        .unwrap()
        .max_message_size(1024)
        .max_frame_size(512)
        .accept_unmasked_frames(true);
    assert_eq!(up.config().max_message_size, Some(1024));
    assert_eq!(up.config().max_frame_size, Some(512));
    assert!(up.config().accept_unmasked_frames);
}
