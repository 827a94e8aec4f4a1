use ajaya::cookies::cookie_pairs;
use ajaya::extract::{form_content_type, is_json_media_type, json_content_type, json_value_response};
use ajaya::path_value::{PathDeserializer, PathSeqAccess, parse_bool, parse_char, parse_i8, parse_u16, parse_u8, single_param_value, PathDeserializeError};
use ajaya::num::{parse_signed, parse_unsigned};
use ajaya::rejection::{JsonRejection, PathRejection, QueryRejection, StateRejection};
use ajaya::server::is_normal_close;

fn ct(v: &str) -> http::HeaderMap {
    let mut h = http::HeaderMap::new();
    h.insert("content-type", v.parse().unwrap());
    h
}

#[test]
fn json_content_types() {
    assert!(json_content_type(&ct("application/json")));
    assert!(json_content_type(&ct("application/json; charset=utf-8")));
    assert!(json_content_type(&ct("application/vnd.api+json")));
    assert!(!json_content_type(&ct("text/json")));
    assert!(!json_content_type(&ct("application/xml")));
    assert!(!json_content_type(&http::HeaderMap::new()));
    assert!(is_json_media_type(&Some(("application".to_string(), "json".to_string(), None))));
    assert!(!is_json_media_type(&None));
}

#[test]
fn form_content_types() {
    assert!(form_content_type(&ct("application/x-www-form-urlencoded")));
    assert!(form_content_type(&ct("Application/X-WWW-Form-Urlencoded; charset=utf-8")));
    assert!(!form_content_type(&ct("multipart/form-data")));
}

#[test]
fn json_value_answers() {
    let r = json_value_response(Ok(b"[1]".to_vec()));
    assert_eq!((r.status, r.body.clone()), (200, b"[1]".to_vec()));
    let r = json_value_response(Err("boom".to_string()));
    assert_eq!(r.status, 500);
    assert_eq!(String::from_utf8(r.body).unwrap(), r#"{"error":"JSON serialization failed: boom"}"#);
}

#[test]
fn path_values() {
    assert_eq!(parse_bool("true").unwrap(), true);
    assert_eq!(parse_bool("0").unwrap(), false);
    assert_eq!(parse_bool("yes").unwrap_err().into_message(), "invalid boolean: `yes`");
    assert_eq!(parse_u8("255").unwrap(), 255);
    assert!(parse_u8("256").is_err());
    assert_eq!(parse_u16("+7").unwrap(), 7);
    assert_eq!(parse_i8("-128").unwrap(), -128);
    assert!(parse_i8("128").is_err());
    assert_eq!(parse_char("x").unwrap(), 'x');
    assert!(parse_char("xy").is_err());
    let one = vec![("id".to_string(), "7".to_string())];
    assert_eq!(single_param_value(&one, "u32").unwrap(), "7");
    let two = vec![("a".to_string(), "1".to_string()), ("b".to_string(), "2".to_string())];
    assert_eq!(
        single_param_value(&two, "u32").unwrap_err().into_message(),
        "expected single path parameter for u32"
    );
    assert_eq!(PathDeserializeError::custom("m".to_string()).into_message(), "m");
}

#[test]
fn number_parsing() {
    assert_eq!(parse_unsigned("18446744073709551615", u64::MAX), Some(u64::MAX));
    assert_eq!(parse_unsigned("18446744073709551616", u64::MAX), None);
    assert_eq!(parse_unsigned("", 10), None);
    assert_eq!(parse_signed("-5", 128, 127), Some((true, 5)));
    assert_eq!(parse_signed("-", 128, 127), None);
}

#[test]
fn rejection_answers() {
    let r = JsonRejection::MissingJsonContentType.into_response();
    assert_eq!(r.status, 415);
    assert_eq!(String::from_utf8(r.body).unwrap(), "Expected Content-Type: application/json");
    assert_eq!(JsonRejection::DeserializationFailed("eof".to_string()).message(), "Invalid JSON: eof");
    assert_eq!(PathRejection::MissingPathParams.message(), "No path parameters found");
    assert_eq!(StateRejection.into_response().status, 500);
    let _ = QueryRejection::DeserializationFailed("x".to_string()).message();
}

#[test]
fn cookie_pairs_are_split_and_trimmed() {
    let mut h = http::HeaderMap::new();
    h.append("cookie", "a=1;  b=2 ;;".parse().unwrap());
    h.append("cookie", "c=3".parse().unwrap());
    assert_eq!(cookie_pairs(&h), vec!["a=1".to_string(), "b=2".to_string(), "c=3".to_string()]);
    assert!(cookie_pairs(&http::HeaderMap::new()).is_empty());
}

#[test]
fn normal_connection_closes() {
    assert!(is_normal_close("Connection reset by peer (os error 104)"));
    assert!(is_normal_close("broken pipe"));
    assert!(is_normal_close("error: connection closed before message completed"));
    assert!(!is_normal_close("invalid HTTP method parsed"));
}

#[test]
fn path_parameter_readers() {
    let params = vec![("id".to_string(), "7".to_string()), ("name".to_string(), "bob".to_string())];
    let de = PathDeserializer::new(&params);
    assert_eq!(
        de.single_value("deserialize_u32").unwrap_err().into_message(),
        "expected single path parameter for deserialize_u32"
    );
    let mut map = de.map_access();
    assert_eq!(map.next_key(), Some("id"));
    assert_eq!(map.next_value(), "7");
    assert_eq!(map.next_key(), Some("name"));
    assert_eq!(map.next_value(), "bob");
    assert_eq!(map.next_key(), None);
    let mut seq = PathSeqAccess::new(&params);
    assert_eq!(seq.next_element(), Some("7"));
    assert_eq!(seq.next_element(), Some("bob"));
    assert_eq!(seq.next_element(), None);
    let one = vec![("id".to_string(), "9".to_string())];
    assert_eq!(PathDeserializer::new(&one).single_value("x").unwrap(), "9");
}
