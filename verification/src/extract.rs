//! Extractor types and the request checks they make before reading a body.

use vstd::prelude::*;
use vstd::string::*;
use crate::headers::{header_str, header_text};
use crate::response::{only_headers, Response};
use vstd::utf8::*;
use crate::text::{starts_with_ci, starts_with_ci_spec, str_eq};

verus! {

/// Deserialized path parameters.
#[derive(Debug, Clone)]
pub struct Path<T>(pub T);

/// Deserialized query string.
#[derive(Debug, Clone)]
pub struct Query<T>(pub T);

/// A JSON request body.
#[derive(Debug, Clone)]
pub struct Json<T>(pub T);

/// A URL-encoded form body.
#[derive(Debug, Clone)]
pub struct Form<T>(pub T);

/// Shared router state.
#[derive(Debug, Clone)]
pub struct State<T>(pub T);

/// A value taken from the request extensions.
#[derive(Debug, Clone)]
pub struct Extension<T>(pub T);

/// Connection information recorded by the server (such as the peer address).
#[derive(Debug, Clone)]
pub struct ConnectInfo<T>(pub T);

/// A header decoded into a typed value.
#[derive(Debug, Clone)]
pub struct TypedHeader<T>(pub T);

/// The route pattern that matched the request.
#[derive(Debug, Clone)]
pub struct MatchedPath(pub String);

/// The raw path parameters, name and value, in route order.
#[derive(Debug, Clone)]
pub struct RawPathParams(pub Vec<(String, String)>);

/// Marker for extracting the request method.
pub struct MethodExtractor;

/// Marker for extracting the raw request body.
pub struct BodyExtractor;

/// Derive a value from the router state (the state itself when it is `Clone`).
pub trait FromRef<T>: Sized {
    fn from_ref(input: &T) -> Self;
}

impl<T: Clone> FromRef<T> for T {
    /// The state itself, cloned with `T`'s own `clone`.
    fn from_ref(input: &T) -> (r: T)
        ensures
            vstd::pervasive::strictly_cloned(*input, r),
    {
        input.clone()
    }
}

/// The `Content-Type` header starts with `application/x-www-form-urlencoded`,
/// ignoring case (header text is ASCII, so lowercasing is ASCII lowercasing).
pub open spec fn form_content_type_spec(h: http::HeaderMap) -> bool {
    match header_text(h, "content-type"@) {
        Some(ct) => starts_with_ci_spec(ct, "application/x-www-form-urlencoded"@),
        None => false,
    }
}

/// Whether the request declares a URL-encoded form body.
pub fn form_content_type(headers: &http::HeaderMap) -> (r: bool)
    ensures
        r == form_content_type_spec(*headers),
{
    proof {
        reveal_strlit("content-type");
    }
    match header_str(headers, "content-type") {
        Some(ct) => starts_with_ci(ct.as_str(), "application/x-www-form-urlencoded"),
        None => false,
    }
}

/// What `str::parse::<mime::Mime>` yields for `s`: the type, the subtype and the
/// `+suffix`, each as `mime` stores it.
pub uninterp spec fn mime_parts_of(s: Seq<char>) -> Option<(Seq<char>, Seq<char>, Option<Seq<char>>)>;

/// `str::parse::<mime::Mime>`, with the type, subtype and suffix of the result.
#[verifier::external_body]
fn parse_mime(s: &str) -> (r: Option<(String, String, Option<String>)>)
    ensures
        match r {
            Some((t, st, suf)) => mime_parts_of(s@) == Some(
                (t@, st@, match suf { Some(x) => Some(x@), None => None }),
            ),
            None => mime_parts_of(s@) is None,
        },
{
    s.parse::<mime::Mime>().ok().map(
        |m| (
            m.type_().as_str().to_string(),
            m.subtype().as_str().to_string(),
            m.suffix().map(|x| x.as_str().to_string()),
        ),
    )
}

/// A media type that is JSON: `application/json` or `application/*+json`.
pub open spec fn is_json_mime(parts: Option<(Seq<char>, Seq<char>, Option<Seq<char>>)>) -> bool {
    match parts {
        Some((t, st, suf)) => t == "application"@ && (st == "json"@ || suf == Some("json"@)),
        None => false,
    }
}

/// The `Content-Type` header parses as a JSON media type.
pub open spec fn json_content_type_spec(h: http::HeaderMap) -> bool {
    match header_text(h, "content-type"@) {
        Some(ct) => is_json_mime(mime_parts_of(ct)),
        None => false,
    }
}

/// Whether parsed media type parts (type, subtype, suffix) denote JSON.
pub fn is_json_media_type(parts: &Option<(String, String, Option<String>)>) -> (r: bool)
    ensures
        r == is_json_mime(
            match parts {
                Some((t, st, suf)) => Some(
                    (t@, st@, match suf { Some(x) => Some(x@), None => None }),
                ),
                None => None,
            },
        ),
{
    proof {
        reveal_strlit("application");
        reveal_strlit("json");
    }
    match parts {
        Some((t, st, suf)) => {
            str_eq(t.as_str(), "application") && (str_eq(st.as_str(), "json") || match suf {
                Some(x) => str_eq(x.as_str(), "json"),
                None => false,
            })
        },
        None => false,
    }
}

/// Whether the request declares a JSON body.
pub fn json_content_type(headers: &http::HeaderMap) -> (r: bool)
    ensures
        r == json_content_type_spec(*headers),
{
    proof {
        reveal_strlit("content-type");
    }
    let ct = match header_str(headers, "content-type") {
        Some(ct) => ct,
        None => return false,
    };
    let parts = parse_mime(ct.as_str());
    is_json_media_type(&parts)
}

/// The body of the answer when a JSON value cannot be serialized.
pub open spec fn json_failure_body(message: Seq<char>) -> Seq<char> {
    "{\"error\":\"JSON serialization failed: "@ + message + "\"}"@
}

/// The answer for an extracted-JSON value, given the outcome of serializing
/// it: `200` with the bytes, or `500` naming the serializer's message.
pub fn json_value_response(serialized: Result<Vec<u8>, String>) -> (r: Response)
    ensures
        only_headers(r.headers, seq![("content-type"@, "application/json"@)]),
        match serialized {
            Ok(b) => r.status == 200 && r.body@ == b@,
            Err(m) => r.status == 500 && r.body@ == encode_utf8(json_failure_body(m@)),
        },
{
    proof {
        reveal_strlit("application/json");
        let t = "application/json"@;
        assert forall|i: int| 0 <= i < t.len() implies #[trigger] crate::headers::is_header_value_char(
            t[i],
        ) by {}
    }
    match serialized {
        Ok(b) => {
            let mut r = Response::with_text(200, "application/json", "");
            r.body = b;
            r
        },
        Err(m) => {
            let mut body = "{\"error\":\"JSON serialization failed: ".to_owned();
            body.append(m.as_str());
            body.append("\"}");
            Response::with_text(500, "application/json", body.as_str())
        },
    }
}

} // verus!
