//! Rejections: why an extractor refused a request, with the status code and
//! plain-text message each one is answered with.

use vstd::prelude::*;
use vstd::string::*;
use vstd::utf8::*;
use crate::headers::{no_header_entries, header_entries};
use crate::response::{only_headers, Response};

verus! {

/// `a` followed by `b`.
fn concat(a: &str, b: &str) -> (r: String)
    ensures
        r@ == a@ + b@,
{
    let mut s = a.to_owned();
    s.append(b);
    s
}

/// The content type of every plain-text rejection body.
pub open spec fn plain_text_type() -> Seq<char> {
    "text/plain; charset=utf-8"@
}

/// A plain-text response with `status` and `message` as its body.
fn plain_text_response(status: u16, message: String) -> (r: Response)
    ensures
        r.status == status,
        only_headers(r.headers, seq![("content-type"@, plain_text_type())]),
        r.body@ == encode_utf8(message@),
{
    proof {
        reveal_strlit("text/plain; charset=utf-8");
    }
    Response::with_text(status, "text/plain; charset=utf-8", message.as_str())
}

/// Path parameters could not be extracted.
#[derive(Debug)]
pub enum PathRejection {
    MissingPathParams,
    DeserializationFailed(String),
}

/// The message of a path rejection.
pub open spec fn path_rejection_message(r: PathRejection) -> Seq<char> {
    match r {
        PathRejection::MissingPathParams => "No path parameters found"@,
        PathRejection::DeserializationFailed(m) => "Invalid path parameters: "@ + m@,
    }
}

impl PathRejection {
    /// The message shown to the client.
    pub fn message(&self) -> (r: String)
        ensures
            r@ == path_rejection_message(*self),
    {
        match self {
            PathRejection::MissingPathParams => "No path parameters found".to_owned(),
            PathRejection::DeserializationFailed(m) => concat("Invalid path parameters: ", m.as_str()),
        }
    }

    /// `400 Bad Request` with the message as plain text.
    pub fn into_response(self) -> (r: Response)
        ensures
            r.status == 400,
            only_headers(r.headers, seq![("content-type"@, plain_text_type())]),
            r.body@ == encode_utf8(path_rejection_message(self)),
    {
        plain_text_response(400, self.message())
    }
}

/// The query string could not be deserialized.
#[derive(Debug)]
pub enum QueryRejection {
    MissingQueryString,
    DeserializationFailed(String),
}

/// The message of a query rejection.
pub open spec fn query_rejection_message(r: QueryRejection) -> Seq<char> {
    match r {
        QueryRejection::MissingQueryString => "Missing query string"@,
        QueryRejection::DeserializationFailed(m) => "Invalid query string: "@ + m@,
    }
}

impl QueryRejection {
    /// The message shown to the client.
    pub fn message(&self) -> (r: String)
        ensures
            r@ == query_rejection_message(*self),
    {
        match self {
            QueryRejection::MissingQueryString => "Missing query string".to_owned(),
            QueryRejection::DeserializationFailed(m) => concat("Invalid query string: ", m.as_str()),
        }
    }

    /// `400 Bad Request` with the message as plain text.
    pub fn into_response(self) -> (r: Response)
        ensures
            r.status == 400,
            only_headers(r.headers, seq![("content-type"@, plain_text_type())]),
            r.body@ == encode_utf8(query_rejection_message(self)),
    {
        plain_text_response(400, self.message())
    }
}

/// The body could not be extracted as JSON.
#[derive(Debug)]
pub enum JsonRejection {
    BodyReadFailed(String),
    MissingJsonContentType,
    DeserializationFailed(String),
}

/// The message of a JSON rejection.
pub open spec fn json_rejection_message(r: JsonRejection) -> Seq<char> {
    match r {
        JsonRejection::BodyReadFailed(m) => "Failed to read request body: "@ + m@,
        JsonRejection::MissingJsonContentType => "Expected Content-Type: application/json"@,
        JsonRejection::DeserializationFailed(m) => "Invalid JSON: "@ + m@,
    }
}

impl JsonRejection {
    /// The message shown to the client.
    pub fn message(&self) -> (r: String)
        ensures
            r@ == json_rejection_message(*self),
    {
        match self {
            JsonRejection::BodyReadFailed(m) => concat("Failed to read request body: ", m.as_str()),
            JsonRejection::MissingJsonContentType => "Expected Content-Type: application/json".to_owned(),
            JsonRejection::DeserializationFailed(m) => concat("Invalid JSON: ", m.as_str()),
        }
    }

    /// `415` for a missing JSON content type, `400` otherwise.
    pub fn status(&self) -> (r: u16)
        ensures
            r == (if *self is MissingJsonContentType { 415u16 } else { 400u16 }),
    {
        match self {
            JsonRejection::MissingJsonContentType => 415,
            _ => 400,
        }
    }

    /// The status with the message as plain text.
    pub fn into_response(self) -> (r: Response)
        ensures
            r.status == (if self is MissingJsonContentType { 415u16 } else { 400u16 }),
            only_headers(r.headers, seq![("content-type"@, plain_text_type())]),
            r.body@ == encode_utf8(json_rejection_message(self)),
    {
        let status = self.status();
        plain_text_response(status, self.message())
    }
}

/// The body could not be extracted as a URL-encoded form.
#[derive(Debug)]
pub enum FormRejection {
    BodyReadFailed(String),
    InvalidContentType,
    DeserializationFailed(String),
}

/// The message of a form rejection.
pub open spec fn form_rejection_message(r: FormRejection) -> Seq<char> {
    match r {
        FormRejection::BodyReadFailed(m) => "Failed to read request body: "@ + m@,
        FormRejection::InvalidContentType => "Expected Content-Type: application/x-www-form-urlencoded"@,
        FormRejection::DeserializationFailed(m) => "Invalid form data: "@ + m@,
    }
}

impl FormRejection {
    /// The message shown to the client.
    pub fn message(&self) -> (r: String)
        ensures
            r@ == form_rejection_message(*self),
    {
        match self {
            FormRejection::BodyReadFailed(m) => concat("Failed to read request body: ", m.as_str()),
            FormRejection::InvalidContentType => "Expected Content-Type: application/x-www-form-urlencoded".to_owned(),
            FormRejection::DeserializationFailed(m) => concat("Invalid form data: ", m.as_str()),
        }
    }

    /// `415` for a wrong content type, `400` otherwise.
    pub fn status(&self) -> (r: u16)
        ensures
            r == (if *self is InvalidContentType { 415u16 } else { 400u16 }),
    {
        match self {
            FormRejection::InvalidContentType => 415,
            _ => 400,
        }
    }

    /// The status with the message as plain text.
    pub fn into_response(self) -> (r: Response)
        ensures
            r.status == (if self is InvalidContentType { 415u16 } else { 400u16 }),
            only_headers(r.headers, seq![("content-type"@, plain_text_type())]),
            r.body@ == encode_utf8(form_rejection_message(self)),
    {
        let status = self.status();
        plain_text_response(status, self.message())
    }
}

/// A typed header was missing or could not be decoded.
#[derive(Debug)]
pub enum TypedHeaderRejection {
    Missing(String),
    DecodeFailed(String),
}

/// The message of a typed-header rejection.
pub open spec fn typed_header_rejection_message(r: TypedHeaderRejection) -> Seq<char> {
    match r {
        TypedHeaderRejection::Missing(n) => "Missing header: "@ + n@,
        TypedHeaderRejection::DecodeFailed(m) => "Invalid header value: "@ + m@,
    }
}

impl TypedHeaderRejection {
    /// The message shown to the client.
    pub fn message(&self) -> (r: String)
        ensures
            r@ == typed_header_rejection_message(*self),
    {
        match self {
            TypedHeaderRejection::Missing(n) => concat("Missing header: ", n.as_str()),
            TypedHeaderRejection::DecodeFailed(m) => concat("Invalid header value: ", m.as_str()),
        }
    }

    /// `400 Bad Request` with the message as plain text.
    pub fn into_response(self) -> (r: Response)
        ensures
            r.status == 400,
            only_headers(r.headers, seq![("content-type"@, plain_text_type())]),
            r.body@ == encode_utf8(typed_header_rejection_message(self)),
    {
        plain_text_response(400, self.message())
    }
}

/// A request extension was missing; holds the type name.
#[derive(Debug)]
pub struct ExtensionRejection(pub String);

impl ExtensionRejection {
    /// The message shown to the client.
    pub fn message(&self) -> (r: String)
        ensures
            r@ == "Missing request extension: "@ + self.0@,
    {
        concat("Missing request extension: ", self.0.as_str())
    }

    /// `500 Internal Server Error` with the message as plain text.
    pub fn into_response(self) -> (r: Response)
        ensures
            r.status == 500,
            only_headers(r.headers, seq![("content-type"@, plain_text_type())]),
            r.body@ == encode_utf8("Missing request extension: "@ + self.0@),
    {
        plain_text_response(500, self.message())
    }
}

/// The router has no state for `State` to extract.
#[derive(Debug)]
pub struct StateRejection;

impl StateRejection {
    /// The message shown to the client.
    pub fn message(&self) -> (r: String)
        ensures
            r@ == "State not configured. Use `.with_state(state)` on your Router"@,
    {
        "State not configured. Use `.with_state(state)` on your Router".to_owned()
    }

    /// `500 Internal Server Error` with the message as plain text.
    pub fn into_response(self) -> (r: Response)
        ensures
            r.status == 500,
            only_headers(r.headers, seq![("content-type"@, plain_text_type())]),
            r.body@ == encode_utf8("State not configured. Use `.with_state(state)` on your Router"@),
    {
        plain_text_response(500, self.message())
    }
}

/// The body could not be read.
#[derive(Debug)]
pub struct BodyRejection(pub String);

impl BodyRejection {
    /// The message shown to the client.
    pub fn message(&self) -> (r: String)
        ensures
            r@ == "Failed to read request body: "@ + self.0@,
    {
        concat("Failed to read request body: ", self.0.as_str())
    }

    /// `400 Bad Request` with the message as plain text.
    pub fn into_response(self) -> (r: Response)
        ensures
            r.status == 400,
            only_headers(r.headers, seq![("content-type"@, plain_text_type())]),
            r.body@ == encode_utf8("Failed to read request body: "@ + self.0@),
    {
        plain_text_response(400, self.message())
    }
}

/// The body could not be extracted as text.
#[derive(Debug)]
pub enum StringRejection {
    BodyReadFailed(String),
    InvalidUtf8(String),
}

/// The message of a string rejection.
pub open spec fn string_rejection_message(r: StringRejection) -> Seq<char> {
    match r {
        StringRejection::BodyReadFailed(m) => "Failed to read request body: "@ + m@,
        StringRejection::InvalidUtf8(m) => "Request body is not valid UTF-8: "@ + m@,
    }
}

impl StringRejection {
    /// The message shown to the client.
    pub fn message(&self) -> (r: String)
        ensures
            r@ == string_rejection_message(*self),
    {
        match self {
            StringRejection::BodyReadFailed(m) => concat("Failed to read request body: ", m.as_str()),
            StringRejection::InvalidUtf8(m) => concat("Request body is not valid UTF-8: ", m.as_str()),
        }
    }

    /// `400 Bad Request` with the message as plain text.
    pub fn into_response(self) -> (r: Response)
        ensures
            r.status == 400,
            only_headers(r.headers, seq![("content-type"@, plain_text_type())]),
            r.body@ == encode_utf8(string_rejection_message(self)),
    {
        plain_text_response(400, self.message())
    }
}

/// The body could not be extracted as multipart form data.
#[derive(Debug)]
pub enum MultipartRejection {
    InvalidContentType,
    MissingBoundary,
    MultipartError(String),
    /// The declared `Content-Length` exceeds the configured total limit.
    PayloadTooLarge,
}

/// The message of a multipart rejection.
pub open spec fn multipart_rejection_message(r: MultipartRejection) -> Seq<char> {
    match r {
        MultipartRejection::InvalidContentType => "Expected Content-Type: multipart/form-data"@,
        MultipartRejection::MissingBoundary => "Missing multipart boundary in Content-Type"@,
        MultipartRejection::MultipartError(m) => "Multipart error: "@ + m@,
        MultipartRejection::PayloadTooLarge => "Request payload exceeds the maximum allowed size"@,
    }
}

/// The status of a multipart rejection.
pub open spec fn multipart_rejection_status(r: MultipartRejection) -> u16 {
    match r {
        MultipartRejection::InvalidContentType => 415,
        MultipartRejection::PayloadTooLarge => 413,
        _ => 400,
    }
}

impl MultipartRejection {
    /// The message shown to the client.
    pub fn message(&self) -> (r: String)
        ensures
            r@ == multipart_rejection_message(*self),
    {
        match self {
            MultipartRejection::InvalidContentType => "Expected Content-Type: multipart/form-data".to_owned(),
            MultipartRejection::MissingBoundary => "Missing multipart boundary in Content-Type".to_owned(),
            MultipartRejection::MultipartError(m) => concat("Multipart error: ", m.as_str()),
            MultipartRejection::PayloadTooLarge => "Request payload exceeds the maximum allowed size".to_owned(),
        }
    }

    /// `415` for a wrong content type, `413` for an oversized payload, `400` otherwise.
    pub fn status(&self) -> (r: u16)
        ensures
            r == multipart_rejection_status(*self),
    {
        match self {
            MultipartRejection::InvalidContentType => 415,
            MultipartRejection::PayloadTooLarge => 413,
            _ => 400,
        }
    }

    /// The status with the message as plain text.
    pub fn into_response(self) -> (r: Response)
        ensures
            r.status == multipart_rejection_status(self),
            only_headers(r.headers, seq![("content-type"@, plain_text_type())]),
            r.body@ == encode_utf8(multipart_rejection_message(self)),
    {
        let status = self.status();
        plain_text_response(status, self.message())
    }
}

/// The server did not record connection information.
#[derive(Debug)]
pub struct ConnectInfoRejection;

impl ConnectInfoRejection {
    /// The message shown to the client.
    pub fn message(&self) -> (r: String)
        ensures
            r@ == "Missing ConnectInfo. Did you configure the server to insert it?"@,
    {
        "Missing ConnectInfo. Did you configure the server to insert it?".to_owned()
    }

    /// `500 Internal Server Error` with the message as the body and no headers.
    pub fn into_response(self) -> (r: Response)
        ensures
            r.status == 500,
            header_entries(r.headers) == no_header_entries(),
            r.body@ == encode_utf8("Missing ConnectInfo. Did you configure the server to insert it?"@),
    {
        let m = self.message();
        let mut r = Response::empty(500);
        r.body = vstd::slice::slice_to_vec(m.as_str().as_bytes());
        r
    }
}

/// No matched route path is available.
#[derive(Debug)]
pub struct MatchedPathRejection;

impl MatchedPathRejection {
    /// The message shown to the client.
    pub fn message(&self) -> (r: String)
        ensures
            r@ == "No matched path available"@,
    {
        "No matched path available".to_owned()
    }

    /// `500 Internal Server Error` with the message as the body and no headers.
    pub fn into_response(self) -> (r: Response)
        ensures
            r.status == 500,
            header_entries(r.headers) == no_header_entries(),
            r.body@ == encode_utf8("No matched path available"@),
    {
        let m = self.message();
        let mut r = Response::empty(500);
        r.body = vstd::slice::slice_to_vec(m.as_str().as_bytes());
        r
    }
}

} // verus!
