//! Error responses: the JSON body `{"code":..,"error":..}` (with the request
//! identifier when known), the message chosen for an error from its status,
//! and the text of a status code.

use vstd::prelude::*;
use vstd::string::*;
use vstd::utf8::*;
use crate::headers::is_header_value_char;
use crate::response::{only_headers, Response};
use crate::text::{decimal, decimal_spec};

verus! {

/// What `StatusCode::canonical_reason` yields for a status code.
pub uninterp spec fn canonical_reason_of(code: u16) -> Option<Seq<char>>;

/// `StatusCode::from_u16(code)` then `canonical_reason()`: the standard
/// reason phrase of a status code, if it has one.
#[verifier::external_body]
fn canonical_reason(code: u16) -> (r: Option<String>)
    requires
        100 <= code <= 999,
    ensures
        match r {
            Some(s) => canonical_reason_of(code) == Some(s@),
            None => canonical_reason_of(code) is None,
        },
{
    match http::StatusCode::from_u16(code) {
        Ok(s) => s.canonical_reason().map(|t| t.to_owned()),
        Err(_) => None,
    }
}

/// A status code `http::StatusCode` can hold.
pub open spec fn valid_status(code: u16) -> bool {
    100 <= code <= 999
}

/// The lowercase hexadecimal digit of a value below 16.
pub open spec fn hex_digit(d: u32) -> char {
    if d < 10 {
        (('0' as u32) + d) as char
    } else {
        (('a' as u32) + (d - 10)) as char
    }
}

/// How `serde_json` writes one character inside a string: quote, backslash
/// and control characters escaped (`\b \t \n \f \r`, others as `\u00xx`),
/// everything else as is.
pub open spec fn json_escape_char(c: char) -> Seq<char> {
    if c == '"' {
        seq!['\\', '"']
    } else if c == '\\' {
        seq!['\\', '\\']
    } else if c == '\u{8}' {
        seq!['\\', 'b']
    } else if c == '\t' {
        seq!['\\', 't']
    } else if c == '\n' {
        seq!['\\', 'n']
    } else if c == '\u{c}' {
        seq!['\\', 'f']
    } else if c == '\r' {
        seq!['\\', 'r']
    } else if (c as u32) < 0x20 {
        seq!['\\', 'u', '0', '0', hex_digit((c as u32) / 16), hex_digit((c as u32) % 16)]
    } else {
        seq![c]
    }
}

/// The escaped characters of a text.
pub open spec fn json_escaped(s: Seq<char>) -> Seq<char>
    decreases s.len(),
{
    if s.len() == 0 {
        Seq::empty()
    } else {
        json_escaped(s.drop_last()) + json_escape_char(s.last())
    }
}

/// A text as a JSON string literal.
pub open spec fn json_string(s: Seq<char>) -> Seq<char> {
    seq!['"'] + json_escaped(s) + seq!['"']
}

/// `serde_json::to_string` of a `&str`: the JSON string literal, escaped as
/// `serde_json`'s serializer does (its escape table and lowercase `\u00xx`).
/// Serializing a string never fails.
#[verifier::external_body]
fn json_string_literal(s: &str) -> (r: String)
    ensures
        r@ == json_string(s@),
{
    serde_json::to_string(s).unwrap_or_default()
}

/// An error answer: a status, a message and, when known, the request identifier.
#[derive(Debug, Clone)]
pub struct ErrorResponse {
    status: u16,
    message: Option<String>,
    request_id: Option<String>,
}

/// An error answer, as values.
pub struct ErrorResponseView {
    pub status: u16,
    pub message: Option<Seq<char>>,
    pub request_id: Option<Seq<char>>,
}

pub open spec fn opt_text(o: Option<String>) -> Option<Seq<char>> {
    match o {
        Some(s) => Some(s@),
        None => None,
    }
}

impl View for ErrorResponse {
    type V = ErrorResponseView;

    closed spec fn view(&self) -> ErrorResponseView {
        ErrorResponseView {
            status: self.status,
            message: opt_text(self.message),
            request_id: opt_text(self.request_id),
        }
    }
}

/// The message of an error answer: its own, else the status's reason
/// phrase, else `Internal Server Error`.
pub open spec fn error_message(e: ErrorResponseView) -> Seq<char> {
    match e.message {
        Some(m) => m,
        None => match canonical_reason_of(e.status) {
            Some(r) => r,
            None => "Internal Server Error"@,
        },
    }
}

/// The JSON body: `{"code":N,"error":"message"}`, with `"request_id"` last
/// when there is one (the keys in `serde_json`'s sorted order).
pub open spec fn error_body(e: ErrorResponseView) -> Seq<char> {
    "{\"code\":"@ + decimal_spec(e.status as nat) + ",\"error\":"@ + json_string(error_message(e))
        + (match e.request_id {
        Some(rid) => ",\"request_id\":"@ + json_string(rid),
        None => Seq::empty(),
    }) + "}"@
}

impl ErrorResponse {
    /// An answer with this status and no message or request identifier.
    pub fn new(status: u16) -> (r: ErrorResponse)
        requires
            valid_status(status),
        ensures
            r@.status == status,
            r@.message is None,
            r@.request_id is None,
    {
        ErrorResponse { status, message: None, request_id: None }
    }

    /// Set the message.
    pub fn message(self, msg: String) -> (r: ErrorResponse)
        ensures
            r@ == (ErrorResponseView { message: Some(msg@), ..self@ }),
    {
        ErrorResponse { message: Some(msg), ..self }
    }

    /// Set the request identifier.
    pub fn request_id(self, id: String) -> (r: ErrorResponse)
        ensures
            r@ == (ErrorResponseView { request_id: Some(id@), ..self@ }),
    {
        ErrorResponse { request_id: Some(id), ..self }
    }

    /// The JSON body as text.
    pub fn body_text(&self) -> (r: String)
        requires
            valid_status(self@.status),
        ensures
            r@ == error_body(self@),
    {
        let msg = match &self.message {
            Some(m) => m.clone(),
            None => match canonical_reason(self.status) {
                Some(r) => r,
                None => {
                    proof {
                        reveal_strlit("Internal Server Error");
                    }
                    "Internal Server Error".to_owned()
                },
            },
        };
        let mut body = "{\"code\":".to_owned();
        let d = decimal(self.status as u64);
        body.append(d.as_str());
        body.append(",\"error\":");
        let m = json_string_literal(msg.as_str());
        body.append(m.as_str());
        match &self.request_id {
            Some(rid) => {
                body.append(",\"request_id\":");
                let j = json_string_literal(rid.as_str());
                body.append(j.as_str());
            },
            None => {},
        }
        body.append("}");
        proof {
            reveal_strlit("{\"code\":");
            reveal_strlit(",\"error\":");
            reveal_strlit(",\"request_id\":");
            reveal_strlit("}");
        }
        body
    }

    /// The JSON body as bytes.
    pub fn build_body(&self) -> (r: Vec<u8>)
        requires
            valid_status(self@.status),
        ensures
            r@ == encode_utf8(error_body(self@)),
    {
        let t = self.body_text();
        vstd::slice::slice_to_vec(t.as_str().as_bytes())
    }

    /// The answer: the status with the JSON body.
    pub fn into_response(self) -> (r: Response)
        requires
            valid_status(self@.status),
        ensures
            r.status == self@.status,
            only_headers(r.headers, seq![("content-type"@, "application/json"@)]),
            r.body@ == encode_utf8(error_body(self@)),
    {
        proof {
            reveal_strlit("application/json");
            let t = "application/json"@;
            assert forall|i: int| 0 <= i < t.len() implies #[trigger] is_header_value_char(t[i]) by {}
        }
        let t = self.body_text();
        Response::with_text(self.status, "application/json", t.as_str())
    }
}

/// The public message of an error made from a status: its reason phrase,
/// or `Unknown Error`.
pub open spec fn status_error_message(code: u16) -> Seq<char> {
    match canonical_reason_of(code) {
        Some(r) => r,
        None => "Unknown Error"@,
    }
}

/// The public message `Error::from_status` gives an error.
pub fn status_error_message_of(code: u16) -> (r: String)
    requires
        valid_status(code),
    ensures
        r@ == status_error_message(code),
{
    match canonical_reason(code) {
        Some(r) => r,
        None => {
            proof {
                reveal_strlit("Unknown Error");
            }
            "Unknown Error".to_owned()
        },
    }
}

/// The answer to an error with a status and an optional public message: the
/// JSON error answer whose message is the public one, else the reason
/// phrase, else `Internal Server Error`.
pub fn error_response(status: u16, public_message: Option<&str>) -> (r: Response)
    requires
        valid_status(status),
    ensures
        r.status == status,
        only_headers(r.headers, seq![("content-type"@, "application/json"@)]),
        r.body@ == encode_utf8(
            error_body(
                ErrorResponseView {
                    status,
                    message: Some(
                        match public_message {
                            Some(m) => m@,
                            None => match canonical_reason_of(status) {
                                Some(t) => t,
                                None => "Internal Server Error"@,
                            },
                        },
                    ),
                    request_id: None,
                },
            ),
        ),
{
    let message = match public_message {
        Some(m) => m.to_owned(),
        None => match canonical_reason(status) {
            Some(t) => t,
            None => {
                proof {
                    reveal_strlit("Internal Server Error");
                }
                "Internal Server Error".to_owned()
            },
        },
    };
    ErrorResponse::new(status).message(message).into_response()
}

/// The text of a status code: the number, a space and the reason phrase
/// (`<unknown status code>` when it has none).
pub open spec fn status_text(code: u16) -> Seq<char> {
    decimal_spec(code as nat) + " "@ + match canonical_reason_of(code) {
        Some(r) => r,
        None => "<unknown status code>"@,
    }
}

/// The text of a status code.
pub fn status_display(code: u16) -> (r: String)
    requires
        valid_status(code),
    ensures
        r@ == status_text(code),
{
    let mut s = decimal(code as u64);
    s.append(" ");
    match canonical_reason(code) {
        Some(t) => s.append(t.as_str()),
        None => s.append("<unknown status code>"),
    }
    s
}

/// The text of an error: `message (status)` when it has a public message,
/// else the status text.
pub open spec fn error_text(code: u16, public_message: Option<Seq<char>>) -> Seq<char> {
    match public_message {
        Some(m) => m + " ("@ + status_text(code) + ")"@,
        None => status_text(code),
    }
}

/// The text of an error with a status and an optional public message.
pub fn error_display(code: u16, public_message: Option<&str>) -> (r: String)
    requires
        valid_status(code),
    ensures
        r@ == error_text(
            code,
            match public_message {
                Some(m) => Some(m@),
                None => None,
            },
        ),
{
    let st = status_display(code);
    match public_message {
        Some(m) => {
            let mut s = m.to_owned();
            s.append(" (");
            s.append(st.as_str());
            s.append(")");
            s
        },
        None => st,
    }
}

} // verus!
