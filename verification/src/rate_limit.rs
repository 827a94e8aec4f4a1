//! Rate limiting: the key a request is counted under, and the `429 Too
//! Many Requests` answer. The token buckets themselves (fractional tokens
//! refilled over wall-clock time) live outside this library.

use vstd::prelude::*;
use vstd::string::*;
use vstd::utf8::*;
use crate::headers::{
    header_str, header_text, header_values, is_header_value_char, is_valid_name_input,
    lemma_decimal_header_value, normalize_header_name, normalized_name, valid_name_input,
};
use crate::response::Response;
use crate::text::{decimal, decimal_spec, lemma_split_nonempty, split, split_spec, trim, trim_spec};

verus! {

/// How the key of a request is chosen.
#[derive(Debug, Clone)]
pub enum KeyExtractor {
    /// The client's address: `X-Forwarded-For` (first entry), then
    /// `X-Real-IP`, then the peer address.
    IpAddress,
    /// The value of this request header.
    Header(String),
    /// One key shared by every request.
    Global,
}

/// The key a request is counted under.
pub open spec fn request_key(e: KeyExtractor, h: http::HeaderMap, peer_ip: Option<Seq<char>>) -> Seq<
    char,
> {
    match e {
        KeyExtractor::IpAddress => match header_text(h, "x-forwarded-for"@) {
            Some(f) => trim_spec(split_spec(f, ',')[0]),
            None => match header_text(h, "x-real-ip"@) {
                Some(r) => trim_spec(r),
                None => match peer_ip {
                    Some(p) => p,
                    None => "unknown"@,
                },
            },
        },
        KeyExtractor::Header(name) => if valid_name_input(name@) {
            match header_text(h, normalized_name(name@)) {
                Some(v) => v,
                None => "unknown"@,
            }
        } else {
            "unknown"@
        },
        KeyExtractor::Global => "__global__"@,
    }
}

impl KeyExtractor {
    /// The key of a request with headers `headers`, from a peer whose address
    /// (as text) is `peer_ip` when known.
    pub fn extract_key(&self, headers: &http::HeaderMap, peer_ip: Option<String>) -> (r: String)
        ensures
            r@ == request_key(
                *self,
                *headers,
                match peer_ip {
                    Some(p) => Some(p@),
                    None => None,
                },
            ),
    {
        proof {
            reveal_strlit("x-forwarded-for");
            reveal_strlit("x-real-ip");
        }
        match self {
            KeyExtractor::IpAddress => {
                match header_str(headers, "x-forwarded-for") {
                    Some(f) => {
                        let pieces = split(f.as_str(), ',');
                        proof {
                            lemma_split_nonempty(f@, ',');
                            assert(pieces@[0]@ == split_spec(f@, ',')[0]);
                        }
                        return trim(pieces[0].as_str());
                    },
                    None => {},
                }
                match header_str(headers, "x-real-ip") {
                    Some(r) => return trim(r.as_str()),
                    None => {},
                }
                match peer_ip {
                    Some(p) => p,
                    None => "unknown".to_owned(),
                }
            },
            KeyExtractor::Header(name) => {
                if is_valid_name_input(name.as_str()) {
                    let n = normalize_header_name(name.as_str());
                    match header_str(headers, n.as_str()) {
                        Some(v) => v,
                        None => "unknown".to_owned(),
                    }
                } else {
                    "unknown".to_owned()
                }
            },
            KeyExtractor::Global => "__global__".to_owned(),
        }
    }
}

/// Limits requests per key to `capacity` per second.
#[derive(Debug, Clone)]
pub struct RateLimitLayer {
    capacity: u64,
    extractor: KeyExtractor,
}

impl RateLimitLayer {
    pub closed spec fn capacity_view(&self) -> u64 {
        self.capacity
    }

    pub closed spec fn extractor_view(&self) -> KeyExtractor {
        self.extractor
    }

    /// `capacity` requests per second per client address. The window is
    /// accepted for symmetry; the buckets refill over one second.
    pub fn new(capacity: u64, window: crate::duration::TimeSpan) -> (r: RateLimitLayer)
        ensures
            r.capacity_view() == capacity,
            r.extractor_view() is IpAddress,
    {
        RateLimitLayer { capacity, extractor: KeyExtractor::IpAddress }
    }

    /// Count requests by the value of a header.
    pub fn by_header(self, header_name: String) -> (r: RateLimitLayer)
        ensures
            r.capacity_view() == self.capacity_view(),
            r.extractor_view() == KeyExtractor::Header(header_name),
    {
        RateLimitLayer { extractor: KeyExtractor::Header(header_name), ..self }
    }

    /// Count all requests together.
    pub fn global(self) -> (r: RateLimitLayer)
        ensures
            r.capacity_view() == self.capacity_view(),
            r.extractor_view() is Global,
    {
        RateLimitLayer { extractor: KeyExtractor::Global, ..self }
    }

    /// Count requests by a custom key extractor.
    pub fn with_extractor(self, extractor: KeyExtractor) -> (r: RateLimitLayer)
        ensures
            r.capacity_view() == self.capacity_view(),
            r.extractor_view() == extractor,
    {
        RateLimitLayer { extractor, ..self }
    }

    /// The number of requests allowed per second and key.
    pub fn capacity(&self) -> (r: u64)
        ensures
            r == self.capacity_view(),
    {
        self.capacity
    }

    /// The key extractor.
    pub fn extractor(&self) -> (r: &KeyExtractor)
        ensures
            *r == self.extractor_view(),
    {
        &self.extractor
    }
}

/// The JSON body of the refusal.
pub open spec fn too_many_requests_body(retry_after: u64) -> Seq<char> {
    "{\"error\":\"Too Many Requests\",\"code\":429,\"retry_after\":"@ + decimal_spec(
        retry_after as nat,
    ) + "}"@
}

/// The refusal: `429` with `Retry-After` (whole seconds, rounded up),
/// `X-RateLimit-Limit`, `X-RateLimit-Remaining: 0` and a JSON body.
pub fn too_many_requests(retry_after_secs: u64, capacity: u64) -> (r: Response)
    ensures
        r.status == 429,
        header_values(r.headers, "content-type"@) == seq![encode_utf8("application/json"@)],
        header_values(r.headers, "retry-after"@) == seq![
            encode_utf8(decimal_spec(retry_after_secs as nat)),
        ],
        header_values(r.headers, "x-ratelimit-limit"@) == seq![
            encode_utf8(decimal_spec(capacity as nat)),
        ],
        header_values(r.headers, "x-ratelimit-remaining"@) == seq![encode_utf8("0"@)],
        forall|n: Seq<char>|
            n != "content-type"@ && n != "retry-after"@ && n != "x-ratelimit-limit"@ && n
                != "x-ratelimit-remaining"@ ==> #[trigger] header_values(r.headers, n).len() == 0,
        r.body@ == encode_utf8(too_many_requests_body(retry_after_secs)),
{
    proof {
        reveal_strlit("content-type");
        reveal_strlit("retry-after");
        reveal_strlit("x-ratelimit-limit");
        reveal_strlit("x-ratelimit-remaining");
        reveal_strlit("application/json");
        reveal_strlit("0");
        assert("content-type"@.len() == 12);
        assert("retry-after"@.len() == 11);
        assert("x-ratelimit-limit"@.len() == 17);
        assert("x-ratelimit-remaining"@.len() == 21);
        let t = "application/json"@;
        assert forall|i: int| 0 <= i < t.len() implies #[trigger] is_header_value_char(t[i]) by {}
        let z = "0"@;
        assert forall|i: int| 0 <= i < z.len() implies #[trigger] is_header_value_char(z[i]) by {}
        lemma_decimal_header_value(retry_after_secs as nat);
        lemma_decimal_header_value(capacity as nat);
    }
    let mut body = "{\"error\":\"Too Many Requests\",\"code\":429,\"retry_after\":".to_owned();
    let retry = decimal(retry_after_secs);
    body.append(retry.as_str());
    body.append("}");
    let mut r = Response::with_text(429, "application/json", body.as_str());
    let ghost h0 = r.headers;
    crate::headers::header_insert(&mut r.headers, "retry-after", retry.as_str());
    let cap = decimal(capacity);
    crate::headers::header_insert(&mut r.headers, "x-ratelimit-limit", cap.as_str());
    crate::headers::header_insert(&mut r.headers, "x-ratelimit-remaining", "0");
    proof {
        assert forall|n: Seq<char>|
            n != "content-type"@ && n != "retry-after"@ && n != "x-ratelimit-limit"@ && n
                != "x-ratelimit-remaining"@ implies #[trigger] header_values(r.headers, n).len()
            == 0 by {
            assert(crate::response::lacks(h0, n));
        }
        let ps = seq![("content-type"@, "application/json"@)];
        assert(crate::response::has_single(h0, ps[0].0, ps[0].1));
    }
    r
}

} // verus!
