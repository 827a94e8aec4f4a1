//! Request identifiers: each request gets an `x-request-id` (reused from
//! the request when it has one, a fresh UUID otherwise) that is passed to
//! the handler and echoed on the response.

use vstd::prelude::*;
use vstd::string::*;
use vstd::utf8::*;
use crate::csrf::{random_uuid_text, uuid_text};
use crate::headers::{
    header_first, header_get, header_insert, header_insert_bytes, header_keys_len, header_str,
    header_text, header_values, is_valid_header_bytes, is_valid_header_value, max_header_names,
    others_unchanged, valid_header_bytes, valid_header_value,
};

verus! {

/// The header carrying the request identifier.
pub const X_REQUEST_ID: &'static str = "x-request-id";

/// A request identifier.
#[derive(Debug, Clone)]
pub struct RequestId(String);

impl View for RequestId {
    type V = Seq<char>;

    closed spec fn view(&self) -> Seq<char> {
        self.0@
    }
}

impl RequestId {
    /// A fresh random identifier (a UUID).
    pub fn new() -> (r: RequestId)
        ensures
            uuid_text(r@),
    {
        RequestId(random_uuid_text())
    }

    /// An identifier with the given text.
    pub fn from_string(id: String) -> (r: RequestId)
        ensures
            r@ == id@,
    {
        RequestId(id)
    }

    /// The identifier's text.
    pub fn as_str(&self) -> (r: &str)
        ensures
            r@ == self@,
    {
        self.0.as_str()
    }
}

impl Default for RequestId {
    fn default() -> (r: RequestId)
        ensures
            uuid_text(r@),
    {
        RequestId::new()
    }
}

/// The header map after storing an identifier under `x-request-id`: replaced
/// when it is a valid header value, unchanged otherwise.
pub open spec fn id_stored(before: http::HeaderMap, after: http::HeaderMap, id: Seq<char>) -> bool {
    &&& header_values(after, "x-request-id"@) == (if valid_header_value(id) {
        seq![encode_utf8(id)]
    } else {
        header_values(before, "x-request-id"@)
    })
    &&& others_unchanged(before, after, "x-request-id"@)
}

fn store_id(headers: &mut http::HeaderMap, id: &str)
    requires
        header_keys_len(*old(headers)) < max_header_names(),
    ensures
        id_stored(*old(headers), *final(headers), id@),
{
    proof {
        reveal_strlit("x-request-id");
    }
    if is_valid_header_value(id) {
        header_insert(headers, "x-request-id", id);
    }
}

/// Gives every request an identifier.
#[derive(Debug, Clone, Copy)]
pub struct RequestIdLayer;

impl Default for RequestIdLayer {
    fn default() -> (r: RequestIdLayer) {
        RequestIdLayer
    }
}

impl RequestIdLayer {
    /// A new layer.
    pub fn new() -> (r: RequestIdLayer) {
        RequestIdLayer
    }

    /// Wrap a service.
    pub fn layer<S>(&self, inner: S) -> (r: RequestIdService<S>)
        ensures
            r.inner_view() == inner,
    {
        RequestIdService { inner }
    }
}

/// The identifier layer wrapped around a service.
pub struct RequestIdService<S> {
    inner: S,
}

impl<S> RequestIdService<S> {
    pub closed spec fn inner_view(&self) -> S {
        self.inner
    }

    /// The wrapped service.
    pub fn inner(&self) -> (r: &S)
        ensures
            *r == self.inner_view(),
    {
        &self.inner
    }

    /// Identify a request: reuse its `x-request-id` text, or make a fresh
    /// UUID; store the identifier back in the request's headers.
    pub fn identify(&self, headers: &mut http::HeaderMap) -> (r: RequestId)
        requires
            header_keys_len(*old(headers)) < max_header_names(),
        ensures
            match header_text(*old(headers), "x-request-id"@) {
                Some(t) => r@ == t,
                None => uuid_text(r@),
            },
            id_stored(*old(headers), *final(headers), r@),
    {
        proof {
            reveal_strlit("x-request-id");
        }
        let id = match header_str(headers, "x-request-id") {
            Some(t) => RequestId::from_string(t),
            None => RequestId::new(),
        };
        store_id(headers, id.as_str());
        id
    }

    /// Echo the identifier on the response.
    pub fn finish(&self, id: &RequestId, response_headers: &mut http::HeaderMap)
        requires
            header_keys_len(*old(response_headers)) < max_header_names(),
        ensures
            id_stored(*old(response_headers), *final(response_headers), id@),
    {
        store_id(response_headers, id.as_str());
    }
}

/// Copies an incoming `x-request-id` to the response; never makes one up.
#[derive(Debug, Clone, Copy)]
pub struct PropagateRequestIdLayer;

impl Default for PropagateRequestIdLayer {
    fn default() -> (r: PropagateRequestIdLayer) {
        PropagateRequestIdLayer
    }
}

impl PropagateRequestIdLayer {
    /// A new layer.
    pub fn new() -> (r: PropagateRequestIdLayer) {
        PropagateRequestIdLayer
    }

    /// Wrap a service.
    pub fn layer<S>(&self, inner: S) -> (r: PropagateRequestIdService<S>)
        ensures
            r.inner_view() == inner,
    {
        PropagateRequestIdService { inner }
    }
}

/// The propagating layer wrapped around a service.
pub struct PropagateRequestIdService<S> {
    inner: S,
}

impl<S> PropagateRequestIdService<S> {
    pub closed spec fn inner_view(&self) -> S {
        self.inner
    }

    /// The wrapped service.
    pub fn inner(&self) -> (r: &S)
        ensures
            *r == self.inner_view(),
    {
        &self.inner
    }

    /// The incoming identifier, as bytes.
    pub fn incoming(&self, headers: &http::HeaderMap) -> (r: Option<Vec<u8>>)
        ensures
            match r {
                Some(v) => header_first(*headers, "x-request-id"@) == Some(v@),
                None => header_first(*headers, "x-request-id"@) is None,
            },
    {
        proof {
            reveal_strlit("x-request-id");
        }
        header_get(headers, "x-request-id")
    }

    /// Put the incoming identifier on the response (when there was one and
    /// it is a storable header value, as any parsed request's is).
    pub fn finish(&self, incoming: Option<Vec<u8>>, response_headers: &mut http::HeaderMap)
        requires
            header_keys_len(*old(response_headers)) < max_header_names(),
        ensures
            header_values(*final(response_headers), "x-request-id"@) == (match incoming {
                Some(v) => if valid_header_bytes(v@) {
                    seq![v@]
                } else {
                    header_values(*old(response_headers), "x-request-id"@)
                },
                None => header_values(*old(response_headers), "x-request-id"@),
            }),
            others_unchanged(*old(response_headers), *final(response_headers), "x-request-id"@),
    {
        proof {
            reveal_strlit("x-request-id");
        }
        match incoming {
            Some(v) => {
                if is_valid_header_bytes(v.as_slice()) {
                    header_insert_bytes(response_headers, "x-request-id", v.as_slice());
                }
            },
            None => {},
        }
    }
}

} // verus!
