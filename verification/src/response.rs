//! A response as plain parts: status code, header map and body bytes.

use vstd::prelude::*;
use vstd::slice::slice_to_vec;
use vstd::string::*;
use vstd::utf8::*;
use crate::headers::{
    header_append_bytes, header_entries, header_insert, header_keys_len, header_values,
    is_header_value_char, is_valid_header_value, is_valid_name_input, max_header_names,
    new_header_map, no_header_entries, normalize_header_name, normalized_name, valid_header_value,
    valid_name_input,
};

verus! {

/// A response: status code, headers and the complete body.
pub struct Response {
    pub status: u16,
    pub headers: http::HeaderMap,
    pub body: Vec<u8>,
}

/// `name` holds exactly `value` (as UTF-8 bytes).
pub open spec fn has_single(h: http::HeaderMap, name: Seq<char>, value: Seq<char>) -> bool {
    header_values(h, name) == seq![encode_utf8(value)]
}

/// `name` holds no value.
pub open spec fn lacks(h: http::HeaderMap, name: Seq<char>) -> bool {
    header_values(h, name).len() == 0
}

/// The header map holds exactly the pairs named, each name once.
pub open spec fn only_headers(h: http::HeaderMap, pairs: Seq<(Seq<char>, Seq<char>)>) -> bool {
    &&& forall|i: int| 0 <= i < pairs.len() ==> #[trigger] has_single(h, pairs[i].0, pairs[i].1)
    &&& forall|n: Seq<char>|
        (forall|i: int| 0 <= i < pairs.len() ==> #[trigger] pairs[i].0 != n) ==> lacks(h, n)
}

impl Response {
    /// A response with `status`, no headers and an empty body.
    pub fn empty(status: u16) -> (r: Response)
        ensures
            r.status == status,
            header_entries(r.headers) == no_header_entries(),
            header_keys_len(r.headers) == 0,
            r.body@.len() == 0,
    {
        Response { status, headers: new_header_map(), body: Vec::new() }
    }

    /// A response with `status`, a single `content-type` header and `body` as its bytes.
    pub fn with_text(status: u16, content_type: &str, body: &str) -> (r: Response)
        requires
            valid_header_value(content_type@),
        ensures
            r.status == status,
            only_headers(r.headers, seq![("content-type"@, content_type@)]),
            header_keys_len(r.headers) == 1,
            r.body@ == encode_utf8(body@),
    {
        let mut headers = new_header_map();
        proof {
            reveal_strlit("content-type");
        }
        header_insert(&mut headers, "content-type", content_type);
        let r = Response { status, headers, body: slice_to_vec(body.as_bytes()) };
        proof {
            assert forall|n: Seq<char>|
                (forall|i: int| 0 <= i < 1 ==> #[trigger] seq![("content-type"@, content_type@)][i].0
                    != n) implies lacks(r.headers, n) by {
                assert(seq![("content-type"@, content_type@)][0].0 != n);
            }
        }
        r
    }
}


/// `content-type` alone holds `value`; no other header is set.
pub open spec fn only_content_type(h: http::HeaderMap, value: Seq<char>) -> bool {
    only_headers(h, seq![("content-type"@, value)])
}

impl Response {
    /// A `200` response with a plain text body (`text/plain; charset=utf-8`).
    pub fn text(body: &str) -> (r: Response)
        ensures
            r.status == 200,
            only_content_type(r.headers, "text/plain; charset=utf-8"@),
            r.body@ == encode_utf8(body@),
    {
        proof {
            reveal_strlit("text/plain; charset=utf-8");
            let t = "text/plain; charset=utf-8"@;
            assert forall|i: int| 0 <= i < t.len() implies #[trigger] is_header_value_char(t[i]) by {}
        }
        Response::with_text(200, "text/plain; charset=utf-8", body)
    }

    /// A `200` response with raw bytes (`application/octet-stream`).
    pub fn bytes(body: Vec<u8>) -> (r: Response)
        ensures
            r.status == 200,
            only_content_type(r.headers, "application/octet-stream"@),
            r.body@ == body@,
    {
        proof {
            reveal_strlit("application/octet-stream");
            let t = "application/octet-stream"@;
            assert forall|i: int| 0 <= i < t.len() implies #[trigger] is_header_value_char(t[i]) by {}
        }
        let mut r = Response::with_text(200, "application/octet-stream", "");
        r.body = body;
        r
    }

    /// The response with its status replaced.
    pub fn with_status(self, status: u16) -> (r: Response)
        ensures
            r.status == status,
            r.headers == self.headers,
            r.body@ == self.body@,
    {
        Response { status, ..self }
    }
}

/// Redirect responses.
pub struct Redirect;

/// A redirect: the status, `location` set to the target, an empty body.
pub open spec fn redirect_to(r: Response, status: u16, uri: Seq<char>) -> bool {
    &&& r.status == status
    &&& only_headers(r.headers, seq![("location"@, uri)])
    &&& r.body@.len() == 0
}

impl Redirect {
    fn build(status: u16, uri: &str) -> (r: Response)
        requires
            valid_header_value(uri@),
        ensures
            redirect_to(r, status, uri@),
    {
        let mut headers = new_header_map();
        proof {
            reveal_strlit("location");
        }
        header_insert(&mut headers, "location", uri);
        let r = Response { status, headers, body: Vec::new() };
        proof {
            assert forall|n: Seq<char>|
                (forall|i: int| 0 <= i < 1 ==> #[trigger] seq![("location"@, uri@)][i].0 != n) implies lacks(
                r.headers,
                n,
            ) by {
                assert(seq![("location"@, uri@)][0].0 != n);
            }
        }
        r
    }

    /// `303 See Other` to `uri`.
    pub fn to(uri: &str) -> (r: Response)
        requires
            valid_header_value(uri@),
        ensures
            redirect_to(r, 303, uri@),
    {
        Redirect::build(303, uri)
    }

    /// `301 Moved Permanently` to `uri`.
    pub fn permanent(uri: &str) -> (r: Response)
        requires
            valid_header_value(uri@),
        ensures
            redirect_to(r, 301, uri@),
    {
        Redirect::build(301, uri)
    }

    /// `307 Temporary Redirect` to `uri`.
    pub fn temporary(uri: &str) -> (r: Response)
        requires
            valid_header_value(uri@),
        ensures
            redirect_to(r, 307, uri@),
    {
        Redirect::build(307, uri)
    }
}

/// An HTML response body.
pub struct Html<T>(pub T);

impl Html<String> {
    /// `200` with `text/html; charset=utf-8`.
    pub fn into_response(self) -> (r: Response)
        ensures
            r.status == 200,
            only_content_type(r.headers, "text/html; charset=utf-8"@),
            r.body@ == encode_utf8(self.0@),
    {
        proof {
            reveal_strlit("text/html; charset=utf-8");
            let t = "text/html; charset=utf-8"@;
            assert forall|i: int| 0 <= i < t.len() implies #[trigger] is_header_value_char(t[i]) by {}
        }
        Response::with_text(200, "text/html; charset=utf-8", self.0.as_str())
    }
}

/// A JSON response body.
pub struct Json<T>(pub T);

/// The body sent when a value cannot be serialized.
pub open spec fn serialization_failed_body() -> Seq<char> {
    "{\"error\":\"Serialization failed\",\"code\":500}"@
}

/// The answer for a JSON value, given the outcome of serializing it: `200`
/// with the bytes, or `500` with a fixed JSON body when serialization failed.
pub fn json_response(serialized: Option<Vec<u8>>) -> (r: Response)
    ensures
        only_content_type(r.headers, "application/json"@),
        match serialized {
            Some(b) => r.status == 200 && r.body@ == b@,
            None => r.status == 500 && r.body@ == encode_utf8(serialization_failed_body()),
        },
{
    proof {
        reveal_strlit("application/json");
        let t = "application/json"@;
        assert forall|i: int| 0 <= i < t.len() implies #[trigger] is_header_value_char(t[i]) by {}
    }
    match serialized {
        Some(b) => {
            let mut r = Response::with_text(200, "application/json", "");
            r.body = b;
            r
        },
        None => Response::with_text(
            500,
            "application/json",
            "{\"error\":\"Serialization failed\",\"code\":500}",
        ),
    }
}

/// A response body produced by a stream of chunks.
pub struct StreamBody<S>(S);

impl<S> StreamBody<S> {
    pub closed spec fn stream_view(&self) -> S {
        self.0
    }

    /// A body streaming `stream`.
    pub fn new(stream: S) -> (r: StreamBody<S>)
        ensures
            r.stream_view() == stream,
    {
        StreamBody(stream)
    }

    /// The stream.
    pub fn into_inner(self) -> (r: S)
        ensures
            r == self.stream_view(),
    {
        self.0
    }
}

/// Header pairs appended to a response.
#[derive(Debug, Clone)]
pub struct AppendHeaders<I>(pub I);

/// A header pair that can be stored: a name `HeaderName` accepts and a
/// valid value.
pub open spec fn storable_pair(p: (Seq<char>, Seq<char>)) -> bool {
    valid_name_input(p.0) && valid_header_value(p.1)
}

/// The values the storable pairs named `n` contribute, in order.
pub open spec fn appended_values(pairs: Seq<(Seq<char>, Seq<char>)>, n: Seq<char>) -> Seq<Seq<u8>>
    decreases pairs.len(),
{
    if pairs.len() == 0 {
        Seq::empty()
    } else {
        let last = pairs.last();
        appended_values(pairs.drop_last(), n) + (if storable_pair(last) && normalized_name(last.0)
            == n {
            seq![encode_utf8(last.1)]
        } else {
            Seq::empty()
        })
    }
}

pub open spec fn pairs_view(v: Seq<(String, String)>) -> Seq<(Seq<char>, Seq<char>)> {
    v.map_values(|p: (String, String)| (p.0@, p.1@))
}

impl AppendHeaders<Vec<(String, String)>> {
    /// Append each pair to `headers`, in order, skipping those whose name or
    /// value is invalid.
    pub fn apply(&self, headers: &mut http::HeaderMap)
        requires
            header_keys_len(*old(headers)) + self.0@.len() <= max_header_names(),
        ensures
            forall|n: Seq<char>| #[trigger] header_values(*final(headers), n) == header_values(
                *old(headers),
                n,
            ) + appended_values(pairs_view(self.0@), n),
    {
        let ghost h0 = *headers;
        let mut i: usize = 0;
        while i < self.0.len()
            invariant
                i <= self.0@.len(),
                header_keys_len(*headers) <= header_keys_len(h0) + i,
                header_keys_len(h0) + self.0@.len() <= max_header_names(),
                forall|n: Seq<char>| #[trigger] header_values(*headers, n) == header_values(h0, n)
                    + appended_values(pairs_view(self.0@).take(i as int), n),
            decreases self.0@.len() - i,
        {
            let ghost before = *headers;
            let ghost ps = pairs_view(self.0@);
            proof {
                assert(ps.take(i + 1).drop_last() =~= ps.take(i as int));
                assert(ps.take(i + 1).last() == (self.0@[i as int].0@, self.0@[i as int].1@));
            }
            let (k, v) = (&self.0[i].0, &self.0[i].1);
            if is_valid_name_input(k.as_str()) && is_valid_header_value(v.as_str()) {
                let name = normalize_header_name(k.as_str());
                proof {
                    crate::headers::lemma_value_text_bytes(v@);
                }
                header_append_bytes(headers, name.as_str(), v.as_str().as_bytes());
                proof {
                    assert forall|n: Seq<char>| #[trigger] header_values(*headers, n) == header_values(
                        h0,
                        n,
                    ) + appended_values(ps.take(i + 1), n) by {
                        if n == name@ {
                            assert(header_values(h0, n) + appended_values(ps.take(i + 1), n)
                                =~= header_values(before, n).push(encode_utf8(v@)));
                        } else {
                            assert(header_values(h0, n) + appended_values(ps.take(i + 1), n)
                                =~= header_values(before, n));
                        }
                    }
                }
            } else {
                proof {
                    assert forall|n: Seq<char>| #[trigger] header_values(*headers, n) == header_values(
                        h0,
                        n,
                    ) + appended_values(ps.take(i + 1), n) by {
                        assert(header_values(h0, n) + appended_values(ps.take(i + 1), n)
                            =~= header_values(before, n));
                    }
                }
            }
            i = i + 1;
        }
        proof {
            assert(pairs_view(self.0@).take(self.0@.len() as int) =~= pairs_view(self.0@));
        }
    }
}

/// A handler kept with its (phantom) argument and state types.
pub struct ErasedHandlerWrapper<H, T, S> {
    handler: H,
    _marker: core::marker::PhantomData<(T, S)>,
}

impl<H, T, S> ErasedHandlerWrapper<H, T, S> {
    pub closed spec fn handler_view(&self) -> H {
        self.handler
    }

    /// Keep `handler`.
    pub fn new(handler: H) -> (r: ErasedHandlerWrapper<H, T, S>)
        ensures
            r.handler_view() == handler,
    {
        ErasedHandlerWrapper { handler, _marker: core::marker::PhantomData }
    }

    /// The handler.
    pub fn handler(&self) -> (r: &H)
        ensures
            *r == self.handler_view(),
    {
        &self.handler
    }
}

} // verus!
