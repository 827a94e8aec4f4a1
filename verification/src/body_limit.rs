//! Request body size limit: a request is refused with `413 Payload Too
//! Large` when its declared `Content-Length` exceeds the limit, or when the
//! body, collected chunk by chunk, grows past it.

use vstd::prelude::*;
use vstd::string::*;
use vstd::utf8::*;
use crate::headers::{header_str, header_text, is_header_value_char};
use crate::num::{parse_unsigned, parse_unsigned_spec};
use crate::response::{only_headers, Response};
use crate::text::{decimal, decimal_spec};

verus! {

/// Refuses requests whose body is larger than `limit` bytes.
#[derive(Debug, Clone, Copy)]
pub struct RequestBodyLimitLayer {
    limit: usize,
}

impl RequestBodyLimitLayer {
    pub closed spec fn limit_view(&self) -> usize {
        self.limit
    }

    /// A layer with the given byte limit.
    pub fn new(limit: usize) -> (r: RequestBodyLimitLayer)
        ensures
            r.limit_view() == limit,
    {
        RequestBodyLimitLayer { limit }
    }

    /// The byte limit.
    pub fn limit(&self) -> (r: usize)
        ensures
            r == self.limit_view(),
    {
        self.limit
    }

    /// Wrap a service.
    pub fn layer<S>(&self, inner: S) -> (r: RequestBodyLimitService<S>)
        ensures
            r.inner_view() == inner,
            r.limit_view() == self.limit_view(),
    {
        RequestBodyLimitService { inner, limit: self.limit }
    }
}

/// The body limit wrapped around a service.
pub struct RequestBodyLimitService<S> {
    inner: S,
    limit: usize,
}

/// The declared body length, when `Content-Length` is a decimal `usize`.
pub open spec fn declared_body_length(h: http::HeaderMap) -> Option<nat> {
    match header_text(h, "content-length"@) {
        Some(v) => parse_unsigned_spec(v, usize::MAX as nat),
        None => None,
    }
}

impl<S> RequestBodyLimitService<S> {
    pub closed spec fn inner_view(&self) -> S {
        self.inner
    }

    pub closed spec fn limit_view(&self) -> usize {
        self.limit
    }

    /// The wrapped service.
    pub fn inner(&self) -> (r: &S)
        ensures
            *r == self.inner_view(),
    {
        &self.inner
    }

    /// The byte limit.
    pub fn limit(&self) -> (r: usize)
        ensures
            r == self.limit_view(),
    {
        self.limit
    }

    /// The request declares a `Content-Length` above the limit.
    pub fn declared_too_large(&self, headers: &http::HeaderMap) -> (r: bool)
        ensures
            r == (declared_body_length(*headers) is Some && declared_body_length(*headers)->0
                > self.limit_view()),
    {
        proof {
            reveal_strlit("content-length");
        }
        match header_str(headers, "content-length") {
            Some(v) => match parse_unsigned(v.as_str(), usize::MAX as u64) {
                Some(n) => n > self.limit as u64,
                None => false,
            },
            None => false,
        }
    }

    /// A collector for this request's body.
    pub fn collector(&self) -> (r: BodyCollector)
        ensures
            r.bytes().len() == 0,
            r.limit() == self.limit_view(),
            r.within_limit(),
    {
        BodyCollector::new(self.limit)
    }
}

/// The bytes of a request body collected so far, against a limit.
pub struct BodyCollector {
    buf: Vec<u8>,
    limit: usize,
}

impl BodyCollector {
    pub closed spec fn bytes(&self) -> Seq<u8> {
        self.buf@
    }

    pub closed spec fn limit(&self) -> usize {
        self.limit
    }

    /// The collected bytes do not exceed the limit.
    pub open spec fn within_limit(&self) -> bool {
        self.bytes().len() <= self.limit()
    }

    /// Nothing collected yet.
    pub fn new(limit: usize) -> (r: BodyCollector)
        ensures
            r.bytes().len() == 0,
            r.limit() == limit,
            r.within_limit(),
    {
        BodyCollector { buf: Vec::new(), limit }
    }

    /// Add a data chunk; `false` once the collected bytes exceed the limit.
    pub fn push_data(&mut self, data: &[u8]) -> (r: bool)
        requires
            old(self).bytes().len() + data@.len() <= usize::MAX,
        ensures
            final(self).bytes() == old(self).bytes() + data@,
            final(self).limit() == old(self).limit(),
            r == final(self).within_limit(),
    {
        let mut i: usize = 0;
        let ghost start = self.buf@;
        while i < data.len()
            invariant
                i <= data@.len(),
                self.buf@ == start + data@.take(i as int),
                self.limit == old(self).limit,
                start == old(self).buf@,
            decreases data@.len() - i,
        {
            self.buf.push(data[i]);
            proof {
                assert(data@.take(i + 1) =~= data@.take(i as int).push(data@[i as int]));
            }
            i = i + 1;
        }
        proof {
            assert(data@.take(data@.len() as int) =~= data@);
        }
        self.buf.len() <= self.limit
    }

    /// The collected body.
    pub fn into_bytes(self) -> (r: Vec<u8>)
        ensures
            r@ == self.bytes(),
    {
        self.buf
    }
}

/// All chunks one after another.
pub open spec fn concat_chunks(chunks: Seq<Seq<u8>>) -> Seq<u8>
    decreases chunks.len(),
{
    if chunks.len() == 0 {
        Seq::empty()
    } else {
        concat_chunks(chunks.drop_last()) + chunks.last()
    }
}

proof fn lemma_concat_monotone(chunks: Seq<Seq<u8>>, i: int)
    requires
        0 <= i <= chunks.len(),
    ensures
        concat_chunks(chunks.take(i)).len() <= concat_chunks(chunks).len(),
    decreases chunks.len(),
{
    if i < chunks.len() {
        assert(chunks.drop_last().take(i) =~= chunks.take(i));
        lemma_concat_monotone(chunks.drop_last(), i);
    } else {
        assert(chunks.take(i) =~= chunks);
    }
}

pub open spec fn chunks_view(chunks: Seq<Vec<u8>>) -> Seq<Seq<u8>> {
    chunks.map_values(|c: Vec<u8>| c@)
}

/// Collect body chunks in order against `limit`: the whole body when it is
/// at most `limit` bytes, `None` (stopping at the first chunk that passes
/// the limit) otherwise.
pub fn collect_limited(chunks: &Vec<Vec<u8>>, limit: usize) -> (r: Option<Vec<u8>>)
    requires
        concat_chunks(chunks_view(chunks@)).len() <= usize::MAX,
    ensures
        r is None <==> concat_chunks(chunks_view(chunks@)).len() > limit,
        r matches Some(b) ==> b@ == concat_chunks(chunks_view(chunks@)),
{
    let ghost cs = chunks_view(chunks@);
    let mut collector = BodyCollector::new(limit);
    let mut i: usize = 0;
    while i < chunks.len()
        invariant
            cs == chunks_view(chunks@),
            concat_chunks(cs).len() <= usize::MAX,
            i <= chunks@.len(),
            collector.bytes() == concat_chunks(cs.take(i as int)),
            collector.limit() == limit,
            collector.within_limit(),
        decreases chunks@.len() - i,
    {
        proof {
            assert(cs.take(i + 1).drop_last() =~= cs.take(i as int));
            assert(cs.take(i + 1).last() == chunks@[i as int]@);
            lemma_concat_monotone(cs, i + 1);
        }
        let ok = collector.push_data(chunks[i].as_slice());
        if !ok {
            proof {
                lemma_concat_monotone(cs, i + 1);
            }
            return None;
        }
        i = i + 1;
    }
    proof {
        assert(cs.take(chunks@.len() as int) =~= cs);
    }
    Some(collector.into_bytes())
}

/// The JSON body of the refusal.
pub open spec fn payload_too_large_body(limit: usize) -> Seq<char> {
    "{\"error\":\"Payload Too Large\",\"code\":413,\"limit_bytes\":"@ + decimal_spec(limit as nat)
        + "}"@
}

/// The refusal: `413` with a JSON body naming the limit.
pub fn payload_too_large(limit: usize) -> (r: Response)
    ensures
        r.status == 413,
        only_headers(r.headers, seq![("content-type"@, "application/json"@)]),
        r.body@ == encode_utf8(payload_too_large_body(limit)),
{
    proof {
        reveal_strlit("application/json");
        let t = "application/json"@;
        assert forall|i: int| 0 <= i < t.len() implies #[trigger] is_header_value_char(t[i]) by {}
    }
    let mut body = "{\"error\":\"Payload Too Large\",\"code\":413,\"limit_bytes\":".to_owned();
    let d = decimal(limit as u64);
    body.append(d.as_str());
    body.append("}");
    Response::with_text(413, "application/json", body.as_str())
}

} // verus!
