//! Response compression and request decompression: which encoding a client
//! accepts, which responses are worth compressing, and the headers that go
//! with an encoded (or decoded) body. The byte-level codecs themselves run
//! outside this library.

use vstd::prelude::*;
use vstd::string::*;
use vstd::utf8::*;
use crate::headers::{
    header_contains, header_insert, header_keys_len, header_remove, header_str, header_text,
    header_values, is_header_value_char, max_header_names, no_header_entries, header_entries,
};
use crate::response::Response;
use crate::text::{contains, contains_spec, starts_with, starts_with_spec};

verus! {

/// The compression quality level.
#[derive(Debug, Clone, Copy, PartialEq, Eq, Structural)]
pub enum CompressionLevel {
    /// Fastest compression (lowest ratio).
    Fastest,
    /// Best compression ratio (slowest).
    Best,
    /// Default balance of speed and ratio.
    Default,
}

impl Default for CompressionLevel {
    fn default() -> (r: CompressionLevel)
        ensures
            r == CompressionLevel::Default,
    {
        CompressionLevel::Default
    }
}

/// A content coding.
#[derive(Debug, Clone, Copy, PartialEq, Eq, Structural)]
pub enum Encoding {
    Gzip,
    Br,
    Zstd,
    Deflate,
}

/// The token that names an encoding in `Content-Encoding`.
pub open spec fn encoding_token(e: Encoding) -> Seq<char> {
    match e {
        Encoding::Gzip => "gzip"@,
        Encoding::Br => "br"@,
        Encoding::Zstd => "zstd"@,
        Encoding::Deflate => "deflate"@,
    }
}

impl Encoding {
    /// The `Content-Encoding` token of this encoding.
    pub fn header_value(self) -> (r: &'static str)
        ensures
            r@ == encoding_token(self),
    {
        match self {
            Encoding::Gzip => "gzip",
            Encoding::Br => "br",
            Encoding::Zstd => "zstd",
            Encoding::Deflate => "deflate",
        }
    }
}

/// What `str::to_lowercase` yields for a text (full Unicode lowercase mapping).
pub uninterp spec fn unicode_lowercase(s: Seq<char>) -> Seq<char>;

/// `str::to_lowercase`: the Unicode lowercase of `s`.
#[verifier::external_body]
fn to_lowercase(s: &str) -> (r: String)
    ensures
        r@ == unicode_lowercase(s@),
{
    s.to_lowercase()
}

/// The settings of a compression layer, as values.
pub struct CompressionSettings {
    pub gzip: bool,
    pub br: bool,
    pub zstd: bool,
    pub deflate: bool,
    pub level: CompressionLevel,
    pub min_size: usize,
}

/// Compresses response bodies in an encoding the client accepts.
#[derive(Debug, Clone)]
pub struct CompressionLayer {
    gzip: bool,
    br: bool,
    zstd: bool,
    deflate: bool,
    level: CompressionLevel,
    min_size: usize,
}

impl View for CompressionLayer {
    type V = CompressionSettings;

    closed spec fn view(&self) -> CompressionSettings {
        CompressionSettings {
            gzip: self.gzip,
            br: self.br,
            zstd: self.zstd,
            deflate: self.deflate,
            level: self.level,
            min_size: self.min_size,
        }
    }
}

/// The encoding chosen for an (already lowercased) `Accept-Encoding` text:
/// zstd, then brotli (`br` or `brotli`), then gzip, then deflate, each only
/// when enabled and named somewhere in the text.
pub open spec fn preferred_for(c: CompressionSettings, lower: Seq<char>) -> Option<Encoding> {
    if c.zstd && contains_spec(lower, "zstd"@) {
        Some(Encoding::Zstd)
    } else if c.br && (contains_spec(lower, "br"@) || contains_spec(lower, "brotli"@)) {
        Some(Encoding::Br)
    } else if c.gzip && contains_spec(lower, "gzip"@) {
        Some(Encoding::Gzip)
    } else if c.deflate && contains_spec(lower, "deflate"@) {
        Some(Encoding::Deflate)
    } else {
        None
    }
}

/// A content type worth compressing: text, JSON, XML, JavaScript, CSS,
/// WebAssembly or SVG.
pub open spec fn compressible_type(ct: Seq<char>) -> bool {
    ||| starts_with_spec(ct, "text/"@)
    ||| contains_spec(ct, "json"@)
    ||| contains_spec(ct, "xml"@)
    ||| contains_spec(ct, "javascript"@)
    ||| contains_spec(ct, "css"@)
    ||| starts_with_spec(ct, "application/wasm"@)
    ||| starts_with_spec(ct, "image/svg"@)
}

/// Text, JSON, XML, JavaScript, CSS, WebAssembly and SVG responses are
/// compressible, whatever else their content type says.
pub proof fn lemma_compressible_kinds(ct: Seq<char>)
    ensures
        starts_with_spec(ct, "text/"@) ==> compressible_type(ct),
        contains_spec(ct, "json"@) ==> compressible_type(ct),
        contains_spec(ct, "xml"@) ==> compressible_type(ct),
        contains_spec(ct, "javascript"@) ==> compressible_type(ct),
        contains_spec(ct, "css"@) ==> compressible_type(ct),
        starts_with_spec(ct, "application/wasm"@) ==> compressible_type(ct),
        starts_with_spec(ct, "image/svg"@) ==> compressible_type(ct),
{
}

/// A response whose `Content-Type` (as text) is compressible.
pub open spec fn compressible(h: http::HeaderMap) -> bool {
    match header_text(h, "content-type"@) {
        Some(ct) => compressible_type(ct),
        None => false,
    }
}

/// The `Accept-Encoding` text of a request (empty when absent or not text).
pub open spec fn accept_encoding_spec(h: http::HeaderMap) -> Seq<char> {
    match header_text(h, "accept-encoding"@) {
        Some(t) => t,
        None => Seq::empty(),
    }
}

/// The encoding a response is compressed with, if any: none when it is
/// already encoded or not compressible, else the client's preferred one.
pub open spec fn response_encoding(
    c: CompressionSettings,
    accept_encoding: Seq<char>,
    resp: http::HeaderMap,
) -> Option<Encoding> {
    if header_values(resp, "content-encoding"@).len() > 0 {
        None
    } else if !compressible(resp) {
        None
    } else {
        preferred_for(c, unicode_lowercase(accept_encoding))
    }
}

impl Default for CompressionLayer {
    fn default() -> (r: CompressionLayer)
        ensures
            r@ == (CompressionSettings {
                gzip: true,
                br: true,
                zstd: true,
                deflate: true,
                level: CompressionLevel::Default,
                min_size: 1024,
            }),
    {
        CompressionLayer {
            gzip: true,
            br: true,
            zstd: true,
            deflate: true,
            level: CompressionLevel::Default,
            min_size: 1024,
        }
    }
}

impl CompressionLayer {
    /// All encodings enabled, default level, 1024-byte minimum size.
    pub fn new() -> (r: CompressionLayer)
        ensures
            r@ == (CompressionSettings {
                gzip: true,
                br: true,
                zstd: true,
                deflate: true,
                level: CompressionLevel::Default,
                min_size: 1024,
            }),
    {
        CompressionLayer::default()
    }

    /// Enable or disable gzip.
    pub fn gzip(self, enable: bool) -> (r: CompressionLayer)
        ensures
            r@ == (CompressionSettings { gzip: enable, ..self@ }),
    {
        CompressionLayer { gzip: enable, ..self }
    }

    /// Enable or disable brotli.
    pub fn br(self, enable: bool) -> (r: CompressionLayer)
        ensures
            r@ == (CompressionSettings { br: enable, ..self@ }),
    {
        CompressionLayer { br: enable, ..self }
    }

    /// Enable or disable zstd.
    pub fn zstd(self, enable: bool) -> (r: CompressionLayer)
        ensures
            r@ == (CompressionSettings { zstd: enable, ..self@ }),
    {
        CompressionLayer { zstd: enable, ..self }
    }

    /// Enable or disable deflate.
    pub fn deflate(self, enable: bool) -> (r: CompressionLayer)
        ensures
            r@ == (CompressionSettings { deflate: enable, ..self@ }),
    {
        CompressionLayer { deflate: enable, ..self }
    }

    /// Set the compression level.
    pub fn quality(self, level: CompressionLevel) -> (r: CompressionLayer)
        ensures
            r@ == (CompressionSettings { level: level, ..self@ }),
    {
        CompressionLayer { level, ..self }
    }

    /// Bodies shorter than `bytes` are passed through uncompressed.
    pub fn min_size(self, bytes: usize) -> (r: CompressionLayer)
        ensures
            r@ == (CompressionSettings { min_size: bytes, ..self@ }),
    {
        CompressionLayer { min_size: bytes, ..self }
    }

    /// The compression level.
    pub fn level(&self) -> (r: CompressionLevel)
        ensures
            r == self@.level,
    {
        self.level
    }

    /// The encoding chosen for an `Accept-Encoding` text already in lowercase.
    pub fn preferred_encoding_lower(&self, lower: &str) -> (r: Option<Encoding>)
        ensures
            r == preferred_for(self@, lower@),
    {
        proof {
            reveal_strlit("zstd");
            reveal_strlit("br");
            reveal_strlit("brotli");
            reveal_strlit("gzip");
            reveal_strlit("deflate");
        }
        if self.zstd && contains(lower, "zstd") {
            return Some(Encoding::Zstd);
        }
        if self.br && (contains(lower, "br") || contains(lower, "brotli")) {
            return Some(Encoding::Br);
        }
        if self.gzip && contains(lower, "gzip") {
            return Some(Encoding::Gzip);
        }
        if self.deflate && contains(lower, "deflate") {
            return Some(Encoding::Deflate);
        }
        None
    }

    /// The encoding chosen for an `Accept-Encoding` text: zstd, then brotli,
    /// then gzip, then deflate, compared case-insensitively.
    pub fn preferred_encoding(&self, accept_encoding: &str) -> (r: Option<Encoding>)
        ensures
            r == preferred_for(self@, unicode_lowercase(accept_encoding@)),
    {
        let lower = to_lowercase(accept_encoding);
        self.preferred_encoding_lower(lower.as_str())
    }

    /// The encoding a response is to be compressed with, given the request's
    /// `Accept-Encoding` text: none when the response already has a
    /// `Content-Encoding` or its type is not compressible.
    pub fn response_encoding(&self, accept_encoding: &str, response_headers: &http::HeaderMap) -> (r:
        Option<Encoding>)
        ensures
            r == response_encoding(self@, accept_encoding@, *response_headers),
    {
        proof {
            reveal_strlit("content-encoding");
        }
        if header_contains(response_headers, "content-encoding") {
            return None;
        }
        if !should_compress(response_headers) {
            return None;
        }
        self.preferred_encoding(accept_encoding)
    }

    /// A body of `len` bytes is too small to be compressed.
    pub fn below_min_size(&self, len: usize) -> (r: bool)
        ensures
            r == (len < self@.min_size),
    {
        len < self.min_size
    }

    /// Wrap a service.
    pub fn layer<S>(&self, inner: S) -> (r: CompressionService<S>)
        ensures
            r.inner_view() == inner,
            r.config_view()@ == self@,
    {
        CompressionService { inner, config: self.clone_layer() }
    }

    fn clone_layer(&self) -> (r: CompressionLayer)
        ensures
            r@ == self@,
    {
        CompressionLayer { ..*self }
    }
}

/// Whether a response's content type is compressible.
pub fn should_compress(headers: &http::HeaderMap) -> (r: bool)
    ensures
        r == compressible(*headers),
{
    proof {
        reveal_strlit("content-type");
        reveal_strlit("text/");
        reveal_strlit("json");
        reveal_strlit("xml");
        reveal_strlit("javascript");
        reveal_strlit("css");
        reveal_strlit("application/wasm");
        reveal_strlit("image/svg");
    }
    let ct = match header_str(headers, "content-type") {
        Some(ct) => ct,
        None => return false,
    };
    let ct = ct.as_str();
    starts_with(ct, "text/") || contains(ct, "json") || contains(ct, "xml") || contains(
        ct,
        "javascript",
    ) || contains(ct, "css") || starts_with(ct, "application/wasm") || starts_with(
        ct,
        "image/svg",
    )
}

/// The request's `Accept-Encoding` text, empty when absent or not text.
pub fn accept_encoding(headers: &http::HeaderMap) -> (r: String)
    ensures
        r@ == accept_encoding_spec(*headers),
{
    proof {
        reveal_strlit("accept-encoding");
    }
    match header_str(headers, "accept-encoding") {
        Some(t) => t,
        None => String::new(),
    }
}

/// A small body is sent as is, with `Vary: Accept-Encoding`.
pub fn mark_uncompressed(headers: &mut http::HeaderMap)
    requires
        header_keys_len(*old(headers)) < max_header_names(),
    ensures
        header_values(*final(headers), "vary"@) == seq![encode_utf8("Accept-Encoding"@)],
        forall|n: Seq<char>| n != "vary"@ ==> #[trigger] header_values(*final(headers), n)
            == header_values(*old(headers), n),
{
    proof {
        reveal_strlit("vary");
        reveal_strlit("Accept-Encoding");
        let t = "Accept-Encoding"@;
        assert forall|i: int| 0 <= i < t.len() implies #[trigger] is_header_value_char(t[i]) by {}
    }
    header_insert(headers, "vary", "Accept-Encoding");
}

/// The headers of a compressed response: `Content-Encoding` set to the
/// encoding, `Vary: Accept-Encoding`, and no `Content-Length`.
pub open spec fn compressed_headers(
    before: http::HeaderMap,
    after: http::HeaderMap,
    e: Encoding,
) -> bool {
    &&& header_values(after, "content-encoding"@) == seq![encode_utf8(encoding_token(e))]
    &&& header_values(after, "vary"@) == seq![encode_utf8("Accept-Encoding"@)]
    &&& header_values(after, "content-length"@).len() == 0
    &&& forall|n: Seq<char>|
        n != "content-encoding"@ && n != "vary"@ && n != "content-length"@ ==> #[trigger] header_values(
            after,
            n,
        ) == header_values(before, n)
}

/// Set the headers of a compressed response; the body becomes the
/// compressed bytes, or stays the uncompressed bytes when compression failed.
pub fn finish_compressed(
    headers: &mut http::HeaderMap,
    encoding: Encoding,
    uncompressed: Vec<u8>,
    compressed: Option<Vec<u8>>,
) -> (body: Vec<u8>)
    requires
        header_keys_len(*old(headers)) + 2 <= max_header_names(),
    ensures
        compressed_headers(*old(headers), *final(headers), encoding),
        body@ == (match compressed {
            Some(c) => c@,
            None => uncompressed@,
        }),
{
    proof {
        reveal_strlit("vary");
        reveal_strlit("content-encoding");
        reveal_strlit("content-length");
        reveal_strlit("Accept-Encoding");
        reveal_strlit("gzip");
        reveal_strlit("br");
        reveal_strlit("zstd");
        reveal_strlit("deflate");
        assert("vary"@.len() == 4);
        assert("content-encoding"@.len() == 16);
        assert("content-length"@.len() == 14);
        let t = "Accept-Encoding"@;
        assert forall|i: int| 0 <= i < t.len() implies #[trigger] is_header_value_char(t[i]) by {}
        let e = encoding_token(encoding);
        assert forall|i: int| 0 <= i < e.len() implies #[trigger] is_header_value_char(e[i]) by {}
    }
    let ghost h0 = *headers;
    header_insert(headers, "content-encoding", encoding.header_value());
    header_insert(headers, "vary", "Accept-Encoding");
    header_remove(headers, "content-length");
    match compressed {
        Some(c) => c,
        None => uncompressed,
    }
}

/// The answer when the response body cannot be read for compression:
/// `500` with the text `Compression error` and no headers.
pub fn compression_error_response() -> (r: Response)
    ensures
        r.status == 500,
        header_entries(r.headers) == no_header_entries(),
        r.body@ == encode_utf8("Compression error"@),
{
    let mut r = Response::empty(500);
    r.body = vstd::slice::slice_to_vec("Compression error".as_bytes());
    r
}

/// What the compression layer sends once a response chosen for compression
/// was read (or failed to be).
pub enum CompressionOutcome {
    /// Send the response with this body (and its headers as left).
    Send(Vec<u8>),
    /// Send this response in its place.
    Answer(Response),
}

impl CompressionLayer {
    /// Finish a response chosen for compression with `encoding`: `read` is
    /// its body as read (`None` when reading failed), `compressed` what the
    /// encoder made of it (`None` when it failed; it is not looked at for a
    /// body below the minimum size, which the encoder need not be run on).
    /// A failed read is answered `500`; a body below the minimum size is sent
    /// as is, only `Vary: Accept-Encoding` added; any other is sent compressed
    /// (or as is, when the encoder failed) with the compressed headers.
    pub fn compression_outcome(
        &self,
        headers: &mut http::HeaderMap,
        encoding: Encoding,
        read: Option<Vec<u8>>,
        compressed: Option<Vec<u8>>,
    ) -> (r: CompressionOutcome)
        requires
            header_keys_len(*old(headers)) + 2 <= max_header_names(),
        ensures
            match read {
                None => {
                    &&& *final(headers) == *old(headers)
                    &&& r matches CompressionOutcome::Answer(resp) && resp.status == 500
                        && header_entries(resp.headers) == no_header_entries() && resp.body@
                        == encode_utf8("Compression error"@)
                },
                Some(b) => if b.len() < self@.min_size {
                    &&& r matches CompressionOutcome::Send(body) && body@ == b@
                    &&& header_values(*final(headers), "vary"@) == seq![encode_utf8("Accept-Encoding"@)]
                    &&& forall|n: Seq<char>|
                        n != "vary"@ ==> #[trigger] header_values(*final(headers), n)
                            == header_values(*old(headers), n)
                } else {
                    &&& compressed_headers(*old(headers), *final(headers), encoding)
                    &&& r matches CompressionOutcome::Send(body) && body@ == (match compressed {
                        Some(c) => c@,
                        None => b@,
                    })
                },
            },
    {
        match read {
            None => CompressionOutcome::Answer(compression_error_response()),
            Some(b) => {
                if self.below_min_size(b.len()) {
                    mark_uncompressed(headers);
                    CompressionOutcome::Send(b)
                } else {
                    CompressionOutcome::Send(finish_compressed(headers, encoding, b, compressed))
                }
            },
        }
    }
}

/// A compression layer wrapped around a service.
pub struct CompressionService<S> {
    inner: S,
    config: CompressionLayer,
}

impl<S> CompressionService<S> {
    pub closed spec fn inner_view(&self) -> S {
        self.inner
    }

    pub closed spec fn config_view(&self) -> CompressionLayer {
        self.config
    }

    /// The wrapped service.
    pub fn inner(&self) -> (r: &S)
        ensures
            *r == self.inner_view(),
    {
        &self.inner
    }

    /// The compression settings.
    pub fn config(&self) -> (r: &CompressionLayer)
        ensures
            *r == self.config_view(),
    {
        &self.config
    }
}

/// Decompresses request bodies according to their `Content-Encoding`.
#[derive(Debug, Clone, Copy)]
pub struct DecompressionLayer;

impl Default for DecompressionLayer {
    fn default() -> (r: DecompressionLayer) {
        DecompressionLayer
    }
}

impl DecompressionLayer {
    /// A new decompression layer.
    pub fn new() -> (r: DecompressionLayer) {
        DecompressionLayer
    }

    /// Wrap a service.
    pub fn layer<S>(&self, inner: S) -> (r: DecompressionService<S>)
        ensures
            r.inner_view() == inner,
    {
        DecompressionService { inner }
    }
}

/// A decompression layer wrapped around a service.
pub struct DecompressionService<S> {
    inner: S,
}

impl<S> DecompressionService<S> {
    pub closed spec fn inner_view(&self) -> S {
        self.inner
    }

    /// The wrapped service.
    pub fn inner(&self) -> (r: &S)
        ensures
            *r == self.inner_view(),
    {
        &self.inner
    }
}

/// The decoder for a (lowercased) `Content-Encoding` token, if it is one
/// this layer decodes.
pub open spec fn decoder_for_spec(token: Seq<char>) -> Option<Encoding> {
    if token == "gzip"@ {
        Some(Encoding::Gzip)
    } else if token == "br"@ || token == "brotli"@ {
        Some(Encoding::Br)
    } else if token == "zstd"@ {
        Some(Encoding::Zstd)
    } else if token == "deflate"@ {
        Some(Encoding::Deflate)
    } else {
        None
    }
}

/// The lowercased `Content-Encoding` text of a request, if it has one as text.
pub open spec fn request_encoding_spec(h: http::HeaderMap) -> Option<Seq<char>> {
    match header_text(h, "content-encoding"@) {
        Some(t) => Some(unicode_lowercase(t)),
        None => None,
    }
}

/// The lowercased `Content-Encoding` text of a request.
pub fn request_encoding(headers: &http::HeaderMap) -> (r: Option<String>)
    ensures
        match r {
            Some(s) => request_encoding_spec(*headers) == Some(s@),
            None => request_encoding_spec(*headers) is None,
        },
{
    proof {
        reveal_strlit("content-encoding");
    }
    match header_str(headers, "content-encoding") {
        Some(t) => Some(to_lowercase(t.as_str())),
        None => None,
    }
}

/// The decoder for a lowercased `Content-Encoding` token.
pub fn decoder_for(token: &str) -> (r: Option<Encoding>)
    ensures
        r == decoder_for_spec(token@),
{
    proof {
        reveal_strlit("gzip");
        reveal_strlit("br");
        reveal_strlit("brotli");
        reveal_strlit("zstd");
        reveal_strlit("deflate");
    }
    if crate::text::str_eq(token, "gzip") {
        Some(Encoding::Gzip)
    } else if crate::text::str_eq(token, "br") || crate::text::str_eq(token, "brotli") {
        Some(Encoding::Br)
    } else if crate::text::str_eq(token, "zstd") {
        Some(Encoding::Zstd)
    } else if crate::text::str_eq(token, "deflate") {
        Some(Encoding::Deflate)
    } else {
        None
    }
}

/// A decoded request no longer carries `Content-Encoding`.
pub fn mark_decoded(headers: &mut http::HeaderMap)
    ensures
        header_values(*final(headers), "content-encoding"@).len() == 0,
        forall|n: Seq<char>| n != "content-encoding"@ ==> #[trigger] header_values(
            *final(headers),
            n,
        ) == header_values(*old(headers), n),
{
    proof {
        reveal_strlit("content-encoding");
    }
    header_remove(headers, "content-encoding");
}

/// The answer when a compressed request body cannot be read: `400` with the
/// text `Failed to read compressed body` and no headers.
pub fn decompression_error_response() -> (r: Response)
    ensures
        r.status == 400,
        header_entries(r.headers) == no_header_entries(),
        r.body@ == encode_utf8("Failed to read compressed body"@),
{
    let mut r = Response::empty(400);
    r.body = vstd::slice::slice_to_vec("Failed to read compressed body".as_bytes());
    r
}

/// The decompression layer decodes every encoding the compression layer
/// produces: the `Content-Encoding` token written for an encoding selects
/// that same encoding's decoder.
pub proof fn lemma_decoder_for_own_tokens(e: Encoding)
    ensures
        decoder_for_spec(encoding_token(e)) == Some(e),
{
    reveal_strlit("gzip");
    reveal_strlit("br");
    reveal_strlit("brotli");
    reveal_strlit("zstd");
    reveal_strlit("deflate");
    assert("gzip"@[0] != "zstd"@[0]);
    assert("br"@.len() != "gzip"@.len());
    assert("zstd"@.len() != "br"@.len() && "zstd"@.len() != "brotli"@.len());
    assert("deflate"@.len() != "gzip"@.len() && "deflate"@.len() != "br"@.len());
    assert("deflate"@.len() != "brotli"@.len() && "deflate"@.len() != "zstd"@.len());
}

/// What the decompression layer does with a request before touching its body.
#[derive(Debug, Clone, Copy, PartialEq, Eq)]
pub enum DecompressionPlan {
    /// The request has no `Content-Encoding` text: hand it on as it came,
    /// body unread.
    Forward,
    /// Read the whole body first; then decode it with this decoder, or, for
    /// an encoding this layer does not decode (`None`), keep it as read.
    Read(Option<Encoding>),
}

/// What the decompression layer does once the body was read (or failed to be).
pub enum DecompressionOutcome {
    /// Call the handler with these body bytes (and the headers as left).
    CallInner(Vec<u8>),
    /// Answer with this response; the handler is not called.
    Answer(Response),
}

/// The plan for a request's headers.
pub open spec fn decompression_plan_spec(h: http::HeaderMap) -> DecompressionPlan {
    match request_encoding_spec(h) {
        None => DecompressionPlan::Forward,
        Some(token) => DecompressionPlan::Read(decoder_for_spec(token)),
    }
}

/// Decide, from a request's headers, whether its body is read and with
/// which decoder.
pub fn decompression_plan(headers: &http::HeaderMap) -> (r: DecompressionPlan)
    ensures
        r == decompression_plan_spec(*headers),
{
    match request_encoding(headers) {
        None => DecompressionPlan::Forward,
        Some(token) => DecompressionPlan::Read(decoder_for(token.as_str())),
    }
}

/// Finish a request whose plan was `Read(decoder)`: `read` is the body as
/// read (`None` when reading failed), `decoded` what the decoder made of it
/// (`None` when decoding failed or there was no decoder).
/// A failed read is answered `400` and the handler is not called; a body
/// that decoded goes on decoded, without `Content-Encoding`; otherwise the
/// body goes on as read, headers unchanged.
pub fn decompression_outcome(
    headers: &mut http::HeaderMap,
    decoder: Option<Encoding>,
    read: Option<Vec<u8>>,
    decoded: Option<Vec<u8>>,
) -> (r: DecompressionOutcome)
    ensures
        match read {
            None => {
                &&& *final(headers) == *old(headers)
                &&& r matches DecompressionOutcome::Answer(resp) && resp.status == 400
                    && header_entries(resp.headers) == no_header_entries() && resp.body@
                    == encode_utf8("Failed to read compressed body"@)
            },
            Some(b) => match (decoder, decoded) {
                (Some(_), Some(d)) => {
                    &&& r matches DecompressionOutcome::CallInner(body) && body@ == d@
                    &&& header_values(*final(headers), "content-encoding"@).len() == 0
                    &&& forall|n: Seq<char>|
                        n != "content-encoding"@ ==> #[trigger] header_values(*final(headers), n)
                            == header_values(*old(headers), n)
                },
                _ => {
                    &&& r matches DecompressionOutcome::CallInner(body) && body@ == b@
                    &&& *final(headers) == *old(headers)
                },
            },
        },
{
    match read {
        None => DecompressionOutcome::Answer(decompression_error_response()),
        Some(b) => match (decoder, decoded) {
            (Some(_), Some(d)) => {
                mark_decoded(headers);
                DecompressionOutcome::CallInner(d)
            },
            _ => DecompressionOutcome::CallInner(b),
        },
    }
}

/// A response that already has a `Content-Encoding`, or whose type is not
/// compressible, is never compressed, whatever the client accepts; one
/// that is gets the client's preferred enabled encoding.
pub proof fn lemma_compression_choice(
    c: CompressionSettings,
    accept_encoding: Seq<char>,
    resp: http::HeaderMap,
)
    ensures
        header_values(resp, "content-encoding"@).len() > 0 ==> response_encoding(
            c,
            accept_encoding,
            resp,
        ) is None,
        !compressible(resp) ==> response_encoding(c, accept_encoding, resp) is None,
        header_values(resp, "content-encoding"@).len() == 0 && compressible(resp)
            ==> response_encoding(c, accept_encoding, resp) == preferred_for(
            c,
            unicode_lowercase(accept_encoding),
        ),
{
}

/// An encoding is chosen only when it is enabled and the accepted text names it.
pub proof fn lemma_preferred_enabled(c: CompressionSettings, lower: Seq<char>)
    ensures
        preferred_for(c, lower) == Some(Encoding::Zstd) ==> c.zstd && contains_spec(lower, "zstd"@),
        preferred_for(c, lower) == Some(Encoding::Br) ==> c.br && (contains_spec(lower, "br"@)
            || contains_spec(lower, "brotli"@)),
        preferred_for(c, lower) == Some(Encoding::Gzip) ==> c.gzip && contains_spec(lower, "gzip"@),
        preferred_for(c, lower) == Some(Encoding::Deflate) ==> c.deflate && contains_spec(
            lower,
            "deflate"@,
        ),
{
}

} // verus!
