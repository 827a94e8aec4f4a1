//! Cross-origin resource sharing: which origins, methods and headers a
//! server allows, the answer to a preflight request, and the headers added
//! to the response of an actual cross-origin request.
//!
//! Origins are byte strings (header values); header names are lowercase
//! text. When credentials are allowed, the wildcard origin is never sent:
//! the request's own origin is reflected instead.

use vstd::prelude::*;
use crate::duration::TimeSpan;
use vstd::slice::slice_to_vec;
use vstd::string::*;
use vstd::utf8::*;
use crate::headers::valid_header_name;
use crate::headers::{
    header_append, header_contains, header_entries, header_first, header_get, header_insert,
    header_insert_bytes, header_keys_len, header_values, is_header_value_char,
    is_valid_header_bytes, is_valid_header_value, lemma_decimal_header_value,
    lemma_value_text_bytes, max_header_names, no_header_entries,
    valid_header_bytes, valid_header_value,
};
use crate::method_filter::{method_name, Method};
use crate::response::Response;
use crate::text::{contains_spec, decimal, decimal_spec, join, join_spec, strings_view};

verus! {

/// Which request origins are allowed.
#[derive(Debug, Clone)]
pub enum AllowOrigin {
    /// Every origin; answered with `*` unless credentials are allowed.
    Any,
    /// Exactly these origins.
    List(Vec<Vec<u8>>),
    /// Every origin, reflected verbatim.
    Mirror,
}

/// Which methods a preflight answer allows.
#[derive(Debug, Clone)]
pub enum AllowMethods {
    Any,
    List(Vec<Method>),
}

/// Which request headers a preflight answer allows.
#[derive(Debug, Clone)]
pub enum AllowHeaders {
    /// `*`.
    Any,
    /// Whatever the preflight's `Access-Control-Request-Headers` asked for.
    Mirror,
    List(Vec<String>),
}

/// The origin policy, as values.
pub enum OriginPolicy {
    Any,
    List(Seq<Seq<u8>>),
    Mirror,
}

/// The method policy, as values.
pub enum MethodsPolicy {
    Any,
    List(Seq<Method>),
}

/// The request-header policy, as values.
pub enum HeadersPolicy {
    Any,
    Mirror,
    List(Seq<Seq<char>>),
}

/// A CORS configuration, as values.
pub struct CorsView {
    pub origins: OriginPolicy,
    pub methods: MethodsPolicy,
    pub headers: HeadersPolicy,
    pub expose: Seq<Seq<char>>,
    pub credentials: bool,
    pub max_age: Option<u64>,
}

/// The CORS configuration a server applies.
#[derive(Debug, Clone)]
pub struct CorsLayer {
    allow_origins: AllowOrigin,
    allow_methods: AllowMethods,
    allow_headers: AllowHeaders,
    expose_headers: Vec<String>,
    allow_credentials: bool,
    max_age_secs: Option<u64>,
}

pub open spec fn byte_strings_view(v: Seq<Vec<u8>>) -> Seq<Seq<u8>> {
    v.map_values(|x: Vec<u8>| x@)
}

impl View for CorsLayer {
    type V = CorsView;

    closed spec fn view(&self) -> CorsView {
        CorsView {
            origins: match self.allow_origins {
                AllowOrigin::Any => OriginPolicy::Any,
                AllowOrigin::List(l) => OriginPolicy::List(byte_strings_view(l@)),
                AllowOrigin::Mirror => OriginPolicy::Mirror,
            },
            methods: match self.allow_methods {
                AllowMethods::Any => MethodsPolicy::Any,
                AllowMethods::List(l) => MethodsPolicy::List(l@),
            },
            headers: match self.allow_headers {
                AllowHeaders::Any => HeadersPolicy::Any,
                AllowHeaders::Mirror => HeadersPolicy::Mirror,
                AllowHeaders::List(l) => HeadersPolicy::List(strings_view(l@)),
            },
            expose: strings_view(self.expose_headers@),
            credentials: self.allow_credentials,
            max_age: self.max_age_secs,
        }
    }
}

/// The wildcard origin `*`.
pub open spec fn wildcard() -> Seq<u8> {
    seq![42u8]
}

/// The `Access-Control-Allow-Origin` value for a request origin, or `None`
/// when the origin is not allowed.
pub open spec fn resolved_origin(c: CorsView, origin: Seq<u8>) -> Option<Seq<u8>> {
    match c.origins {
        OriginPolicy::Any => if !c.credentials {
            Some(wildcard())
        } else {
            Some(origin)
        },
        OriginPolicy::Mirror => Some(origin),
        OriginPolicy::List(l) => if l.contains(origin) {
            Some(origin)
        } else {
            None
        },
    }
}

/// The allow-origin value actually sent: the resolved one, when it is a
/// storable header value (an origin taken from a parsed request always is).
pub open spec fn sent_origin(c: CorsView, origin: Seq<u8>) -> Option<Seq<u8>> {
    match resolved_origin(c, origin) {
        Some(v) => if valid_header_bytes(v) {
            Some(v)
        } else {
            None
        },
        None => None,
    }
}

/// The methods of a list, by name.
pub open spec fn method_names(ms: Seq<Method>) -> Seq<Seq<char>> {
    ms.map_values(|m: Method| method_name(m))
}

/// The `Access-Control-Allow-Methods` text: the listed names joined by `, `
/// (or `GET` when that is not a valid header value).
pub open spec fn methods_text(c: CorsView) -> Seq<char> {
    match c.methods {
        MethodsPolicy::Any => "GET, HEAD, POST, PUT, DELETE, PATCH, OPTIONS"@,
        MethodsPolicy::List(ms) => if valid_header_value(join_spec(method_names(ms), ", "@)) {
            join_spec(method_names(ms), ", "@)
        } else {
            "GET"@
        },
    }
}

/// The `Access-Control-Allow-Headers` value of a preflight answer, if any.
pub open spec fn allow_headers_value(c: CorsView, req: http::HeaderMap) -> Option<Seq<u8>> {
    match c.headers {
        HeadersPolicy::Any => Some(encode_utf8("*"@)),
        HeadersPolicy::Mirror => match header_first(req, "access-control-request-headers"@) {
            Some(v) => if valid_header_bytes(v) {
                Some(v)
            } else {
                None
            },
            None => None,
        },
        HeadersPolicy::List(hs) => if hs.len() == 0 {
            None
        } else if valid_header_value(join_spec(hs, ", "@)) {
            Some(encode_utf8(join_spec(hs, ", "@)))
        } else {
            None
        },
    }
}

/// The `Access-Control-Expose-Headers` text, if one is sent.
pub open spec fn expose_text(c: CorsView) -> Option<Seq<char>> {
    if c.expose.len() > 0 && valid_header_value(join_spec(c.expose, ", "@)) {
        Some(join_spec(c.expose, ", "@))
    } else {
        None
    }
}

/// The answer differs by origin, so `Vary: origin` is sent.
pub open spec fn varies_by_origin(c: CorsView) -> bool {
    !(c.origins is Any) || c.credentials
}

/// A header that holds `v` when it is `Some`, nothing otherwise.
pub open spec fn optional_value(v: Option<Seq<u8>>) -> Seq<Seq<u8>> {
    match v {
        Some(x) => seq![x],
        None => Seq::empty(),
    }
}

/// One of the headers a preflight answer may carry.
pub open spec fn is_preflight_header(n: Seq<char>) -> bool {
    ||| n == "access-control-allow-origin"@
    ||| n == "access-control-allow-methods"@
    ||| n == "access-control-allow-headers"@
    ||| n == "access-control-allow-credentials"@
    ||| n == "access-control-max-age"@
    ||| n == "vary"@
}

/// `resp` is the preflight answer for `origin` and the request headers `req`:
/// `204` with an empty body; with no header at all when the origin is not
/// allowed, else with exactly the CORS headers the configuration calls for.
pub open spec fn preflight_answer(
    c: CorsView,
    origin: Seq<u8>,
    req: http::HeaderMap,
    resp: Response,
) -> bool {
    &&& resp.status == 204
    &&& resp.body@.len() == 0
    &&& match sent_origin(c, origin) {
        None => header_entries(resp.headers) == no_header_entries(),
        Some(ao) => {
            &&& header_values(resp.headers, "access-control-allow-origin"@) == seq![ao]
            &&& header_values(resp.headers, "access-control-allow-methods"@) == seq![
                encode_utf8(methods_text(c)),
            ]
            &&& header_values(resp.headers, "access-control-allow-headers"@) == optional_value(
                allow_headers_value(c, req),
            )
            &&& header_values(resp.headers, "access-control-allow-credentials"@) == (if c.credentials {
                seq![encode_utf8("true"@)]
            } else {
                Seq::<Seq<u8>>::empty()
            })
            &&& header_values(resp.headers, "access-control-max-age"@) == (match c.max_age {
                Some(a) => seq![encode_utf8(decimal_spec(a as nat))],
                None => Seq::<Seq<u8>>::empty(),
            })
            &&& header_values(resp.headers, "vary"@) == (if varies_by_origin(c) {
                seq![encode_utf8("origin"@)]
            } else {
                Seq::<Seq<u8>>::empty()
            })
            &&& forall|n: Seq<char>| !is_preflight_header(n) ==> #[trigger] header_values(
                resp.headers,
                n,
            ).len() == 0
        },
    }
}

proof fn lemma_cors_names_distinct()
    ensures
        "access-control-allow-methods"@ != "access-control-allow-headers"@,
        "access-control-allow-origin"@ != "access-control-allow-methods"@,
        "access-control-allow-origin"@ != "access-control-allow-headers"@,
        "access-control-allow-credentials"@ != "access-control-allow-methods"@,
        "access-control-allow-credentials"@ != "access-control-allow-headers"@,
        "access-control-allow-credentials"@ != "access-control-allow-origin"@,
        "access-control-allow-credentials"@ != "access-control-expose-headers"@,
        "access-control-expose-headers"@ != "access-control-allow-origin"@,
        "access-control-max-age"@ != "access-control-allow-methods"@,
        "access-control-max-age"@ != "access-control-allow-headers"@,
        "access-control-max-age"@ != "access-control-allow-origin"@,
        "access-control-max-age"@ != "access-control-allow-credentials"@,
        "vary"@ != "access-control-allow-methods"@,
        "vary"@ != "access-control-allow-headers"@,
        "vary"@ != "access-control-allow-origin"@,
        "vary"@ != "access-control-allow-credentials"@,
        "vary"@ != "access-control-max-age"@,
        "vary"@ != "access-control-expose-headers"@,
{
    reveal_strlit("access-control-allow-origin");
    reveal_strlit("access-control-allow-methods");
    reveal_strlit("access-control-allow-headers");
    reveal_strlit("access-control-allow-credentials");
    reveal_strlit("access-control-expose-headers");
    reveal_strlit("access-control-max-age");
    reveal_strlit("vary");
    assert("access-control-allow-origin"@.len() == 27);
    assert("access-control-allow-methods"@.len() == 28);
    assert("access-control-allow-headers"@.len() == 28);
    assert("access-control-allow-credentials"@.len() == 32);
    assert("access-control-expose-headers"@.len() == 29);
    assert("access-control-max-age"@.len() == 22);
    assert("vary"@.len() == 4);
    assert("access-control-allow-methods"@[21] != "access-control-allow-headers"@[21]);
}

/// One of the headers added to the response of an actual cross-origin request.
pub open spec fn is_response_cors_header(n: Seq<char>) -> bool {
    ||| n == "access-control-allow-origin"@
    ||| n == "access-control-allow-credentials"@
    ||| n == "access-control-expose-headers"@
    ||| n == "vary"@
}

/// `after` is the response header map `before` with the CORS headers for
/// `origin` added: unchanged when the origin is not allowed; otherwise with
/// the allow-origin value set, the credentials and expose headers set when
/// configured, and `origin` appended to `Vary` when the answer varies by origin.
pub open spec fn cors_headers_applied(
    c: CorsView,
    origin: Seq<u8>,
    before: http::HeaderMap,
    after: http::HeaderMap,
) -> bool {
    match sent_origin(c, origin) {
        None => after == before,
        Some(ao) => {
            &&& header_values(after, "access-control-allow-origin"@) == seq![ao]
            &&& header_values(after, "access-control-allow-credentials"@) == (if c.credentials {
                seq![encode_utf8("true"@)]
            } else {
                header_values(before, "access-control-allow-credentials"@)
            })
            &&& header_values(after, "access-control-expose-headers"@) == (match expose_text(c) {
                Some(t) => seq![encode_utf8(t)],
                None => header_values(before, "access-control-expose-headers"@),
            })
            &&& header_values(after, "vary"@) == (if varies_by_origin(c) {
                header_values(before, "vary"@).push(encode_utf8("origin"@))
            } else {
                header_values(before, "vary"@)
            })
            &&& forall|n: Seq<char>| !is_response_cors_header(n) ==> #[trigger] header_values(after, n)
                == header_values(before, n)
        },
    }
}

/// What a CORS-enabled server does with a request.
pub enum CorsDecision {
    /// No `Origin` header: not a CORS request; hand it on unchanged.
    PassThrough,
    /// A preflight: answer it with this response, without calling the handler.
    Preflight(Response),
    /// An actual cross-origin request from this origin: call the handler, then
    /// add the CORS headers to its response.
    Actual(Vec<u8>),
}

impl CorsLayer {
    /// No allowed origin; `GET, POST, PUT, DELETE, PATCH`; no allowed
    /// headers; no credentials; preflight answers cached for an hour.
    pub fn new() -> (r: CorsLayer)
        ensures
            r@.origins == OriginPolicy::List(Seq::empty()),
            r@.methods == MethodsPolicy::List(
                seq![Method::Get, Method::Post, Method::Put, Method::Delete, Method::Patch],
            ),
            r@.headers == HeadersPolicy::List(Seq::empty()),
            r@.expose == Seq::<Seq<char>>::empty(),
            !r@.credentials,
            r@.max_age == Some(3600u64),
    {
        let r = CorsLayer {
            allow_origins: AllowOrigin::List(Vec::new()),
            allow_methods: AllowMethods::List(
                vec![Method::Get, Method::Post, Method::Put, Method::Delete, Method::Patch],
            ),
            allow_headers: AllowHeaders::List(Vec::new()),
            expose_headers: Vec::new(),
            allow_credentials: false,
            max_age_secs: Some(3600),
        };
        proof {
            assert(byte_strings_view(Seq::<Vec<u8>>::empty()) =~= Seq::<Seq<u8>>::empty());
            assert(strings_view(Seq::<String>::empty()) =~= Seq::<Seq<char>>::empty());
        }
        r
    }

    /// Every origin (answered with `*`), method and header; no credentials;
    /// preflight answers cached for a day.
    pub fn permissive() -> (r: CorsLayer)
        ensures
            r@.origins == OriginPolicy::Any,
            r@.methods == MethodsPolicy::Any,
            r@.headers == HeadersPolicy::Any,
            r@.expose == Seq::<Seq<char>>::empty(),
            !r@.credentials,
            r@.max_age == Some(86400u64),
    {
        let r = CorsLayer {
            allow_origins: AllowOrigin::Any,
            allow_methods: AllowMethods::Any,
            allow_headers: AllowHeaders::Any,
            expose_headers: Vec::new(),
            allow_credentials: false,
            max_age_secs: Some(86400),
        };
        proof {
            assert(strings_view(Seq::<String>::empty()) =~= Seq::<Seq<char>>::empty());
        }
        r
    }

    /// Every origin, reflected, with credentials; every method; the requested
    /// headers; preflight answers cached for a day.
    pub fn very_permissive() -> (r: CorsLayer)
        ensures
            r@.origins == OriginPolicy::Mirror,
            r@.methods == MethodsPolicy::Any,
            r@.headers == HeadersPolicy::Mirror,
            r@.expose == Seq::<Seq<char>>::empty(),
            r@.credentials,
            r@.max_age == Some(86400u64),
    {
        let r = CorsLayer {
            allow_origins: AllowOrigin::Mirror,
            allow_methods: AllowMethods::Any,
            allow_headers: AllowHeaders::Mirror,
            expose_headers: Vec::new(),
            allow_credentials: true,
            max_age_secs: Some(86400),
        };
        proof {
            assert(strings_view(Seq::<String>::empty()) =~= Seq::<Seq<char>>::empty());
        }
        r
    }

    /// Allow exactly these origins.
    pub fn allow_origin(self, origins: Vec<Vec<u8>>) -> (r: CorsLayer)
        ensures
            r@ == (CorsView { origins: OriginPolicy::List(byte_strings_view(origins@)), ..self@ }),
    {
        CorsLayer { allow_origins: AllowOrigin::List(origins), ..self }
    }

    /// Allow exactly these methods.
    pub fn allow_methods(self, methods: Vec<Method>) -> (r: CorsLayer)
        ensures
            r@ == (CorsView { methods: MethodsPolicy::List(methods@), ..self@ }),
    {
        CorsLayer { allow_methods: AllowMethods::List(methods), ..self }
    }

    /// Allow exactly these request headers, given as `HeaderName` holds
    /// them (lowercase tokens).
    pub fn allow_headers(self, headers: Vec<String>) -> (r: CorsLayer)
        requires
            forall|i: int| 0 <= i < headers@.len() ==> valid_header_name(#[trigger] headers@[i]@),
        ensures
            r@ == (CorsView { headers: HeadersPolicy::List(strings_view(headers@)), ..self@ }),
    {
        CorsLayer { allow_headers: AllowHeaders::List(headers), ..self }
    }

    /// Expose these response headers to the browser, given as `HeaderName`
    /// holds them (lowercase tokens).
    pub fn expose_headers(self, headers: Vec<String>) -> (r: CorsLayer)
        requires
            forall|i: int| 0 <= i < headers@.len() ==> valid_header_name(#[trigger] headers@[i]@),
        ensures
            r@ == (CorsView { expose: strings_view(headers@), ..self@ }),
    {
        CorsLayer { expose_headers: headers, ..self }
    }

    /// Allow or deny credentials. Allowing them turns an "any origin" policy
    /// into reflecting the request's origin.
    pub fn allow_credentials(self, allow: bool) -> (r: CorsLayer)
        ensures
            r@.credentials == allow,
            r@.origins == (if allow && self@.origins is Any {
                OriginPolicy::Mirror
            } else {
                self@.origins
            }),
            r@.methods == self@.methods,
            r@.headers == self@.headers,
            r@.expose == self@.expose,
            r@.max_age == self@.max_age,
    {
        let origins = match self.allow_origins {
            AllowOrigin::Any => if allow {
                AllowOrigin::Mirror
            } else {
                AllowOrigin::Any
            },
            o => o,
        };
        CorsLayer { allow_credentials: allow, allow_origins: origins, ..self }
    }

    /// Cache preflight answers for `secs` seconds.
    pub fn max_age_secs(self, secs: u64) -> (r: CorsLayer)
        ensures
            r@ == (CorsView { max_age: Some(secs), ..self@ }),
    {
        CorsLayer { max_age_secs: Some(secs), ..self }
    }

    /// Cache preflight answers for `duration`, in whole seconds.
    pub fn max_age(self, duration: TimeSpan) -> (r: CorsLayer)
        ensures
            r@ == (CorsView { max_age: Some(duration.secs_view()), ..self@ }),
    {
        let secs = duration.as_secs();
        self.max_age_secs(secs)
    }

    /// The allow-origin value for a request origin, or `None` when it is not allowed.
    pub fn resolved_origin(&self, origin: &[u8]) -> (r: Option<Vec<u8>>)
        ensures
            match r {
                Some(v) => sent_origin(self@, origin@) == Some(v@),
                None => sent_origin(self@, origin@) is None,
            },
    {
        let v: Vec<u8> = match &self.allow_origins {
            AllowOrigin::Any => if !self.allow_credentials {
                vec![42u8]
            } else {
                slice_to_vec(origin)
            },
            AllowOrigin::Mirror => slice_to_vec(origin),
            AllowOrigin::List(list) => {
                let mut found = false;
                let mut i: usize = 0;
                while i < list.len()
                    invariant
                        i <= list@.len(),
                        found <==> byte_strings_view(list@).take(i as int).contains(origin@),
                    decreases list@.len() - i,
                {
                    let ghost before = byte_strings_view(list@).take(i as int);
                    assert(byte_strings_view(list@).take(i + 1) =~= before.push(list@[i as int]@));
                    if bytes_equal(list[i].as_slice(), origin) {
                        found = true;
                    }
                    proof {
                        let after = byte_strings_view(list@).take(i + 1);
                        if found {
                            if !before.contains(origin@) {
                                assert(after[i as int] == origin@);
                            } else {
                                let j = choose|j: int| 0 <= j < before.len() && before[j] == origin@;
                                assert(after[j] == origin@);
                            }
                        } else {
                            assert forall|j: int| 0 <= j < after.len() implies after[j] != origin@ by {
                                if j < i {
                                    assert(before[j] == after[j]);
                                }
                            }
                        }
                    }
                    i = i + 1;
                }
                assert(byte_strings_view(list@).take(list@.len() as int) =~= byte_strings_view(list@));
                if !found {
                    return None;
                }
                slice_to_vec(origin)
            },
        };
        proof {
            assert(seq![42u8] =~= wildcard());
        }
        if is_valid_header_bytes(v.as_slice()) {
            Some(v)
        } else {
            None
        }
    }

    /// The `Access-Control-Allow-Methods` text.
    pub fn methods_header(&self) -> (r: String)
        ensures
            r@ == methods_text(self@),
            valid_header_value(r@),
    {
        match &self.allow_methods {
            AllowMethods::Any => {
                proof {
                    reveal_strlit("GET, HEAD, POST, PUT, DELETE, PATCH, OPTIONS");
                    let t = "GET, HEAD, POST, PUT, DELETE, PATCH, OPTIONS"@;
                    assert forall|i: int| 0 <= i < t.len() implies #[trigger] is_header_value_char(t[i]) by {}
                }
                "GET, HEAD, POST, PUT, DELETE, PATCH, OPTIONS".to_owned()
            },
            AllowMethods::List(ms) => {
                let mut names: Vec<String> = Vec::new();
                let mut i: usize = 0;
                while i < ms.len()
                    invariant
                        i <= ms@.len(),
                        strings_view(names@) == method_names(ms@.take(i as int)),
                    decreases ms@.len() - i,
                {
                    let ghost before = names@;
                    names.push(ms[i].as_str().to_owned());
                    assert(ms@.take(i + 1) =~= ms@.take(i as int).push(ms@[i as int]));
                    assert(strings_view(names@) =~= strings_view(before).push(method_name(ms@[i as int])));
                    assert(method_names(ms@.take(i + 1)) =~= method_names(ms@.take(i as int)).push(
                        method_name(ms@[i as int]),
                    ));
                    i = i + 1;
                }
                assert(ms@.take(ms@.len() as int) =~= ms@);
                let joined = join(&names, ", ");
                if is_valid_header_value(joined.as_str()) {
                    joined
                } else {
                    proof {
                        reveal_strlit("GET");
                        let t = "GET"@;
                        assert forall|i: int| 0 <= i < t.len() implies #[trigger] is_header_value_char(t[i]) by {}
                    }
                    "GET".to_owned()
                }
            },
        }
    }

    /// The `Access-Control-Allow-Headers` value of a preflight answer, if any.
    pub fn headers_header(&self, request_headers: &http::HeaderMap) -> (r: Option<Vec<u8>>)
        ensures
            match r {
                Some(v) => allow_headers_value(self@, *request_headers) == Some(v@),
                None => allow_headers_value(self@, *request_headers) is None,
            },
            r matches Some(v) ==> valid_header_bytes(v@),
    {
        proof {
            reveal_strlit("access-control-request-headers");
            reveal_strlit("*");
            let t = "*"@;
            assert forall|i: int| 0 <= i < t.len() implies #[trigger] is_header_value_char(t[i]) by {}
            lemma_value_text_bytes(t);
        }
        match &self.allow_headers {
            AllowHeaders::Any => {
                let v = slice_to_vec("*".as_bytes());
                Some(v)
            },
            AllowHeaders::Mirror => match header_get(request_headers, "access-control-request-headers") {
                Some(v) => if is_valid_header_bytes(v.as_slice()) {
                    Some(v)
                } else {
                    None
                },
                None => None,
            },
            AllowHeaders::List(hs) => {
                if hs.len() == 0 {
                    return None;
                }
                let joined = join(hs, ", ");
                if is_valid_header_value(joined.as_str()) {
                    proof {
                        lemma_value_text_bytes(joined@);
                    }
                    Some(slice_to_vec(joined.as_str().as_bytes()))
                } else {
                    None
                }
            },
        }
    }

    /// The answer to a preflight request from `origin` with headers `request_headers`.
    pub fn build_preflight(&self, origin: &[u8], request_headers: &http::HeaderMap) -> (r: Response)
        ensures
            preflight_answer(self@, origin@, *request_headers, r),
    {
        proof {
            reveal_strlit("access-control-allow-origin");
            reveal_strlit("access-control-allow-methods");
            reveal_strlit("access-control-allow-headers");
            reveal_strlit("access-control-allow-credentials");
            reveal_strlit("access-control-max-age");
            reveal_strlit("vary");
            reveal_strlit("true");
            reveal_strlit("origin");
            let t = "true"@;
            assert forall|i: int| 0 <= i < t.len() implies #[trigger] is_header_value_char(t[i]) by {}
            let o = "origin"@;
            assert forall|i: int| 0 <= i < o.len() implies #[trigger] is_header_value_char(o[i]) by {}
        }
        proof {
            lemma_cors_names_distinct();
        }
        let mut resp = Response::empty(204);
        let ao = match self.resolved_origin(origin) {
            Some(v) => v,
            None => return resp,
        };
        let ghost h0 = resp.headers;
        header_insert_bytes(&mut resp.headers, "access-control-allow-origin", ao.as_slice());
        let methods = self.methods_header();
        header_insert(&mut resp.headers, "access-control-allow-methods", methods.as_str());
        match self.headers_header(request_headers) {
            Some(h) => header_insert_bytes(
                &mut resp.headers,
                "access-control-allow-headers",
                h.as_slice(),
            ),
            None => {},
        }
        if self.allow_credentials {
            header_insert(&mut resp.headers, "access-control-allow-credentials", "true");
        }
        match self.max_age_secs {
            Some(age) => {
                let d = decimal(age);
                proof {
                    lemma_decimal_header_value(age as nat);
                }
                header_insert(&mut resp.headers, "access-control-max-age", d.as_str());
            },
            None => {},
        }
        let varies = match self.allow_origins {
            AllowOrigin::Any => self.allow_credentials,
            _ => true,
        };
        if varies {
            header_insert(&mut resp.headers, "vary", "origin");
        }
        proof {
            assert forall|n: Seq<char>| !is_preflight_header(n) implies #[trigger] header_values(
                resp.headers,
                n,
            ).len() == 0 by {
                assert(header_values(h0, n).len() == 0);
            }
        }
        resp
    }

    /// Add the CORS headers for a request from `origin` to a response's headers.
    pub fn apply_response_headers(&self, headers: &mut http::HeaderMap, origin: &[u8])
        requires
            header_keys_len(*old(headers)) + 4 <= max_header_names(),
        ensures
            cors_headers_applied(self@, origin@, *old(headers), *final(headers)),
    {
        proof {
            lemma_cors_names_distinct();
            reveal_strlit("access-control-allow-origin");
            reveal_strlit("access-control-allow-credentials");
            reveal_strlit("access-control-expose-headers");
            reveal_strlit("vary");
            reveal_strlit("true");
            reveal_strlit("origin");
            let t = "true"@;
            assert forall|i: int| 0 <= i < t.len() implies #[trigger] is_header_value_char(t[i]) by {}
            let o = "origin"@;
            assert forall|i: int| 0 <= i < o.len() implies #[trigger] is_header_value_char(o[i]) by {}
        }
        let ao = match self.resolved_origin(origin) {
            Some(v) => v,
            None => return ,
        };
        let ghost h0 = *headers;
        header_insert_bytes(headers, "access-control-allow-origin", ao.as_slice());
        if self.allow_credentials {
            header_insert(headers, "access-control-allow-credentials", "true");
        }
        if self.expose_headers.len() > 0 {
            let joined = join(&self.expose_headers, ", ");
            if is_valid_header_value(joined.as_str()) {
                header_insert(headers, "access-control-expose-headers", joined.as_str());
            }
        }
        let varies = match self.allow_origins {
            AllowOrigin::Any => self.allow_credentials,
            _ => true,
        };
        if varies {
            header_append(headers, "vary", "origin");
        }
        proof {
            assert forall|n: Seq<char>| !is_response_cors_header(n) implies #[trigger] header_values(
                *headers,
                n,
            ) == header_values(h0, n) by {}
        }
    }

    /// What to do with a request: pass it on when it carries no `Origin`,
    /// answer it when it is a preflight (`OPTIONS` with
    /// `Access-Control-Request-Method`), otherwise treat it as an actual
    /// cross-origin request.
    pub fn decide(&self, method: &Method, headers: &http::HeaderMap) -> (r: CorsDecision)
        ensures
            match header_first(*headers, "origin"@) {
                None => r is PassThrough,
                Some(o) => if *method is Options && header_values(
                    *headers,
                    "access-control-request-method"@,
                ).len() > 0 {
                    (r matches CorsDecision::Preflight(resp) && preflight_answer(
                        self@,
                        o,
                        *headers,
                        resp,
                    ))
                } else {
                    (r matches CorsDecision::Actual(v) && v@ == o)
                },
            },
    {
        proof {
            reveal_strlit("origin");
            reveal_strlit("access-control-request-method");
        }
        let origin = match header_get(headers, "origin") {
            Some(o) => o,
            None => return CorsDecision::PassThrough,
        };
        let is_options = match method {
            Method::Options => true,
            _ => false,
        };
        if is_options && header_contains(headers, "access-control-request-method") {
            CorsDecision::Preflight(self.build_preflight(origin.as_slice(), headers))
        } else {
            CorsDecision::Actual(origin)
        }
    }
}

/// Byte-string equality.
fn bytes_equal(a: &[u8], b: &[u8]) -> (r: bool)
    ensures
        r == (a@ == b@),
{
    if a.len() != b.len() {
        return false;
    }
    let mut i: usize = 0;
    while i < a.len()
        invariant
            a@.len() == b@.len(),
            i <= a@.len(),
            forall|k: int| 0 <= k < i ==> a@[k] == b@[k],
        decreases a@.len() - i,
    {
        if a[i] != b[i] {
            return false;
        }
        i = i + 1;
    }
    assert(a@ =~= b@);
    true
}

impl Default for CorsLayer {
    fn default() -> (r: CorsLayer)
        ensures
            r@.origins == OriginPolicy::List(Seq::empty()),
            r@.methods == MethodsPolicy::List(
                seq![Method::Get, Method::Post, Method::Put, Method::Delete, Method::Patch],
            ),
            r@.headers == HeadersPolicy::List(Seq::empty()),
            r@.expose == Seq::<Seq<char>>::empty(),
            !r@.credentials,
            r@.max_age == Some(3600u64),
    {
        CorsLayer::new()
    }
}

impl CorsLayer {
    /// Wrap a service.
    pub fn layer<S>(self, inner: S) -> (r: CorsService<S>)
        ensures
            r.inner_view() == inner,
            r.config_view() == self,
    {
        CorsService { inner, config: self }
    }
}

/// The CORS configuration wrapped around a service.
pub struct CorsService<S> {
    inner: S,
    config: CorsLayer,
}

impl<S> CorsService<S> {
    pub closed spec fn inner_view(&self) -> S {
        self.inner
    }

    pub closed spec fn config_view(&self) -> CorsLayer {
        self.config
    }

    /// The wrapped service.
    pub fn inner(&self) -> (r: &S)
        ensures
            *r == self.inner_view(),
    {
        &self.inner
    }

    /// The configuration.
    pub fn config(&self) -> (r: &CorsLayer)
        ensures
            *r == self.config_view(),
    {
        &self.config
    }
}

/// With credentials allowed, the allow-origin value sent is the request's own
/// origin: never the wildcard in place of another origin.
pub proof fn lemma_credentials_reflect_origin(c: CorsView, origin: Seq<u8>)
    requires
        c.credentials,
    ensures
        resolved_origin(c, origin) is None || resolved_origin(c, origin) == Some(origin),
        sent_origin(c, origin) is None || sent_origin(c, origin) == Some(origin),
{
}

/// A request whose origin is not allowed gets no CORS header at all: the
/// preflight answer is a bare `204`, and an actual response is left unchanged.
pub proof fn lemma_disallowed_origin_gets_nothing(
    c: CorsView,
    origin: Seq<u8>,
    req: http::HeaderMap,
    preflight: Response,
    before: http::HeaderMap,
    after: http::HeaderMap,
)
    requires
        sent_origin(c, origin) is None,
        preflight_answer(c, origin, req, preflight),
        cors_headers_applied(c, origin, before, after),
    ensures
        preflight.status == 204,
        header_entries(preflight.headers) == no_header_entries(),
        after == before,
{
}

/// Under an allow-list, an origin is answered exactly when it is on the list,
/// and then with itself.
pub proof fn lemma_allow_list(c: CorsView, list: Seq<Seq<u8>>, origin: Seq<u8>)
    requires
        c.origins == OriginPolicy::List(list),
    ensures
        resolved_origin(c, origin) == (if list.contains(origin) {
            Some(origin)
        } else {
            None::<Seq<u8>>
        }),
{
}

/// An any-origin policy with credentials allowed (what `allow_credentials(true)`
/// makes of it, every other setting kept) answers every origin that can be
/// sent as a header value with that origin itself, never the wildcard, and
/// with `Access-Control-Allow-Credentials: true`: on a preflight and on an
/// actual response alike.
pub proof fn lemma_any_origin_with_credentials(
    l: CorsView,
    origin: Seq<u8>,
    req: http::HeaderMap,
    resp: Response,
    before: http::HeaderMap,
    after: http::HeaderMap,
)
    requires
        l.origins is Any,
        valid_header_bytes(origin),
    ensures
        ({
            let c = CorsView { credentials: true, origins: OriginPolicy::Mirror, ..l };
            &&& sent_origin(c, origin) == Some(origin)
            &&& preflight_answer(c, origin, req, resp) ==> {
                &&& header_values(resp.headers, "access-control-allow-origin"@) == seq![origin]
                &&& header_values(resp.headers, "access-control-allow-credentials"@) == seq![
                    encode_utf8("true"@),
                ]
            }
            &&& cors_headers_applied(c, origin, before, after) ==> {
                &&& header_values(after, "access-control-allow-origin"@) == seq![origin]
                &&& header_values(after, "access-control-allow-credentials"@) == seq![
                    encode_utf8("true"@),
                ]
            }
        }),
{
}

/// With exposed headers configured (and their list a valid header value),
/// an actual response exposes every one of them: each configured name
/// occurs in the `Access-Control-Expose-Headers` text sent. With none
/// configured, nothing is exposed.
pub proof fn lemma_expose_lists_every_name(c: CorsView)
    ensures
        c.expose.len() == 0 ==> expose_text(c) is None,
        c.expose.len() > 0 && valid_header_value(join_spec(c.expose, ", "@)) ==> {
            &&& expose_text(c) is Some
            &&& forall|i: int|
                0 <= i < c.expose.len() ==> contains_spec(expose_text(c)->0, #[trigger] c.expose[i])
        },
{
    crate::text::lemma_join_contains(c.expose, ", "@);
}

} // verus!
