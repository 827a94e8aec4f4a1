//! Security headers: setting, overriding or appending a single header, and
//! the suite of security headers added to every response without ever
//! replacing a header the handler already set.

use vstd::prelude::*;
use vstd::string::*;
use vstd::utf8::*;
use crate::headers::{
    header_append_bytes, header_insert_bytes, header_insert_if_absent, header_keys_len,
    header_values, is_header_name_char, is_valid_header_value,
    max_header_names, others_unchanged,
    valid_header_bytes, valid_header_name, valid_header_value,
};
use crate::text::{decimal, decimal_spec};
use crate::headers::{normalize_header_name, normalized_name, valid_name_input};
use crate::headers::{is_header_value_char, lemma_decimal_header_value};

verus! {

/// How a header is set.
#[derive(Debug, Clone, Copy, PartialEq, Eq, Structural)]
pub enum HeaderMode {
    /// Only when the header is not there yet.
    IfNotPresent,
    /// Replacing whatever is there.
    Overriding,
    /// In addition to whatever is there.
    Appending,
}

/// The values under a header after setting `value` in `mode`.
pub open spec fn values_after_mode(before: Seq<Seq<u8>>, value: Seq<u8>, mode: HeaderMode) -> Seq<
    Seq<u8>,
> {
    match mode {
        HeaderMode::IfNotPresent => if before.len() > 0 {
            before
        } else {
            seq![value]
        },
        HeaderMode::Overriding => seq![value],
        HeaderMode::Appending => before.push(value),
    }
}

/// A header set on every response (or request) in one of the three modes.
#[derive(Debug)]
pub struct SetHeader {
    name: String,
    value: Vec<u8>,
    mode: HeaderMode,
}

impl Clone for SetHeader {
    fn clone(&self) -> (r: SetHeader)
        ensures
            r.name_view() == self.name_view(),
            r.value_view() == self.value_view(),
            r.mode_view() == self.mode_view(),
    {
        proof {
            use_type_invariant(self);
        }
        let value = self.value.clone();
        proof {
            assert(value@ =~= self.value@);
        }
        SetHeader { name: self.name.clone(), value, mode: self.mode }
    }
}

impl SetHeader {
    /// The header's name (lowercase), value and mode are valid.
    #[verifier::type_invariant]
    spec fn well_formed(self) -> bool {
        valid_header_name(self.name@) && valid_header_bytes(self.value@)
    }

    pub closed spec fn name_view(&self) -> Seq<char> {
        self.name@
    }

    pub closed spec fn value_view(&self) -> Seq<u8> {
        self.value@
    }

    pub closed spec fn mode_view(&self) -> HeaderMode {
        self.mode
    }

    /// The header `name: value` in `mode`; the name is lowercased as
    /// `HeaderName` does.
    pub fn new(name: &str, value: &str, mode: HeaderMode) -> (r: SetHeader)
        requires
            valid_name_input(name@),
            valid_header_value(value@),
        ensures
            r.name_view() == normalized_name(name@),
            r.value_view() == encode_utf8(value@),
            r.mode_view() == mode,
    {
        let n = normalize_header_name(name);
        proof {
            crate::headers::lemma_value_text_bytes(value@);
        }
        SetHeader { name: n, value: vstd::slice::slice_to_vec(value.as_bytes()), mode }
    }

    /// Set the header in a header map, as the mode says.
    pub fn apply(&self, headers: &mut http::HeaderMap)
        requires
            header_keys_len(*old(headers)) < max_header_names(),
        ensures
            header_values(*final(headers), self.name_view()) == values_after_mode(
                header_values(*old(headers), self.name_view()),
                self.value_view(),
                self.mode_view(),
            ),
            others_unchanged(*old(headers), *final(headers), self.name_view()),
    {
        proof {
            use_type_invariant(self);
        }
        match self.mode {
            HeaderMode::IfNotPresent => {
                if header_values_present(headers, self.name.as_str()) {
                } else {
                    header_insert_bytes(headers, self.name.as_str(), self.value.as_slice());
                }
            },
            HeaderMode::Overriding => {
                header_insert_bytes(headers, self.name.as_str(), self.value.as_slice());
            },
            HeaderMode::Appending => {
                header_append_bytes(headers, self.name.as_str(), self.value.as_slice());
            },
        }
    }
}

fn header_values_present(headers: &http::HeaderMap, name: &str) -> (r: bool)
    requires
        valid_header_name(name@),
    ensures
        r == (header_values(*headers, name@).len() > 0),
{
    crate::headers::header_contains(headers, name)
}

/// Sets a header on every response.
#[derive(Debug, Clone)]
pub struct SetResponseHeaderLayer {
    header: SetHeader,
}

impl SetResponseHeaderLayer {
    pub closed spec fn header_view(&self) -> SetHeader {
        self.header
    }

    /// Set the header only when the response does not have it.
    pub fn if_not_present(name: &str, value: &str) -> (r: SetResponseHeaderLayer)
        requires
            valid_name_input(name@),
            valid_header_value(value@),
        ensures
            r.header_view().name_view() == normalized_name(name@),
            r.header_view().value_view() == encode_utf8(value@),
            r.header_view().mode_view() == HeaderMode::IfNotPresent,
    {
        SetResponseHeaderLayer { header: SetHeader::new(name, value, HeaderMode::IfNotPresent) }
    }

    /// Always set the header, replacing what is there.
    pub fn overriding(name: &str, value: &str) -> (r: SetResponseHeaderLayer)
        requires
            valid_name_input(name@),
            valid_header_value(value@),
        ensures
            r.header_view().name_view() == normalized_name(name@),
            r.header_view().value_view() == encode_utf8(value@),
            r.header_view().mode_view() == HeaderMode::Overriding,
    {
        SetResponseHeaderLayer { header: SetHeader::new(name, value, HeaderMode::Overriding) }
    }

    /// Add the value to whatever the response has under the name.
    pub fn appending(name: &str, value: &str) -> (r: SetResponseHeaderLayer)
        requires
            valid_name_input(name@),
            valid_header_value(value@),
        ensures
            r.header_view().name_view() == normalized_name(name@),
            r.header_view().value_view() == encode_utf8(value@),
            r.header_view().mode_view() == HeaderMode::Appending,
    {
        SetResponseHeaderLayer { header: SetHeader::new(name, value, HeaderMode::Appending) }
    }

    /// The header this layer sets.
    pub fn header(&self) -> (r: &SetHeader)
        ensures
            *r == self.header_view(),
    {
        &self.header
    }
}

/// Sets a header on every request.
#[derive(Debug, Clone)]
pub struct SetRequestHeaderLayer {
    header: SetHeader,
}

impl SetRequestHeaderLayer {
    pub closed spec fn header_view(&self) -> SetHeader {
        self.header
    }

    /// Set the request header only when the request does not have it.
    pub fn if_not_present(name: &str, value: &str) -> (r: SetRequestHeaderLayer)
        requires
            valid_name_input(name@),
            valid_header_value(value@),
        ensures
            r.header_view().name_view() == normalized_name(name@),
            r.header_view().value_view() == encode_utf8(value@),
            r.header_view().mode_view() == HeaderMode::IfNotPresent,
    {
        SetRequestHeaderLayer { header: SetHeader::new(name, value, HeaderMode::IfNotPresent) }
    }

    /// Always set the request header, replacing what is there.
    pub fn overriding(name: &str, value: &str) -> (r: SetRequestHeaderLayer)
        requires
            valid_name_input(name@),
            valid_header_value(value@),
        ensures
            r.header_view().name_view() == normalized_name(name@),
            r.header_view().value_view() == encode_utf8(value@),
            r.header_view().mode_view() == HeaderMode::Overriding,
    {
        SetRequestHeaderLayer { header: SetHeader::new(name, value, HeaderMode::Overriding) }
    }

    /// The header this layer sets.
    pub fn header(&self) -> (r: &SetHeader)
        ensures
            *r == self.header_view(),
    {
        &self.header
    }
}

/// Header names whose values are to be redacted in logs.
#[derive(Debug, Clone)]
pub struct SensitiveHeaders(pub Vec<String>);

/// Marks headers as sensitive; the requests and responses are unchanged.
#[derive(Debug, Clone)]
pub struct SensitiveHeadersLayer {
    headers: Vec<String>,
}

impl SensitiveHeadersLayer {
    pub closed spec fn headers_view(&self) -> Seq<Seq<char>> {
        crate::text::strings_view(self.headers@)
    }

    /// Mark these headers as sensitive.
    pub fn new(headers: Vec<String>) -> (r: SensitiveHeadersLayer)
        ensures
            r.headers_view() == crate::text::strings_view(headers@),
    {
        SensitiveHeadersLayer { headers }
    }

    /// The marker a request carries.
    pub fn marker(&self) -> (r: SensitiveHeaders)
        ensures
            crate::text::strings_view(r.0@) == self.headers_view(),
    {
        let mut v: Vec<String> = Vec::new();
        let mut i: usize = 0;
        while i < self.headers.len()
            invariant
                i <= self.headers@.len(),
                crate::text::strings_view(v@) == crate::text::strings_view(self.headers@).take(
                    i as int,
                ),
            decreases self.headers@.len() - i,
        {
            let ghost before = v@;
            let s = self.headers[i].clone();
            v.push(s);
            proof {
                assert(crate::text::strings_view(v@) =~= crate::text::strings_view(before).push(
                    self.headers@[i as int]@,
                ));
                assert(crate::text::strings_view(self.headers@).take(i + 1) =~= crate::text::strings_view(
                    self.headers@,
                ).take(i as int).push(self.headers@[i as int]@));
            }
            i = i + 1;
        }
        proof {
            assert(crate::text::strings_view(self.headers@).take(self.headers@.len() as int)
                =~= crate::text::strings_view(self.headers@));
        }
        SensitiveHeaders(v)
    }
}

/// The default content security policy.
pub open spec fn default_csp() -> Seq<char> {
    "default-src 'self'; script-src 'self'; style-src 'self' 'unsafe-inline'; img-src 'self' data:; font-src 'self'; connect-src 'self'; frame-ancestors 'none'"@
}

/// The settings of the security header suite.
pub struct SecuritySettings {
    pub csp: Option<Seq<char>>,
    pub hsts_max_age: u64,
    pub frame_options: Seq<char>,
}

/// Adds the OWASP-recommended security headers to every response.
#[derive(Debug, Clone)]
pub struct SecurityHeadersLayer {
    csp: Option<String>,
    hsts_max_age: u64,
    frame_options: &'static str,
}

impl View for SecurityHeadersLayer {
    type V = SecuritySettings;

    closed spec fn view(&self) -> SecuritySettings {
        SecuritySettings {
            csp: match self.csp {
                Some(s) => Some(s@),
                None => None,
            },
            hsts_max_age: self.hsts_max_age,
            frame_options: self.frame_options@,
        }
    }
}

/// The `Strict-Transport-Security` text.
pub open spec fn hsts_text(max_age: u64) -> Seq<char> {
    "max-age="@ + decimal_spec(max_age as nat) + "; includeSubDomains"@
}

/// The values under a header after setting `value` only if absent (and only
/// when `value` is a valid header value).
pub open spec fn values_if_absent(before: Seq<Seq<u8>>, value: Seq<char>) -> Seq<Seq<u8>> {
    if before.len() > 0 {
        before
    } else if valid_header_value(value) {
        seq![encode_utf8(value)]
    } else {
        before
    }
}

/// One of the headers of the suite.
pub open spec fn is_security_header(n: Seq<char>) -> bool {
    ||| n == "x-frame-options"@
    ||| n == "x-content-type-options"@
    ||| n == "x-xss-protection"@
    ||| n == "strict-transport-security"@
    ||| n == "referrer-policy"@
    ||| n == "permissions-policy"@
    ||| n == "content-security-policy"@
}

/// `after` is `before` with each header of the suite added when it is absent.
pub open spec fn security_headers_added(
    c: SecuritySettings,
    before: http::HeaderMap,
    after: http::HeaderMap,
) -> bool {
    &&& header_values(after, "x-frame-options"@) == values_if_absent(
        header_values(before, "x-frame-options"@),
        c.frame_options,
    )
    &&& header_values(after, "x-content-type-options"@) == values_if_absent(
        header_values(before, "x-content-type-options"@),
        "nosniff"@,
    )
    &&& header_values(after, "x-xss-protection"@) == values_if_absent(
        header_values(before, "x-xss-protection"@),
        "1; mode=block"@,
    )
    &&& header_values(after, "strict-transport-security"@) == values_if_absent(
        header_values(before, "strict-transport-security"@),
        hsts_text(c.hsts_max_age),
    )
    &&& header_values(after, "referrer-policy"@) == values_if_absent(
        header_values(before, "referrer-policy"@),
        "strict-origin-when-cross-origin"@,
    )
    &&& header_values(after, "permissions-policy"@) == values_if_absent(
        header_values(before, "permissions-policy"@),
        "geolocation=(), microphone=(), camera=()"@,
    )
    &&& header_values(after, "content-security-policy"@) == (match c.csp {
        Some(p) => values_if_absent(header_values(before, "content-security-policy"@), p),
        None => header_values(before, "content-security-policy"@),
    })
    &&& forall|n: Seq<char>| !is_security_header(n) ==> #[trigger] header_values(after, n)
        == header_values(before, n)
}

proof fn lemma_security_names()
    ensures
        valid_header_name("x-frame-options"@),
        valid_header_name("x-content-type-options"@),
        valid_header_name("x-xss-protection"@),
        valid_header_name("strict-transport-security"@),
        valid_header_name("referrer-policy"@),
        valid_header_name("permissions-policy"@),
        valid_header_name("content-security-policy"@),
        "x-frame-options"@.len() == 15,
        "x-content-type-options"@.len() == 22,
        "x-xss-protection"@.len() == 16,
        "strict-transport-security"@.len() == 25,
        "referrer-policy"@.len() == 15,
        "permissions-policy"@.len() == 18,
        "content-security-policy"@.len() == 23,
        "x-frame-options"@ != "referrer-policy"@,
{
    reveal_strlit("x-frame-options");
    reveal_strlit("x-content-type-options");
    reveal_strlit("x-xss-protection");
    reveal_strlit("strict-transport-security");
    reveal_strlit("referrer-policy");
    reveal_strlit("permissions-policy");
    reveal_strlit("content-security-policy");
    assert("x-frame-options"@[0] != "referrer-policy"@[0]);
    let a = "x-frame-options"@;
    assert forall|i: int| 0 <= i < a.len() implies #[trigger] is_header_name_char(a[i]) by {}
    let a = "x-content-type-options"@;
    assert forall|i: int| 0 <= i < a.len() implies #[trigger] is_header_name_char(a[i]) by {}
    let a = "x-xss-protection"@;
    assert forall|i: int| 0 <= i < a.len() implies #[trigger] is_header_name_char(a[i]) by {}
    let a = "strict-transport-security"@;
    assert forall|i: int| 0 <= i < a.len() implies #[trigger] is_header_name_char(a[i]) by {}
    let a = "referrer-policy"@;
    assert forall|i: int| 0 <= i < a.len() implies #[trigger] is_header_name_char(a[i]) by {}
    let a = "permissions-policy"@;
    assert forall|i: int| 0 <= i < a.len() implies #[trigger] is_header_name_char(a[i]) by {}
    let a = "content-security-policy"@;
    assert forall|i: int| 0 <= i < a.len() implies #[trigger] is_header_name_char(a[i]) by {}
}

/// Store `value` under `name` only when the name holds nothing and the value
/// is a valid header value.
fn set_if_absent(headers: &mut http::HeaderMap, name: &str, value: &str)
    requires
        valid_header_name(name@),
        header_keys_len(*old(headers)) < max_header_names(),
    ensures
        header_values(*final(headers), name@) == values_if_absent(
            header_values(*old(headers), name@),
            value@,
        ),
        others_unchanged(*old(headers), *final(headers), name@),
        header_keys_len(*final(headers)) <= header_keys_len(*old(headers)) + 1,
{
    if is_valid_header_value(value) {
        header_insert_if_absent(headers, name, value);
    }
}

impl Default for SecurityHeadersLayer {
    fn default() -> (r: SecurityHeadersLayer)
        ensures
            r@.csp == Some(default_csp()),
            r@.hsts_max_age == 31536000,
            r@.frame_options == "DENY"@,
    {
        SecurityHeadersLayer {
            csp: Some("default-src 'self'; script-src 'self'; style-src 'self' 'unsafe-inline'; img-src 'self' data:; font-src 'self'; connect-src 'self'; frame-ancestors 'none'".to_owned()),
            hsts_max_age: 31536000,
            frame_options: "DENY",
        }
    }
}

impl SecurityHeadersLayer {
    /// The recommended defaults: a basic content security policy, HSTS for a
    /// year, `X-Frame-Options: DENY`.
    pub fn new() -> (r: SecurityHeadersLayer)
        ensures
            r@.csp == Some(default_csp()),
            r@.hsts_max_age == 31536000,
            r@.frame_options == "DENY"@,
    {
        SecurityHeadersLayer::default()
    }

    /// Use this content security policy.
    pub fn content_security_policy(self, csp: String) -> (r: SecurityHeadersLayer)
        ensures
            r@ == (SecuritySettings { csp: Some(csp@), ..self@ }),
    {
        SecurityHeadersLayer { csp: Some(csp), ..self }
    }

    /// Send no content security policy.
    pub fn no_content_security_policy(self) -> (r: SecurityHeadersLayer)
        ensures
            r@ == (SecuritySettings { csp: None, ..self@ }),
    {
        SecurityHeadersLayer { csp: None, ..self }
    }

    /// The HSTS max-age in seconds.
    pub fn hsts_max_age(self, secs: u64) -> (r: SecurityHeadersLayer)
        ensures
            r@ == (SecuritySettings { hsts_max_age: secs, ..self@ }),
    {
        SecurityHeadersLayer { hsts_max_age: secs, ..self }
    }

    /// The `X-Frame-Options` value (`DENY` or `SAMEORIGIN`).
    pub fn frame_options(self, value: &'static str) -> (r: SecurityHeadersLayer)
        ensures
            r@ == (SecuritySettings { frame_options: value@, ..self@ }),
    {
        SecurityHeadersLayer { frame_options: value, ..self }
    }

    /// Add each header of the suite that the response does not have yet.
    pub fn apply(&self, headers: &mut http::HeaderMap)
        requires
            header_keys_len(*old(headers)) + 7 <= max_header_names(),
        ensures
            security_headers_added(self@, *old(headers), *final(headers)),
    {
        proof {
            lemma_security_names();
        }
        let ghost h0 = *headers;
        set_if_absent(headers, "x-frame-options", self.frame_options);
        set_if_absent(headers, "x-content-type-options", "nosniff");
        set_if_absent(headers, "x-xss-protection", "1; mode=block");
        let mut hsts = "max-age=".to_owned();
        let d = decimal(self.hsts_max_age);
        hsts.append(d.as_str());
        hsts.append("; includeSubDomains");
        set_if_absent(headers, "strict-transport-security", hsts.as_str());
        set_if_absent(headers, "referrer-policy", "strict-origin-when-cross-origin");
        set_if_absent(headers, "permissions-policy", "geolocation=(), microphone=(), camera=()");
        match &self.csp {
            Some(csp) => set_if_absent(headers, "content-security-policy", csp.as_str()),
            None => {},
        }
        proof {
            assert forall|n: Seq<char>| !is_security_header(n) implies #[trigger] header_values(
                *headers,
                n,
            ) == header_values(h0, n) by {}
        }
    }

    /// Wrap a service.
    pub fn layer<S>(&self, inner: S) -> (r: SecurityHeadersService<S>)
        ensures
            r.inner_view() == inner,
            r.config_view()@ == self@,
    {
        let config = SecurityHeadersLayer {
            csp: match &self.csp {
                Some(c) => Some(c.clone()),
                None => None,
            },
            hsts_max_age: self.hsts_max_age,
            frame_options: self.frame_options,
        };
        SecurityHeadersService { inner, config }
    }
}

/// The security header suite wrapped around a service.
pub struct SecurityHeadersService<S> {
    inner: S,
    config: SecurityHeadersLayer,
}

impl<S> SecurityHeadersService<S> {
    pub closed spec fn inner_view(&self) -> S {
        self.inner
    }

    pub closed spec fn config_view(&self) -> SecurityHeadersLayer {
        self.config
    }

    /// The wrapped service.
    pub fn inner(&self) -> (r: &S)
        ensures
            *r == self.inner_view(),
    {
        &self.inner
    }

    /// The settings.
    pub fn config(&self) -> (r: &SecurityHeadersLayer)
        ensures
            *r == self.config_view(),
    {
        &self.config
    }
}

/// The suite never replaces a header the response already has: every header
/// present before is unchanged after.
pub proof fn lemma_security_headers_keep_existing(
    c: SecuritySettings,
    before: http::HeaderMap,
    after: http::HeaderMap,
    n: Seq<char>,
)
    requires
        security_headers_added(c, before, after),
        header_values(before, n).len() > 0,
    ensures
        header_values(after, n) == header_values(before, n),
{
}

/// The `Strict-Transport-Security` text is a valid header value for every max-age.
pub proof fn lemma_hsts_text_valid(max_age: u64)
    ensures
        valid_header_value(hsts_text(max_age)),
{
    reveal_strlit("max-age=");
    reveal_strlit("; includeSubDomains");
    lemma_decimal_header_value(max_age as nat);
    let a = "max-age="@;
    let d = decimal_spec(max_age as nat);
    let b = "; includeSubDomains"@;
    let t = hsts_text(max_age);
    assert forall|i: int| 0 <= i < t.len() implies #[trigger] is_header_value_char(t[i]) by {
        if i < a.len() {
            assert(t[i] == a[i]);
        } else if i < a.len() + d.len() {
            assert(t[i] == d[i - a.len()]);
        } else {
            assert(t[i] == b[i - a.len() - d.len()]);
        }
    }
}

/// A response without `Strict-Transport-Security` gets exactly
/// `max-age=<secs>; includeSubDomains`, for the configured seconds; and with
/// no policy configured, `Content-Security-Policy` is left as it was.
pub proof fn lemma_security_headers_hsts_and_csp(
    c: SecuritySettings,
    before: http::HeaderMap,
    after: http::HeaderMap,
)
    requires
        security_headers_added(c, before, after),
    ensures
        header_values(before, "strict-transport-security"@).len() == 0 ==> header_values(
            after,
            "strict-transport-security"@,
        ) == seq![encode_utf8(hsts_text(c.hsts_max_age))],
        c.csp is None ==> header_values(after, "content-security-policy"@) == header_values(
            before,
            "content-security-policy"@,
        ),
{
    lemma_hsts_text_valid(c.hsts_max_age);
}

} // verus!
