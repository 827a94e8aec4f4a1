//! Protection against cross-site request forgery by the double-submit
//! cookie pattern: a state-changing request passes only when its
//! `x-csrf-token` header repeats the token of its `csrf_token` cookie. Safe
//! methods always pass; a client without the cookie gets one.

use vstd::prelude::*;
use vstd::string::*;
use vstd::utf8::*;
use crate::headers::{
    header_append, header_get_all, header_keys_len, header_str, header_text, header_value_text,
    header_values, is_valid_header_value, max_header_names, valid_header_value, value_text,
};
use crate::method_filter::Method;
use crate::response::{only_headers, Response};
use crate::text::{split, split_once, split_once_spec, split_spec, str_eq, strings_view, trim, trim_spec};

verus! {

/// The name of the cookie holding the token.
pub const CSRF_COOKIE_NAME: &'static str = "csrf_token";

/// The request header that must repeat the token.
pub const CSRF_HEADER_NAME: &'static str = "x-csrf-token";

/// The form field that conventionally carries the token.
pub const CSRF_FORM_FIELD: &'static str = "csrf_token";

/// The `SameSite` attribute of a cookie.
#[derive(Debug, Clone, Copy, PartialEq, Eq, Structural)]
pub enum SameSite {
    Strict,
    Lax,
    /// `SameSite=None`: sent on cross-site requests too.
    Unrestricted,
}

/// The attribute's text.
pub open spec fn same_site_text(s: SameSite) -> Seq<char> {
    match s {
        SameSite::Strict => "Strict"@,
        SameSite::Lax => "Lax"@,
        SameSite::Unrestricted => "None"@,
    }
}

/// A hyphenated lowercase UUID text: 36 characters, hex digits and hyphens.
pub open spec fn uuid_text(s: Seq<char>) -> bool {
    &&& s.len() == 36
    &&& forall|i: int|
        0 <= i < s.len() ==> (('0' <= #[trigger] s[i] && s[i] <= '9') || ('a' <= s[i] && s[i]
            <= 'f') || s[i] == '-')
}

/// `Uuid::new_v4().to_string()`: a random version-4 UUID in its hyphenated
/// lowercase form. Only the form is stated; the value is random.
#[verifier::external_body]
pub(crate) fn random_uuid_text() -> (r: String)
    ensures
        uuid_text(r@),
{
    uuid::Uuid::new_v4().to_string()
}

/// The text `cookie::Cookie` displays for a cookie `name=value` whose
/// `HttpOnly`, `Secure`, `SameSite` and path are set and whose other
/// attributes are unset: `name=value`, then `; HttpOnly` when `http_only`,
/// then `; SameSite=..`, then `; Secure` when `secure`, then `; Path=..`.
pub open spec fn cookie_display_text(
    name: Seq<char>,
    value: Seq<char>,
    http_only: bool,
    secure: bool,
    same_site: SameSite,
    path: Seq<char>,
) -> Seq<char> {
    name + "="@ + value + (if http_only {
        "; HttpOnly"@
    } else {
        Seq::empty()
    }) + "; SameSite="@ + same_site_text(same_site) + (if secure {
        "; Secure"@
    } else {
        Seq::empty()
    }) + "; Path="@ + path
}

/// The token cookie's `Set-Cookie` text: readable by scripts (no
/// `HttpOnly`, so the page can copy the token into its header), for the
/// whole site (path `/`), with the layer's `Secure` flag and `SameSite`.
pub open spec fn set_cookie_text(
    name: Seq<char>,
    value: Seq<char>,
    secure: bool,
    same_site: SameSite,
) -> Seq<char> {
    cookie_display_text(name, value, false, secure, same_site, "/"@)
}

/// `cookie::Cookie::new(name, value)` with `set_http_only(http_only)`,
/// `set_secure(secure)`, `set_same_site(same_site)` and `set_path(path)`,
/// displayed as a `Set-Cookie` value. The crate's `Display` writes
/// `name=value`, then `; HttpOnly` only when http-only is set to true, then
/// `; SameSite=..`, then `; Secure` only when secure is set to true (it is
/// set here, so `SameSite=None` adds nothing by itself), then `; Path=..`;
/// nothing is percent-encoded.
#[verifier::external_body]
fn cookie_set_text(
    name: &str,
    value: &str,
    http_only: bool,
    secure: bool,
    same_site: SameSite,
    path: &str,
) -> (r: String)
    ensures
        r@ == cookie_display_text(name@, value@, http_only, secure, same_site, path@),
{
    let mut c = cookie::Cookie::new(name.to_owned(), value.to_owned());
    c.set_http_only(http_only);
    c.set_secure(secure);
    c.set_same_site(match same_site {
        SameSite::Strict => cookie::SameSite::Strict,
        SameSite::Lax => cookie::SameSite::Lax,
        SameSite::Unrestricted => cookie::SameSite::None,
    });
    c.set_path(path.to_owned());
    c.to_string()
}

/// The token of the current request.
#[derive(Debug, Clone)]
pub struct CsrfToken(String);

impl View for CsrfToken {
    type V = Seq<char>;

    closed spec fn view(&self) -> Seq<char> {
        self.0@
    }
}

impl CsrfToken {
    /// A fresh random token (a UUID).
    pub fn new() -> (r: CsrfToken)
        ensures
            uuid_text(r@),
    {
        CsrfToken(random_uuid_text())
    }

    /// A token with the given text.
    pub fn from_string(token: String) -> (r: CsrfToken)
        ensures
            r@ == token@,
    {
        CsrfToken(token)
    }

    /// The token's text.
    pub fn as_str(&self) -> (r: &str)
        ensures
            r@ == self@,
    {
        self.0.as_str()
    }
}

impl Default for CsrfToken {
    fn default() -> (r: CsrfToken)
        ensures
            uuid_text(r@),
    {
        CsrfToken::new()
    }
}

/// The value of cookie `name` among `;`-separated pairs: the first pair
/// whose trimmed name matches, its value trimmed.
pub open spec fn cookie_in_pairs(pairs: Seq<Seq<char>>, name: Seq<char>) -> Option<Seq<char>>
    decreases pairs.len(),
{
    if pairs.len() == 0 {
        None
    } else {
        match split_once_spec(trim_spec(pairs[0]), '=') {
            Some((n, v)) => if trim_spec(n) == name {
                Some(trim_spec(v))
            } else {
                cookie_in_pairs(pairs.drop_first(), name)
            },
            None => cookie_in_pairs(pairs.drop_first(), name),
        }
    }
}

/// The value of cookie `name` in a list of `Cookie` header values: the first
/// match in the first value (readable as text) that has one.
pub open spec fn cookie_in_values(values: Seq<Seq<u8>>, name: Seq<char>) -> Option<Seq<char>>
    decreases values.len(),
{
    if values.len() == 0 {
        None
    } else {
        match header_value_text(values[0]) {
            Some(t) => match cookie_in_pairs(split_spec(t, ';'), name) {
                Some(v) => Some(v),
                None => cookie_in_values(values.drop_first(), name),
            },
            None => cookie_in_values(values.drop_first(), name),
        }
    }
}

/// The value of the request cookie `name`.
pub open spec fn request_cookie(h: http::HeaderMap, name: Seq<char>) -> Option<Seq<char>> {
    cookie_in_values(header_values(h, "cookie"@), name)
}

fn cookie_in_text(text: &str, name: &str) -> (r: Option<String>)
    ensures
        match r {
            Some(v) => cookie_in_pairs(split_spec(text@, ';'), name@) == Some(v@),
            None => cookie_in_pairs(split_spec(text@, ';'), name@) is None,
        },
{
    let pairs = split(text, ';');
    let ghost ps = strings_view(pairs@);
    let mut j: usize = 0;
    assert(ps.skip(0) =~= ps);
    while j < pairs.len()
        invariant
            ps == strings_view(pairs@),
            ps == split_spec(text@, ';'),
            j <= pairs@.len(),
            cookie_in_pairs(ps, name@) == cookie_in_pairs(ps.skip(j as int), name@),
        decreases pairs@.len() - j,
    {
        let ghost rest = ps.skip(j as int);
        assert(rest.drop_first() =~= ps.skip(j + 1));
        assert(rest[0] == pairs@[j as int]@);
        let pair = trim(pairs[j].as_str());
        match split_once(pair.as_str(), '=') {
            Some((n, v)) => {
                let tn = trim(n.as_str());
                if str_eq(tn.as_str(), name) {
                    return Some(trim(v.as_str()));
                }
            },
            None => {},
        }
        j = j + 1;
    }
    None
}

/// The value of the request cookie `name`, as the first matching pair of
/// the `Cookie` headers.
pub fn extract_cookie(headers: &http::HeaderMap, name: &str) -> (r: Option<String>)
    ensures
        match r {
            Some(v) => request_cookie(*headers, name@) == Some(v@),
            None => request_cookie(*headers, name@) is None,
        },
{
    proof {
        reveal_strlit("cookie");
    }
    let values = header_get_all(headers, "cookie");
    let ghost vs = values@.map_values(|v: Vec<u8>| v@);
    let mut i: usize = 0;
    assert(vs.skip(0) =~= vs);
    while i < values.len()
        invariant
            vs == values@.map_values(|v: Vec<u8>| v@),
            vs == header_values(*headers, "cookie"@),
            i <= values@.len(),
            cookie_in_values(vs, name@) == cookie_in_values(vs.skip(i as int), name@),
        decreases values@.len() - i,
    {
        let ghost rest = vs.skip(i as int);
        assert(rest.drop_first() =~= vs.skip(i + 1));
        assert(rest[0] == values@[i as int]@);
        match value_text(&values[i]) {
            Some(text) => match cookie_in_text(text.as_str(), name) {
                Some(v) => return Some(v),
                None => {},
            },
            None => {},
        }
        i = i + 1;
    }
    None
}

/// A method that changes state: anything but `GET`, `HEAD`, `OPTIONS` and `TRACE`.
pub open spec fn state_changing(m: Method) -> bool {
    !(m is Get || m is Head || m is Options || m is Trace)
}

/// Whether a method changes state.
pub fn is_state_changing(method: &Method) -> (r: bool)
    ensures
        r == state_changing(*method),
{
    match method {
        Method::Get | Method::Head | Method::Options | Method::Trace => false,
        _ => true,
    }
}

/// The JSON body of the refusal.
pub open spec fn forbidden_body() -> Seq<char> {
    "{\"error\":\"Forbidden\",\"code\":403,\"message\":\"CSRF token validation failed\"}"@
}

/// The refusal: `403` with a JSON body.
pub fn csrf_forbidden() -> (r: Response)
    ensures
        r.status == 403,
        only_headers(r.headers, seq![("content-type"@, "application/json"@)]),
        r.body@ == encode_utf8(forbidden_body()),
{
    proof {
        reveal_strlit("application/json");
        let t = "application/json"@;
        assert forall|i: int| 0 <= i < t.len() implies #[trigger] crate::headers::is_header_value_char(
            t[i],
        ) by {}
    }
    Response::with_text(
        403,
        "application/json",
        "{\"error\":\"Forbidden\",\"code\":403,\"message\":\"CSRF token validation failed\"}",
    )
}

/// A request passes the check: its method is safe, or it carries the token
/// cookie and repeats that token in the token header.
pub open spec fn csrf_passes(
    method: Method,
    h: http::HeaderMap,
    cookie_name: Seq<char>,
    header_name: Seq<char>,
) -> bool {
    !state_changing(method) || (request_cookie(h, cookie_name) is Some && header_text(
        h,
        header_name,
    ) == request_cookie(h, cookie_name))
}

/// What the check decides for a request.
pub enum CsrfDecision {
    /// Answer with this refusal; the handler is not called.
    Reject(Response),
    /// Call the handler with this token; when `set_cookie` holds the token
    /// is new and goes out in a `Set-Cookie` header.
    Proceed { token: CsrfToken, set_cookie: bool },
}

/// The settings of the protection.
pub struct CsrfSettings {
    pub cookie_name: Seq<char>,
    pub header_name: Seq<char>,
    pub secure: bool,
    pub same_site: SameSite,
}

/// Double-submit cookie protection.
#[derive(Debug)]
pub struct CsrfLayer {
    cookie_name: &'static str,
    header_name: &'static str,
    secure: bool,
    same_site: SameSite,
}

impl CsrfLayer {
    /// The token header is a name a header map accepts.
    #[verifier::type_invariant]
    spec fn header_name_ok(self) -> bool {
        crate::headers::valid_header_name(self.header_name@)
    }
}

impl Clone for CsrfLayer {
    fn clone(&self) -> (r: CsrfLayer)
        ensures
            r@ == self@,
    {
        proof {
            use_type_invariant(self);
        }
        CsrfLayer { ..*self }
    }
}

impl View for CsrfLayer {
    type V = CsrfSettings;

    closed spec fn view(&self) -> CsrfSettings {
        CsrfSettings {
            cookie_name: self.cookie_name@,
            header_name: self.header_name@,
            secure: self.secure,
            same_site: self.same_site,
        }
    }
}

/// A header name the layer may look up or set.
pub open spec fn usable_name(s: Seq<char>) -> bool {
    crate::headers::valid_header_name(s)
}

impl Default for CsrfLayer {
    fn default() -> (r: CsrfLayer)
        ensures
            r@.cookie_name == "csrf_token"@,
            r@.header_name == "x-csrf-token"@,
            !r@.secure,
            r@.same_site == SameSite::Strict,
    {
        proof {
            reveal_strlit("x-csrf-token");
            reveal_strlit("csrf_token");
            let t = "x-csrf-token"@;
            assert forall|i: int| 0 <= i < t.len() implies #[trigger] crate::headers::is_header_name_char(
                t[i],
            ) by {}
        }
        CsrfLayer {
            cookie_name: "csrf_token",
            header_name: "x-csrf-token",
            secure: false,
            same_site: SameSite::Strict,
        }
    }
}

impl CsrfLayer {
    /// The token cookie `csrf_token`, the header `x-csrf-token`, not secure,
    /// `SameSite=Strict`.
    pub fn new() -> (r: CsrfLayer)
        ensures
            r@.cookie_name == "csrf_token"@,
            r@.header_name == "x-csrf-token"@,
            !r@.secure,
            r@.same_site == SameSite::Strict,
    {
        CsrfLayer::default()
    }

    /// Mark the token cookie `Secure`.
    pub fn secure(self, secure: bool) -> (r: CsrfLayer)
        ensures
            r@ == (CsrfSettings { secure: secure, ..self@ }),
    {
        proof {
            use_type_invariant(&self);
        }
        CsrfLayer { secure, ..self }
    }

    /// Set the token cookie's `SameSite` attribute.
    pub fn same_site(self, same_site: SameSite) -> (r: CsrfLayer)
        ensures
            r@ == (CsrfSettings { same_site: same_site, ..self@ }),
    {
        proof {
            use_type_invariant(&self);
        }
        CsrfLayer { same_site, ..self }
    }

    /// Check a request. With the token cookie present its token is kept; a
    /// state-changing request then passes only when the token header repeats
    /// it. Without the cookie a state-changing request is refused and any
    /// other gets a fresh token that is to be set as a cookie.
    pub fn decide(&self, method: &Method, headers: &http::HeaderMap) -> (r: CsrfDecision)
        ensures
            r is Proceed <==> csrf_passes(*method, *headers, self@.cookie_name, self@.header_name),
            r matches CsrfDecision::Reject(resp) ==> (resp.status == 403 && only_headers(
                resp.headers,
                seq![("content-type"@, "application/json"@)],
            ) && resp.body@ == encode_utf8(forbidden_body())),
            r matches CsrfDecision::Proceed { token, set_cookie } ==> (match request_cookie(
                *headers,
                self@.cookie_name,
            ) {
                Some(t) => token@ == t && !set_cookie,
                None => uuid_text(token@) && set_cookie,
            }),
    {
        proof {
            use_type_invariant(self);
        }
        let changing = is_state_changing(method);
        match extract_cookie(headers, self.cookie_name) {
            Some(t) => {
                if changing {
                    let ok = match header_str(headers, self.header_name) {
                        Some(h) => str_eq(h.as_str(), t.as_str()),
                        None => false,
                    };
                    if !ok {
                        return CsrfDecision::Reject(csrf_forbidden());
                    }
                }
                CsrfDecision::Proceed { token: CsrfToken::from_string(t), set_cookie: false }
            },
            None => {
                if changing {
                    return CsrfDecision::Reject(csrf_forbidden());
                }
                CsrfDecision::Proceed { token: CsrfToken::new(), set_cookie: true }
            },
        }
    }

    /// The `Set-Cookie` text for a new token.
    pub fn cookie_text(&self, token: &CsrfToken) -> (r: String)
        ensures
            r@ == set_cookie_text(self@.cookie_name, token@, self@.secure, self@.same_site),
    {
        cookie_set_text(self.cookie_name, token.as_str(), false, self.secure, self.same_site, "/")
    }

    /// Add the `Set-Cookie` header for a new token to a response (skipped
    /// when the text is not a valid header value).
    pub fn set_token_cookie(&self, token: &CsrfToken, headers: &mut http::HeaderMap)
        requires
            header_keys_len(*old(headers)) < max_header_names(),
        ensures
            header_values(*final(headers), "set-cookie"@) == (if valid_header_value(
                set_cookie_text(self@.cookie_name, token@, self@.secure, self@.same_site),
            ) {
                header_values(*old(headers), "set-cookie"@).push(
                    encode_utf8(
                        set_cookie_text(self@.cookie_name, token@, self@.secure, self@.same_site),
                    ),
                )
            } else {
                header_values(*old(headers), "set-cookie"@)
            }),
            forall|n: Seq<char>| n != "set-cookie"@ ==> #[trigger] header_values(*final(headers), n)
                == header_values(*old(headers), n),
    {
        proof {
            reveal_strlit("set-cookie");
        }
        let text = self.cookie_text(token);
        if is_valid_header_value(text.as_str()) {
            header_append(headers, "set-cookie", text.as_str());
        }
    }

    /// Wrap a service.
    pub fn layer<S>(&self, inner: S) -> (r: CsrfService<S>)
        ensures
            r.inner_view() == inner,
            r.config_view()@ == self@,
    {
        proof {
            use_type_invariant(self);
        }
        CsrfService { inner, config: CsrfLayer { ..*self } }
    }
}

/// The protection wrapped around a service.
pub struct CsrfService<S> {
    inner: S,
    config: CsrfLayer,
}

impl<S> CsrfService<S> {
    pub closed spec fn inner_view(&self) -> S {
        self.inner
    }

    pub closed spec fn config_view(&self) -> CsrfLayer {
        self.config
    }

    /// The wrapped service.
    pub fn inner(&self) -> (r: &S)
        ensures
            *r == self.inner_view(),
    {
        &self.inner
    }

    /// The settings.
    pub fn config(&self) -> (r: &CsrfLayer)
        ensures
            *r == self.config_view(),
    {
        &self.config
    }
}

/// A state-changing request passes exactly when it carries the token cookie
/// and repeats its token in the header; a safe request always passes.
pub proof fn lemma_csrf_double_submit(
    method: Method,
    h: http::HeaderMap,
    cookie_name: Seq<char>,
    header_name: Seq<char>,
)
    ensures
        !state_changing(method) ==> csrf_passes(method, h, cookie_name, header_name),
        state_changing(method) ==> (csrf_passes(method, h, cookie_name, header_name) <==> (exists|
            t: Seq<char>,
        |
            request_cookie(h, cookie_name) == Some(t) && header_text(h, header_name) == Some(t))),
{
    if state_changing(method) && request_cookie(h, cookie_name) is Some && header_text(
        h,
        header_name,
    ) == request_cookie(h, cookie_name) {
        let t = request_cookie(h, cookie_name)->0;
        assert(request_cookie(h, cookie_name) == Some(t) && header_text(h, header_name) == Some(t));
    }
}

} // verus!
