//! HTTP methods and the method filter used for routing.

use vstd::prelude::*;
use vstd::std_specs::ops::BitOrSpecImpl;
use crate::text::str_eq;

verus! {

/// An HTTP request method.
#[derive(Debug, Clone, PartialEq, Eq)]
pub enum Method {
    Get,
    Post,
    Put,
    Delete,
    Patch,
    Head,
    Options,
    Trace,
    Connect,
    /// Any other (extension) method, with its name.
    Extension(String),
}

/// The name of a method as it appears on the request line.
pub open spec fn method_name(m: Method) -> Seq<char> {
    match m {
        Method::Get => "GET"@,
        Method::Post => "POST"@,
        Method::Put => "PUT"@,
        Method::Delete => "DELETE"@,
        Method::Patch => "PATCH"@,
        Method::Head => "HEAD"@,
        Method::Options => "OPTIONS"@,
        Method::Trace => "TRACE"@,
        Method::Connect => "CONNECT"@,
        Method::Extension(name) => name@,
    }
}

/// The exact (upper-case) name of one of the standard methods.
pub open spec fn is_standard_method_name(s: Seq<char>) -> bool {
    ||| s == "GET"@
    ||| s == "POST"@
    ||| s == "PUT"@
    ||| s == "DELETE"@
    ||| s == "PATCH"@
    ||| s == "HEAD"@
    ||| s == "OPTIONS"@
    ||| s == "TRACE"@
    ||| s == "CONNECT"@
}

impl Method {
    /// The method's name.
    pub fn as_str(&self) -> (r: &str)
        ensures
            r@ == method_name(*self),
    {
        match self {
            Method::Get => "GET",
            Method::Post => "POST",
            Method::Put => "PUT",
            Method::Delete => "DELETE",
            Method::Patch => "PATCH",
            Method::Head => "HEAD",
            Method::Options => "OPTIONS",
            Method::Trace => "TRACE",
            Method::Connect => "CONNECT",
            Method::Extension(name) => name.as_str(),
        }
    }

    /// The method named `name`; names other than the standard ones become
    /// extension methods carrying the name.
    pub fn from_name(name: &str) -> (r: Method)
        ensures
            method_name(r) == name@,
            r is Extension <==> !is_standard_method_name(name@),
    {
        proof {
            reveal_strlit("GET");
            reveal_strlit("POST");
            reveal_strlit("PUT");
            reveal_strlit("DELETE");
            reveal_strlit("PATCH");
            reveal_strlit("HEAD");
            reveal_strlit("OPTIONS");
            reveal_strlit("TRACE");
            reveal_strlit("CONNECT");
        }
        if str_eq(name, "GET") {
            Method::Get
        } else if str_eq(name, "POST") {
            Method::Post
        } else if str_eq(name, "PUT") {
            Method::Put
        } else if str_eq(name, "DELETE") {
            Method::Delete
        } else if str_eq(name, "PATCH") {
            Method::Patch
        } else if str_eq(name, "HEAD") {
            Method::Head
        } else if str_eq(name, "OPTIONS") {
            Method::Options
        } else if str_eq(name, "TRACE") {
            Method::Trace
        } else if str_eq(name, "CONNECT") {
            Method::Connect
        } else {
            Method::Extension(name.to_owned())
        }
    }
}

/// Bitflag filter matching one or more HTTP methods.
#[derive(Debug, Clone, Copy, PartialEq, Eq, Hash, Structural)]
pub struct MethodFilter(pub u16);

/// The bit of a method in a filter (`0` for methods no filter names).
pub open spec fn method_bit(m: Method) -> u16 {
    match m {
        Method::Get => 1,
        Method::Post => 2,
        Method::Put => 4,
        Method::Delete => 8,
        Method::Patch => 16,
        Method::Head => 32,
        Method::Options => 64,
        Method::Trace => 128,
        Method::Connect => 0,
        Method::Extension(_) => 0,
    }
}

/// A filter matches a method when the method has a bit and the filter holds it.
pub open spec fn filter_matches(f: u16, m: Method) -> bool {
    method_bit(m) != 0 && bits_contain(f, method_bit(m))
}

/// `a` has every bit of `b`.
pub open spec fn bits_contain(a: u16, b: u16) -> bool {
    a & b == b
}

impl MethodFilter {
    /// Matches HTTP GET requests.
    #[allow(non_snake_case)]
    pub fn GET() -> (r: MethodFilter)
        ensures
            r.0 == 1,
    {
        MethodFilter(1)
    }
    /// Matches HTTP POST requests.
    #[allow(non_snake_case)]
    pub fn POST() -> (r: MethodFilter)
        ensures
            r.0 == 2,
    {
        MethodFilter(2)
    }
    /// Matches HTTP PUT requests.
    #[allow(non_snake_case)]
    pub fn PUT() -> (r: MethodFilter)
        ensures
            r.0 == 4,
    {
        MethodFilter(4)
    }
    /// Matches HTTP DELETE requests.
    #[allow(non_snake_case)]
    pub fn DELETE() -> (r: MethodFilter)
        ensures
            r.0 == 8,
    {
        MethodFilter(8)
    }
    /// Matches HTTP PATCH requests.
    #[allow(non_snake_case)]
    pub fn PATCH() -> (r: MethodFilter)
        ensures
            r.0 == 16,
    {
        MethodFilter(16)
    }
    /// Matches HTTP HEAD requests.
    #[allow(non_snake_case)]
    pub fn HEAD() -> (r: MethodFilter)
        ensures
            r.0 == 32,
    {
        MethodFilter(32)
    }
    /// Matches HTTP OPTIONS requests.
    #[allow(non_snake_case)]
    pub fn OPTIONS() -> (r: MethodFilter)
        ensures
            r.0 == 64,
    {
        MethodFilter(64)
    }
    /// Matches HTTP TRACE requests.
    #[allow(non_snake_case)]
    pub fn TRACE() -> (r: MethodFilter)
        ensures
            r.0 == 128,
    {
        MethodFilter(128)
    }
    /// Matches any HTTP method.
    #[allow(non_snake_case)]
    pub fn ANY() -> (r: MethodFilter)
        ensures
            r.0 == 255,
    {
        MethodFilter(255)
    }
    /// Matches no HTTP method (empty filter).
    #[allow(non_snake_case)]
    pub fn NONE() -> (r: MethodFilter)
        ensures
            r.0 == 0,
    {
        MethodFilter(0)
    }

    /// Check if this filter contains the given filter.
    pub fn contains(self, other: Self) -> (r: bool)
        ensures
            r == bits_contain(self.0, other.0),
    {
        (self.0 & other.0) == other.0
    }

    /// Check if this filter matches the given HTTP method. Methods that no
    /// filter names (`CONNECT` and extension methods) match nothing.
    pub fn matches(self, method: &Method) -> (r: bool)
        ensures
            r == filter_matches(self.0, *method),
    {
        let f = Self::from_method(method);
        f.0 != 0 && self.contains(f)
    }

    /// Convert an HTTP method to a `MethodFilter` (unknown methods match nothing).
    pub fn from_method(method: &Method) -> (r: Self)
        ensures
            r.0 == method_bit(*method),
    {
        match method {
            Method::Get => Self::GET(),
            Method::Post => Self::POST(),
            Method::Put => Self::PUT(),
            Method::Delete => Self::DELETE(),
            Method::Patch => Self::PATCH(),
            Method::Head => Self::HEAD(),
            Method::Options => Self::OPTIONS(),
            Method::Trace => Self::TRACE(),
            _ => MethodFilter(0),
        }
    }

    /// The union of two filters.
    pub fn union(self, rhs: Self) -> (r: Self)
        ensures
            r.0 == self.0 | rhs.0,
    {
        MethodFilter(self.0 | rhs.0)
    }
}

impl From<Method> for MethodFilter {
    fn from(method: Method) -> (r: MethodFilter) {
        MethodFilter::from_method(&method)
    }
}

impl vstd::std_specs::convert::FromSpecImpl<Method> for MethodFilter {
    open spec fn obeys_from_spec() -> bool {
        true
    }

    open spec fn from_spec(v: Method) -> MethodFilter {
        MethodFilter(method_bit(v))
    }
}

impl core::ops::BitOr for MethodFilter {
    type Output = MethodFilter;

    fn bitor(self, rhs: Self) -> (r: MethodFilter) {
        MethodFilter(self.0 | rhs.0)
    }
}

impl BitOrSpecImpl for MethodFilter {
    open spec fn obeys_bitor_spec() -> bool {
        true
    }

    open spec fn bitor_req(self, rhs: MethodFilter) -> bool {
        true
    }

    open spec fn bitor_spec(self, rhs: MethodFilter) -> MethodFilter {
        MethodFilter(self.0 | rhs.0)
    }
}

/// A filter contains itself, and the union of two filters contains each of them.
pub proof fn lemma_union_contains(a: MethodFilter, b: MethodFilter)
    ensures
        bits_contain(a.0, a.0),
        bits_contain(a.0 | b.0, a.0),
        bits_contain(a.0 | b.0, b.0),
{
    let x = a.0;
    let y = b.0;
    assert(x & x == x) by (bit_vector);
    assert((x | y) & x == x) by (bit_vector);
    assert((x | y) & y == y) by (bit_vector);
}

/// `ANY` matches every method that a filter names, and no other; `NONE`
/// matches no method.
pub proof fn lemma_any_and_none(m: Method)
    ensures
        filter_matches(255, m) <==> method_bit(m) != 0,
        !filter_matches(0, m),
{
    let b = method_bit(m);
    assert(b <= 128 ==> (b == 1 || b == 2 || b == 4 || b == 8 || b == 16 || b == 32 || b == 64
        || b == 128 || b == 0) ==> (255u16 & b) == b) by (bit_vector);
    assert(b != 0 ==> (0u16 & b) != b) by (bit_vector);
}

/// A single-method filter matches exactly its own method.
pub proof fn lemma_single_method_filter(m: Method, n: Method)
    requires
        method_bit(m) != 0,
    ensures
        filter_matches(method_bit(m), n) <==> m == n,
{
    let a = method_bit(m);
    let b = method_bit(n);
    assert(a & 0 == 0) by (bit_vector);
    assert(a & a == a) by (bit_vector);
    assert(1u16 & 2 == 0 && 1u16 & 4 == 0 && 1u16 & 8 == 0 && 1u16 & 16 == 0 && 1u16 & 32 == 0
        && 1u16 & 64 == 0 && 1u16 & 128 == 0) by (bit_vector);
    assert(2u16 & 1 == 0 && 2u16 & 4 == 0 && 2u16 & 8 == 0 && 2u16 & 16 == 0 && 2u16 & 32 == 0
        && 2u16 & 64 == 0 && 2u16 & 128 == 0) by (bit_vector);
    assert(4u16 & 1 == 0 && 4u16 & 2 == 0 && 4u16 & 8 == 0 && 4u16 & 16 == 0 && 4u16 & 32 == 0
        && 4u16 & 64 == 0 && 4u16 & 128 == 0) by (bit_vector);
    assert(8u16 & 1 == 0 && 8u16 & 2 == 0 && 8u16 & 4 == 0 && 8u16 & 16 == 0 && 8u16 & 32 == 0
        && 8u16 & 64 == 0 && 8u16 & 128 == 0) by (bit_vector);
    assert(16u16 & 1 == 0 && 16u16 & 2 == 0 && 16u16 & 4 == 0 && 16u16 & 8 == 0 && 16u16 & 32
        == 0 && 16u16 & 64 == 0 && 16u16 & 128 == 0) by (bit_vector);
    assert(32u16 & 1 == 0 && 32u16 & 2 == 0 && 32u16 & 4 == 0 && 32u16 & 8 == 0 && 32u16 & 16
        == 0 && 32u16 & 64 == 0 && 32u16 & 128 == 0) by (bit_vector);
    assert(64u16 & 1 == 0 && 64u16 & 2 == 0 && 64u16 & 4 == 0 && 64u16 & 8 == 0 && 64u16 & 16
        == 0 && 64u16 & 32 == 0 && 64u16 & 128 == 0) by (bit_vector);
    assert(128u16 & 1 == 0 && 128u16 & 2 == 0 && 128u16 & 4 == 0 && 128u16 & 8 == 0 && 128u16
        & 16 == 0 && 128u16 & 32 == 0 && 128u16 & 64 == 0) by (bit_vector);
}

} // verus!
