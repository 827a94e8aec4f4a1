//! Request timeouts: a handler that does not finish within the configured
//! duration is answered with `408 Request Timeout`. Waiting is left to the
//! runtime; this module holds the settings and the answer.

use vstd::prelude::*;
use vstd::string::*;
use vstd::utf8::*;
use crate::duration::TimeSpan;
use crate::headers::is_header_value_char;
use crate::response::{only_headers, Response};
use crate::text::{decimal_spec, decimal_wide};

verus! {

/// Answers `408` when the handler takes longer than the duration.
#[derive(Debug, Clone, Copy)]
pub struct TimeoutLayer {
    duration: TimeSpan,
}

impl TimeoutLayer {
    pub closed spec fn duration_view(&self) -> TimeSpan {
        self.duration
    }

    /// A layer with the given time limit.
    pub fn new(duration: TimeSpan) -> (r: TimeoutLayer)
        ensures
            r.duration_view() == duration,
    {
        TimeoutLayer { duration }
    }

    /// The time limit.
    pub fn duration(&self) -> (r: TimeSpan)
        ensures
            r == self.duration_view(),
    {
        self.duration
    }

    /// Wrap a service.
    pub fn layer<S>(&self, inner: S) -> (r: TimeoutService<S>)
        ensures
            r.inner_view() == inner,
            r.duration_view() == self.duration_view(),
    {
        TimeoutService { inner, duration: self.duration }
    }
}

/// The time limit wrapped around a service.
pub struct TimeoutService<S> {
    inner: S,
    duration: TimeSpan,
}

/// The JSON body of the timeout answer for a limit of `millis` milliseconds.
pub open spec fn timeout_body(millis: u128) -> Seq<char> {
    "{\"error\":\"Request Timeout\",\"code\":408,\"message\":\"Request exceeded the "@
        + decimal_spec(millis as nat) + "ms time limit\"}"@
}

/// The timeout answer for a limit of `millis` milliseconds: `408` with a JSON body.
pub fn timeout_response_for(millis: u128) -> (r: Response)
    ensures
        r.status == 408,
        only_headers(r.headers, seq![("content-type"@, "application/json"@)]),
        r.body@ == encode_utf8(timeout_body(millis)),
{
    proof {
        reveal_strlit("application/json");
        let t = "application/json"@;
        assert forall|i: int| 0 <= i < t.len() implies #[trigger] is_header_value_char(t[i]) by {}
    }
    let mut body = "{\"error\":\"Request Timeout\",\"code\":408,\"message\":\"Request exceeded the ".to_owned();
    let d = decimal_wide(millis);
    body.append(d.as_str());
    body.append("ms time limit\"}");
    Response::with_text(408, "application/json", body.as_str())
}

impl<S> TimeoutService<S> {
    pub closed spec fn inner_view(&self) -> S {
        self.inner
    }

    pub closed spec fn duration_view(&self) -> TimeSpan {
        self.duration
    }

    /// The wrapped service.
    pub fn inner(&self) -> (r: &S)
        ensures
            *r == self.inner_view(),
    {
        &self.inner
    }

    /// The time limit.
    pub fn duration(&self) -> (r: TimeSpan)
        ensures
            r == self.duration_view(),
    {
        self.duration
    }

    /// The answer when the handler runs out of time: `408`, naming the limit
    /// in whole milliseconds.
    pub fn timeout_response(&self) -> (r: Response)
        ensures
            r.status == 408,
            only_headers(r.headers, seq![("content-type"@, "application/json"@)]),
            r.body@ == encode_utf8(timeout_body(self.duration_view().whole_millis())),
    {
        let ms = self.duration.as_millis();
        let r = timeout_response_for(ms);
        assert(r.body@ == encode_utf8(timeout_body(ms)));
        r
    }
}

/// The JSON body of the answer to a handler that panicked.
pub open spec fn panic_body() -> Seq<char> {
    "{\"error\":\"Internal Server Error\",\"code\":500}"@
}

/// The default answer to a handler that panicked: `500` with a JSON body.
pub fn default_panic_response() -> (r: Response)
    ensures
        r.status == 500,
        only_headers(r.headers, seq![("content-type"@, "application/json"@)]),
        r.body@ == encode_utf8(panic_body()),
{
    proof {
        reveal_strlit("application/json");
        let t = "application/json"@;
        assert forall|i: int| 0 <= i < t.len() implies #[trigger] is_header_value_char(t[i]) by {}
    }
    Response::with_text(500, "application/json", "{\"error\":\"Internal Server Error\",\"code\":500}")
}

} // verus!
