//! Middleware that hands every response to a function (optionally with a
//! piece of state) after the handler has run; the request passes unchanged.
//! These types carry the function and state; running the function is the
//! server's part.

use vstd::prelude::*;

verus! {

/// Transform every response with `f`.
pub fn map_response<F>(f: F) -> (r: MapResponseLayer<F>)
    ensures
        r.f_view() == f,
{
    MapResponseLayer { f }
}

/// The layer made by [`map_response`].
#[derive(Clone, Debug)]
pub struct MapResponseLayer<F> {
    f: F,
}

impl<F> MapResponseLayer<F> {
    pub closed spec fn f_view(&self) -> F {
        self.f
    }

    /// The transforming function.
    pub fn f(&self) -> (r: &F)
        ensures
            *r == self.f_view(),
    {
        &self.f
    }

    /// Wrap a service, keeping the function.
    pub fn layer<Svc>(self, inner: Svc) -> (r: MapResponseService<F, Svc>)
        ensures
            r.f_view() == self.f_view(),
            r.inner_view() == inner,
    {
        MapResponseService { f: self.f, inner }
    }
}

/// A service whose responses go through a function.
#[derive(Clone)]
pub struct MapResponseService<F, Svc> {
    f: F,
    inner: Svc,
}

impl<F, Svc> MapResponseService<F, Svc> {
    pub closed spec fn f_view(&self) -> F {
        self.f
    }

    pub closed spec fn inner_view(&self) -> Svc {
        self.inner
    }

    /// The transforming function.
    pub fn f(&self) -> (r: &F)
        ensures
            *r == self.f_view(),
    {
        &self.f
    }

    /// The wrapped service.
    pub fn inner(&self) -> (r: &Svc)
        ensures
            *r == self.inner_view(),
    {
        &self.inner
    }
}

/// Transform every response with `f`, which also receives `state`.
pub fn map_response_with_state<S, F>(state: S, f: F) -> (r: MapResponseWithStateLayer<S, F>)
    ensures
        r.f_view() == f,
        r.state_view() == state,
{
    MapResponseWithStateLayer { f, state }
}

/// The layer made by [`map_response_with_state`].
#[derive(Clone, Debug)]
pub struct MapResponseWithStateLayer<S, F> {
    f: F,
    state: S,
}

impl<S, F> MapResponseWithStateLayer<S, F> {
    pub closed spec fn f_view(&self) -> F {
        self.f
    }

    pub closed spec fn state_view(&self) -> S {
        self.state
    }

    /// The transforming function.
    pub fn f(&self) -> (r: &F)
        ensures
            *r == self.f_view(),
    {
        &self.f
    }

    /// The state handed to the function.
    pub fn state(&self) -> (r: &S)
        ensures
            *r == self.state_view(),
    {
        &self.state
    }

    /// Wrap a service, keeping the function and the state.
    pub fn layer<Svc>(self, inner: Svc) -> (r: MapResponseWithStateService<S, F, Svc>)
        ensures
            r.f_view() == self.f_view(),
            r.state_view() == self.state_view(),
            r.inner_view() == inner,
    {
        MapResponseWithStateService { f: self.f, state: self.state, inner }
    }
}

/// A service whose responses go through a function with state.
#[derive(Clone)]
pub struct MapResponseWithStateService<S, F, Svc> {
    f: F,
    state: S,
    inner: Svc,
}

impl<S, F, Svc> MapResponseWithStateService<S, F, Svc> {
    pub closed spec fn f_view(&self) -> F {
        self.f
    }

    pub closed spec fn state_view(&self) -> S {
        self.state
    }

    pub closed spec fn inner_view(&self) -> Svc {
        self.inner
    }

    /// The transforming function.
    pub fn f(&self) -> (r: &F)
        ensures
            *r == self.f_view(),
    {
        &self.f
    }

    /// The state handed to the function.
    pub fn state(&self) -> (r: &S)
        ensures
            *r == self.state_view(),
    {
        &self.state
    }

    /// The wrapped service.
    pub fn inner(&self) -> (r: &Svc)
        ensures
            *r == self.inner_view(),
    {
        &self.inner
    }
}

} // verus!
