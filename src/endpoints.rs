//! Endpoints and middleware values that the library provides.
//!
//! These hold what a request needs once it runs: a scope holds its own
//! middleware chain and the endpoint at its end, a synchronous endpoint holds
//! the function it calls, and a state middleware holds the value it hands to
//! every request.
use vstd::prelude::*;
use crate::middleware::Next;

verus! {

/// A builder for a [`ScopeEndpoint`]: it collects the middleware that runs
/// before the scope's endpoint, in the order given.
#[derive(Debug)]
pub struct ScopeEndpointBuilder<M>(Vec<M>);

/// Starts a scope: middleware that applies only to one endpoint.
pub fn scope<M>() -> (r: ScopeEndpointBuilder<M>)
    ensures
        r.pending().len() == 0,
{
    ScopeEndpointBuilder(Vec::new())
}

impl<M> ScopeEndpointBuilder<M> {
    /// The middleware collected so far.
    pub closed spec fn pending(&self) -> Seq<M> {
        self.0@
    }

    /// Appends middleware to the scope.
    pub fn with(&mut self, middleware: M) -> (r: &mut Self)
        ensures
            r.pending() == old(self).pending().push(middleware),
            *final(self) == *final(r),
    {
        self.0.push(middleware);
        self
    }

    /// Completes the scope with its endpoint. The builder is left empty and
    /// can be used again.
    pub fn then<E>(&mut self, endpoint: E) -> (r: ScopeEndpoint<E, M>)
        ensures
            r.middleware() == old(self).pending(),
            r.endpoint_of() == endpoint,
            final(self).pending().len() == 0,
    {
        let mut middleware: Vec<M> = Vec::new();
        core::mem::swap(&mut middleware, &mut self.0);
        ScopeEndpoint { middleware, endpoint }
    }
}

/// An endpoint with a middleware chain of its own in front of it.
#[derive(Debug)]
pub struct ScopeEndpoint<E, M> {
    middleware: Vec<M>,
    endpoint: E,
}

impl<E, M> ScopeEndpoint<E, M> {
    /// The scope's middleware, in the order it runs.
    pub closed spec fn middleware(&self) -> Seq<M> {
        self.middleware@
    }

    /// The endpoint at the end of the scope.
    pub closed spec fn endpoint_of(&self) -> E {
        self.endpoint
    }

    /// The scope's middleware, in the order it runs.
    pub fn middleware_list(&self) -> (r: &Vec<M>)
        ensures
            r@ == self.middleware(),
    {
        &self.middleware
    }

    /// The endpoint at the end of the scope.
    pub fn endpoint(&self) -> (r: &E)
        ensures
            *r == self.endpoint_of(),
    {
        &self.endpoint
    }

    /// The start of the scope's chain.
    pub fn start(&self) -> (r: Next)
        ensures
            r.position() == 0,
            r.count() == self.middleware().len(),
    {
        Next::new(self.middleware.len())
    }
}

/// An endpoint that answers by calling a plain function.
#[derive(Debug)]
pub struct SyncEndpoint<F>(pub F);

impl<F> SyncEndpoint<F> {
    /// Wraps the function.
    pub fn new(f: F) -> (r: Self)
        ensures
            r.0 == f,
    {
        SyncEndpoint(f)
    }
}

/// A middleware that logs each request and how it ended.
#[derive(Debug, Clone, Copy, Default, PartialEq, Eq, Structural)]
pub struct TraceMiddleware;

impl TraceMiddleware {
    /// A trace middleware.
    pub fn new() -> (r: Self)
        ensures
            r == TraceMiddleware,
    {
        TraceMiddleware
    }
}

/// A value that a [`StateMiddleware`] handed to a request.
#[derive(Debug, Clone, Copy, Default)]
pub struct State<T>(pub T);

impl<T> State<T> {
    /// The value itself.
    pub fn into_inner(self) -> (r: T)
        ensures
            r == self.0,
    {
        self.0
    }
}

/// A middleware that hands a copy of one value to every request.
#[derive(Debug, Clone)]
pub struct StateMiddleware<T>(T);

impl<T> StateMiddleware<T> {
    /// The value handed to each request.
    pub closed spec fn value(&self) -> T {
        self.0
    }

    /// A middleware that hands `value` to every request.
    pub fn new(value: T) -> (r: Self)
        ensures
            r.value() == value,
    {
        StateMiddleware(value)
    }

    /// The value handed to each request.
    pub fn get(&self) -> (r: &T)
        ensures
            *r == self.value(),
    {
        &self.0
    }
}

} // verus!
