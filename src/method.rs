//! HTTP request methods, as far as routing needs them.
use vstd::prelude::*;

verus! {

/// An HTTP request method.
#[derive(Clone, Debug)]
pub enum Method {
    Get,
    Post,
    Put,
    Delete,
    Head,
    Options,
    Connect,
    Patch,
    Trace,
    /// Any other method, by its name.
    Extension(String),
}

/// Whether two methods are the same method.
pub open spec fn same_method(a: Method, b: Method) -> bool {
    match (a, b) {
        (Method::Extension(x), Method::Extension(y)) => x@ == y@,
        (Method::Extension(_), _) => false,
        (_, Method::Extension(_)) => false,
        _ => a == b,
    }
}

impl Method {
    /// Whether `self` and `other` are the same method.
    pub fn same_as(&self, other: &Method) -> (r: bool)
        ensures
            r == same_method(*self, *other),
    {
        match (self, other) {
            (Method::Get, Method::Get) => true,
            (Method::Post, Method::Post) => true,
            (Method::Put, Method::Put) => true,
            (Method::Delete, Method::Delete) => true,
            (Method::Head, Method::Head) => true,
            (Method::Options, Method::Options) => true,
            (Method::Connect, Method::Connect) => true,
            (Method::Patch, Method::Patch) => true,
            (Method::Trace, Method::Trace) => true,
            (Method::Extension(x), Method::Extension(y)) => x.eq(y),
            _ => false,
        }
    }
}

} // verus!
