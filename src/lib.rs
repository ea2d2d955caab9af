//! Request routing and middleware dispatch for an HTTP server.
//!
//! Route templates such as `/users/{id:uint}{ext:oext}` are compiled into
//! anchored regular expressions, collected into a table whose order decides
//! which route wins, and matched all at once through a regular expression set.
//! Matched routes yield their path fragments, and requests travel through an
//! ordered chain of middleware before reaching the selected endpoint.

pub mod endpoints;
pub mod engine;
pub mod fragment;
pub mod method;
pub mod middleware;
pub mod paths;
pub mod pattern;
pub mod remote;
pub mod router;

pub use endpoints::{scope, ScopeEndpoint, ScopeEndpointBuilder, State, StateMiddleware, SyncEndpoint, TraceMiddleware};
pub use engine::CompiledRegex;
pub use fragment::{Fragment, FragmentKey, FragmentSelect, FragmentSelectSealed};
pub use method::Method;
pub use middleware::{Next, Step};
pub use paths::join_paths;
pub use pattern::{chars_of, push_pattern, regex_pattern, Kind, Pattern, PatternError};
pub use remote::{forwarded_header, pick, split_key_value, split_text, x_forwarded_for_header, RemoteAddress, RemoteAddressSource};
pub use router::{http, Route, Router, Target};
