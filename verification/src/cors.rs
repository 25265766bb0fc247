//! The cross-origin policy of the server.
//!
//! The policy is a plain value. The HTTP layer hands it to the middleware
//! that writes the `Access-Control-*` headers, for every route alike.

use vstd::prelude::*;

use crate::router::Method;

verus! {

/// Who may call the server from another origin, and how.
#[derive(Debug, Clone, PartialEq, Eq)]
pub struct CorsPolicy {
    /// Whether every origin is allowed (`Access-Control-Allow-Origin: *`).
    pub any_origin: bool,
    /// The methods that a cross-origin request may use.
    pub methods: Vec<Method>,
}

/// The server's policy: every origin, with the methods GET and POST.
pub fn cors_policy() -> (policy: CorsPolicy)
    ensures
        policy.any_origin,
        policy.methods@ == seq![Method::Get, Method::Post],
{
    let mut methods: Vec<Method> = Vec::new();
    methods.push(Method::Get);
    methods.push(Method::Post);
    assert(methods@ =~= seq![Method::Get, Method::Post]);
    CorsPolicy { any_origin: true, methods }
}

} // verus!
