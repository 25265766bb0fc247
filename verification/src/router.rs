//! The router: which handler answers a request.

use vstd::prelude::*;

use crate::assets::{AssetTable, Assets};
use crate::handlers::{hello_handler, not_found_view, static_handler, static_view};
use crate::path::same_text;
use crate::response::{Body, BodyView, Response, ResponseView};

verus! {

/// The method of a request.
#[derive(Debug, Clone, Copy, PartialEq, Eq, Structural)]
pub enum Method {
    Get,
    Head,
    Post,
    Put,
    Delete,
    Connect,
    Options,
    Trace,
    Patch,
    /// A method outside the standard ones.
    Other,
}

/// The path of the greeting endpoint.
pub const HELLO_PATH: &'static str = "/hello";

/// Whether a request is for the greeting endpoint: `GET /hello`.
pub open spec fn is_hello(method: Method, path: Seq<char>) -> bool {
    method == Method::Get && path == HELLO_PATH@
}

/// The greeting: status 200, JSON, the message `Hello, World!`.
pub open spec fn hello_view() -> ResponseView {
    ResponseView {
        status: 200,
        content_type: Some("application/json"@),
        body: BodyView::Json("Hello, World!"@),
    }
}

/// The response to a request: the greeting for `GET /hello`, and what the
/// static handler resolves for every other method and path.
pub open spec fn route_view(assets: Assets, method: Method, path: Seq<char>) -> ResponseView {
    if is_hello(method, path) {
        hello_view()
    } else {
        static_view(assets, path)
    }
}

/// Answers a request.
pub fn handle<'a>(table: &'a AssetTable, method: Method, path: &str) -> (response: Response<'a>)
    ensures
        response@ == route_view(table@, method, path@),
{
    if method == Method::Get && same_text(path, HELLO_PATH) {
        Response {
            status: 200,
            content_type: Some("application/json"),
            body: Body::Json(hello_handler()),
        }
    } else {
        static_handler(table, path)
    }
}

/// `GET /hello` is answered with the greeting, whatever the table holds.
pub proof fn lemma_hello_is_always_served(assets: Assets)
    ensures
        route_view(assets, Method::Get, HELLO_PATH@) == hello_view(),
{
}

/// With an empty table the greeting is still served, and every other request
/// is answered with the not-found page.
pub proof fn lemma_empty_table_serves_only_hello(method: Method, path: Seq<char>)
    ensures
        route_view(Assets::empty(), method, path) == if is_hello(method, path) {
            hello_view()
        } else {
            not_found_view()
        },
{
}

} // verus!
