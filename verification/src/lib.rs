//! Request resolution for a single-page-application server.
//!
//! The server answers `GET /hello` with a JSON greeting and every other
//! request from a table of static assets: a listed file with its media type,
//! the index document for the root and for paths that look like routes of the
//! application, and a not-found page for paths that look like missing files.
//!
//! The library decides; it performs no I/O. A request comes in as a method and
//! a path, and the answer goes out as a [`Response`] value.

pub mod assets;
pub mod cors;
pub mod handlers;
pub mod mime;
pub mod path;
pub mod response;
pub mod router;

pub use assets::{AssetEntry, AssetTable};
pub use cors::{cors_policy, CorsPolicy};
pub use handlers::{hello_handler, index_html, not_found, static_handler, INDEX_HTML};
pub use response::{Body, Message, Response};
pub use router::{handle, Method, HELLO_PATH};
