use spa_server::{
    hello_handler, index_html, not_found, static_handler, AssetEntry, AssetTable, Body, Message,
    Response, INDEX_HTML,
};

const INDEX: &[u8] = b"<!doctype html><div id=\"app\"></div>";
const SCRIPT: &[u8] = b"console.log(1)";

fn bundle() -> AssetTable {
    let mut table = AssetTable::new();
    table.insert("index.html".to_string(), INDEX.to_vec());
    table.insert("assets/app.js".to_string(), SCRIPT.to_vec());
    table.insert("style.css".to_string(), b"body{}".to_vec());
    table.insert("LICENSE".to_string(), b"MIT".to_vec());
    table
}

fn page_404() -> Response<'static> {
    Response { status: 404, content_type: None, body: Body::Bytes(b"404") }
}

fn index_page() -> Response<'static> {
    Response { status: 200, content_type: Some("text/html"), body: Body::Bytes(INDEX) }
}

#[test]
fn hello_handler_returns_the_greeting() {
    assert_eq!(hello_handler(), Message { message: "Hello, World!".to_string() });
}

#[test]
fn not_found_is_404_with_body_404() {
    let response = not_found();
    assert_eq!(response.status, 404);
    assert_eq!(response.content_type, None);
    assert_eq!(response.body, Body::Bytes(&[0x34, 0x30, 0x34]));
    assert_eq!(response, page_404());
}

#[test]
fn index_document_name_is_index_html() {
    assert_eq!(INDEX_HTML, "index.html");
}

#[test]
fn index_html_serves_the_document_as_html() {
    let table = bundle();
    assert_eq!(index_html(&table), index_page());
}

#[test]
fn index_html_is_html_whatever_type_the_entry_has() {
    let mut table = AssetTable::new();
    table.put(AssetEntry::with_media_type(
        "index.html".to_string(),
        INDEX.to_vec(),
        "application/octet-stream".to_string(),
    ));
    assert_eq!(index_html(&table), index_page());
}

#[test]
fn index_html_without_the_document_is_not_found() {
    let mut table = AssetTable::new();
    table.insert("style.css".to_string(), b"body{}".to_vec());
    assert_eq!(index_html(&table), page_404());
    assert_eq!(index_html(&AssetTable::new()), page_404());
}

#[test]
fn listed_paths_are_served_with_their_bytes() {
    let table = bundle();
    for (path, bytes) in [
        ("/index.html", INDEX),
        ("/assets/app.js", SCRIPT),
        ("/style.css", b"body{}".as_slice()),
        ("/LICENSE", b"MIT".as_slice()),
    ] {
        let response = static_handler(&table, path);
        assert_eq!(response.status, 200);
        assert_eq!(response.body, Body::Bytes(bytes));
    }
}

#[test]
fn listed_asset_has_the_inferred_media_type() {
    let table = bundle();
    assert_eq!(
        static_handler(&table, "/style.css"),
        Response { status: 200, content_type: Some("text/css"), body: Body::Bytes(b"body{}") }
    );
    assert_eq!(
        static_handler(&table, "/LICENSE"),
        Response {
            status: 200,
            content_type: Some("application/octet-stream"),
            body: Body::Bytes(b"MIT"),
        }
    );
}

#[test]
fn listed_asset_has_the_media_type_of_its_entry() {
    let mut table = AssetTable::new();
    table.put(AssetEntry::with_media_type(
        "feed".to_string(),
        b"<rss/>".to_vec(),
        "application/rss+xml".to_string(),
    ));
    assert_eq!(
        static_handler(&table, "/feed"),
        Response {
            status: 200,
            content_type: Some("application/rss+xml"),
            body: Body::Bytes(b"<rss/>"),
        }
    );
}

#[test]
fn root_and_index_path_serve_the_same_document() {
    let table = bundle();
    let root = static_handler(&table, "/");
    let named = static_handler(&table, "/index.html");
    assert_eq!(root.body, named.body);
    assert_eq!(root, named);
    assert_eq!(root, index_page());
}

#[test]
fn empty_path_serves_the_index_document() {
    let table = bundle();
    assert_eq!(static_handler(&table, ""), index_page());
    assert_eq!(static_handler(&table, "index.html"), index_page());
}

#[test]
fn every_leading_slash_is_dropped() {
    let table = bundle();
    assert_eq!(static_handler(&table, "///"), index_page());
    assert_eq!(static_handler(&table, "//index.html"), index_page());
    assert_eq!(static_handler(&table, "///assets/app.js").body, Body::Bytes(SCRIPT));
    assert_eq!(static_handler(&table, "assets/app.js").body, Body::Bytes(SCRIPT));
}

#[test]
fn unknown_path_with_a_dot_is_not_found() {
    let table = bundle();
    for path in [
        "/missing.js",
        "/assets/app.js.map",
        "/favicon.ico",
        "/.well-known/security",
        "/v1.2/users",
        "/trailing.",
        "/assets/app.js/",
    ] {
        assert_eq!(static_handler(&table, path), page_404());
    }
}

#[test]
fn unknown_path_without_a_dot_serves_the_index_document() {
    let table = bundle();
    for path in ["/about", "/users/42", "/assets", "/assets/", "/a/b/c/d", "/hello/", "/license"] {
        assert_eq!(static_handler(&table, path), index_page());
    }
}

#[test]
fn unknown_route_without_an_index_document_is_not_found() {
    let mut table = AssetTable::new();
    table.insert("style.css".to_string(), b"body{}".to_vec());
    assert_eq!(static_handler(&table, "/about"), page_404());
    assert_eq!(static_handler(&table, "/"), page_404());
    assert_eq!(static_handler(&table, "/index.html"), page_404());
    assert_eq!(static_handler(&table, "/style.css").status, 200);
}

#[test]
fn lookup_is_by_the_exact_key() {
    let table = bundle();
    assert_eq!(static_handler(&table, "/Style.css"), page_404());
    assert_eq!(static_handler(&table, "/app.js"), page_404());
    assert_eq!(static_handler(&table, "/Index.html"), page_404());
}

#[test]
fn entry_under_the_empty_path_is_never_served() {
    let mut table = AssetTable::new();
    table.put(AssetEntry::with_media_type(
        String::new(),
        b"hidden".to_vec(),
        "text/plain".to_string(),
    ));
    assert_eq!(static_handler(&table, "/"), page_404());
    assert_eq!(static_handler(&table, ""), page_404());
}

#[test]
fn entry_with_a_leading_slash_is_never_served() {
    let mut table = AssetTable::new();
    table.put(AssetEntry::with_media_type(
        "/logo.png".to_string(),
        b"png".to_vec(),
        "image/png".to_string(),
    ));
    assert_eq!(static_handler(&table, "/logo.png"), page_404());
    assert_eq!(static_handler(&table, "//logo.png"), page_404());
}

#[test]
fn nested_index_document_is_an_ordinary_asset() {
    let mut table = bundle();
    table.put(AssetEntry::with_media_type(
        "docs/index.html".to_string(),
        b"docs".to_vec(),
        "text/x-docs".to_string(),
    ));
    assert_eq!(
        static_handler(&table, "/docs/index.html"),
        Response { status: 200, content_type: Some("text/x-docs"), body: Body::Bytes(b"docs") }
    );
}
