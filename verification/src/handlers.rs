//! The handlers: the greeting, static assets, the index document and the
//! not-found page.

use vstd::prelude::*;
use vstd::utf8::{is_ascii_chars, is_ascii_chars_encode_utf8};

use crate::assets::{AssetTable, Assets};
use crate::path::{
    contains_char, has_char, lemma_trim_leading_keeps, same_text, trim_leading, trim_start,
};
use crate::response::{Body, BodyView, Message, Response, ResponseView};

verus! {

/// The path of the index document in the asset table.
pub const INDEX_HTML: &'static str = "index.html";

/// The body of the not-found page: the text `404`.
pub open spec fn not_found_body() -> Seq<u8> {
    seq![0x34u8, 0x30u8, 0x34u8]
}

/// The not-found page: status 404, no content type, the body `404`.
pub open spec fn not_found_view() -> ResponseView {
    ResponseView { status: 404, content_type: None, body: BodyView::Bytes(not_found_body()) }
}

/// The index document as HTML where the table holds it, else the not-found
/// page.
pub open spec fn index_view(assets: Assets) -> ResponseView {
    if assets.contains_key(INDEX_HTML@) {
        ResponseView {
            status: 200,
            content_type: Some("text/html"@),
            body: BodyView::Bytes(assets[INDEX_HTML@].bytes),
        }
    } else {
        not_found_view()
    }
}

/// The key under which a request path is looked up: the path without its
/// leading slashes.
pub open spec fn asset_key(path: Seq<char>) -> Seq<char> {
    trim_leading(path, '/')
}

/// The response of the static handler to a request path.
///
/// The empty key and the index document's name give the index document. A key
/// of the table gives that asset with its media type. An unknown key with a
/// dot in it is taken for a missing file; one without a dot is taken for a
/// route of the application and gives the index document.
pub open spec fn static_view(assets: Assets, path: Seq<char>) -> ResponseView {
    let key = asset_key(path);
    if key.len() == 0 || key == INDEX_HTML@ {
        index_view(assets)
    } else if assets.contains_key(key) {
        ResponseView {
            status: 200,
            content_type: Some(assets[key].media_type),
            body: BodyView::Bytes(assets[key].bytes),
        }
    } else if has_char(key, '.') {
        not_found_view()
    } else {
        index_view(assets)
    }
}

/// The greeting.
pub fn hello_handler() -> (message: Message)
    ensures
        message@ == "Hello, World!"@,
{
    Message { message: "Hello, World!".to_owned() }
}

/// The not-found page.
pub fn not_found() -> (response: Response<'static>)
    ensures
        response@ == not_found_view(),
{
    let body = "404".as_bytes();
    proof {
        reveal_strlit("404");
        assert(is_ascii_chars("404"@));
        is_ascii_chars_encode_utf8("404"@);
        assert(body@ =~= not_found_body());
    }
    Response { status: 404, content_type: None, body: Body::Bytes(body) }
}

/// The index document, or the not-found page where the table does not hold it.
pub fn index_html<'a>(table: &'a AssetTable) -> (response: Response<'a>)
    ensures
        response@ == index_view(table@),
{
    match table.get(INDEX_HTML) {
        Some(entry) => Response {
            status: 200,
            content_type: Some("text/html"),
            body: Body::Bytes(entry.bytes.as_slice()),
        },
        None => not_found(),
    }
}

/// Resolves a request path against the table.
pub fn static_handler<'a>(table: &'a AssetTable, path: &str) -> (response: Response<'a>)
    ensures
        response@ == static_view(table@, path@),
{
    let key = trim_start(path, '/');
    if key.is_empty() || same_text(key, INDEX_HTML) {
        return index_html(table);
    }
    match table.get(key) {
        Some(entry) => Response {
            status: 200,
            content_type: Some(entry.media_type.as_str()),
            body: Body::Bytes(entry.bytes.as_slice()),
        },
        None => {
            if contains_char(key, '.') {
                not_found()
            } else {
                index_html(table)
            }
        },
    }
}

/// A request whose key the table lists is answered with status 200 and the
/// bytes stored under that key. The empty key is left out: it asks for the
/// index document, whatever the table holds under the empty path.
pub proof fn lemma_listed_asset_is_served(assets: Assets, path: Seq<char>)
    requires
        assets.contains_key(asset_key(path)),
        asset_key(path).len() > 0,
    ensures
        static_view(assets, path).status == 200,
        static_view(assets, path).body == BodyView::Bytes(assets[asset_key(path)].bytes),
{
}

/// A key that does not begin with a slash is what the request for it, with
/// one slash in front, looks up.
pub proof fn lemma_key_of_rooted_path(key: Seq<char>)
    requires
        key.len() == 0 || key[0] != '/',
    ensures
        asset_key(seq!['/'] + key) == key,
        asset_key(key) == key,
{
    let rooted = seq!['/'] + key;
    assert(rooted[0] == '/');
    assert(rooted.drop_first() =~= key);
    assert(trim_leading(key, '/') == key);
    assert(trim_leading(rooted, '/') == trim_leading(rooted.drop_first(), '/'));
}

/// The root path and the path of the index document are answered alike: with
/// the index document, which has status 200 and the stored bytes where the
/// table holds it.
pub proof fn lemma_root_serves_index(assets: Assets)
    ensures
        static_view(assets, "/"@) == index_view(assets),
        static_view(assets, "/index.html"@) == index_view(assets),
        assets.contains_key(INDEX_HTML@) ==> index_view(assets).status == 200 && index_view(
            assets,
        ).body == BodyView::Bytes(assets[INDEX_HTML@].bytes),
{
    reveal_strlit("/");
    reveal_strlit("/index.html");
    reveal_strlit("index.html");
    assert("/"@.drop_first() =~= Seq::<char>::empty());
    assert("/index.html"@.drop_first() =~= "index.html"@);
    assert(trim_leading("/"@.drop_first(), '/') == Seq::<char>::empty());
    assert(trim_leading("/index.html"@.drop_first(), '/') == "index.html"@);
}

/// A path with a dot in it whose key the table does not list is answered with
/// the not-found page.
pub proof fn lemma_unknown_file_is_not_found(assets: Assets, path: Seq<char>)
    requires
        !assets.contains_key(asset_key(path)),
        has_char(path, '.'),
    ensures
        static_view(assets, path) == not_found_view(),
{
    lemma_trim_leading_keeps(path, '/', '.');
}

/// A path without a dot whose key the table does not list is answered with
/// the index document.
pub proof fn lemma_unknown_route_serves_index(assets: Assets, path: Seq<char>)
    requires
        !assets.contains_key(asset_key(path)),
        !has_char(path, '.'),
    ensures
        static_view(assets, path) == index_view(assets),
{
    lemma_trim_leading_keeps(path, '/', '.');
}

} // verus!
