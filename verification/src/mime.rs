//! Media types inferred from file names.

use vstd::prelude::*;

verus! {

/// The media type that `mime_guess` infers for `path`: the first entry its
/// table lists for the path's extension, whatever the case of its letters, or
/// `application/octet-stream` where the path has no extension or the table
/// does not know it. The extension is the one that
/// `std::path::Path::extension` finds.
pub uninterp spec fn guessed_media_type(path: Seq<char>) -> Seq<char>;

/// Calls `mime_guess::from_path(path).first_or_octet_stream()` and returns the
/// media type as text.
///
/// Trusted: the result is the guess named by [`guessed_media_type`]. The
/// lookup reads only the characters of `path` and a table that is compiled
/// into `mime_guess`; it touches no file. `mime_guess` parses the table entry
/// it picks and would panic on a malformed one; its table holds none.
#[verifier::external_body]
pub(crate) fn guess_media_type(path: &str) -> (media_type: String)
    ensures
        media_type@ == guessed_media_type(path@),
{
    let guess = mime_guess::from_path(path).first_or_octet_stream();
    let text: &str = guess.as_ref();
    text.to_string()
}

} // verus!
