//! Content-type inference for upload bodies.
//!
//! The MIME type of an upload is guessed from the path's extension with a
//! best-effort table; a path with an unrecognized or missing extension
//! falls back to the generic binary type. The inference never fails.

use vstd::prelude::*;

verus! {

/// The content type that the extension table assigns to `path`: the first
/// guess for the path's extension, or `application/octet-stream` when the
/// table has none. It depends on the path's characters alone.
pub uninterp spec fn inferred_type(path: Seq<char>) -> Seq<char>;

/// Relies on `mime_guess::from_path` and `MimeGuess::first_or_octet_stream`:
/// the guess is a pure function of the path's extension, and when no guess
/// exists the result is `application/octet-stream`, so the result is never
/// empty.
#[verifier::external_body]
fn guess_mime(path: &str) -> (r: String)
    ensures
        r@ == inferred_type(path@),
        r@.len() > 0,
{
    mime_guess::from_path(path).first_or_octet_stream().to_string()
}

/// The content type for an upload from `path`, inferred from its extension.
pub fn content_type_for(path: &str) -> (r: String)
    ensures
        r@ == inferred_type(path@),
        r@.len() > 0,
{
    guess_mime(path)
}

} // verus!
