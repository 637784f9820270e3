//! File paths of document URIs.

use crate::text::text_view;
use vstd::prelude::*;

verus! {

/// The path component of the URI `uri`, percent-encoded as it stands in the
/// URI; `None` where `uri` is no absolute URL.
pub uninterp spec fn uri_path(uri: Seq<char>) -> Option<Seq<char>>;

/// Parses `uri` with `Url::parse` and takes the path with `Url::path`, both
/// of the URL type that `tower_lsp::lsp_types` hands on. The result is a
/// function of the characters of `uri` alone: the path where `uri` parses,
/// nothing where it does not.
#[verifier::external_body]
pub(crate) fn file_path(uri: &str) -> (path: Option<String>)
    ensures
        text_view(path) == uri_path(uri@),
{
    match tower_lsp::lsp_types::Url::parse(uri) {
        Ok(url) => Some(url.path().to_string()),
        Err(_) => None,
    }
}

} // verus!
