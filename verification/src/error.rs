//! Errors of the derived-image store and of page resolution.

use vstd::prelude::*;

use crate::numfmt::{i64_to_string, int_rep};

verus! {

/// Failure of a derivative generation.
#[derive(Clone, Copy, PartialEq, Eq, Structural, Debug)]
pub enum CacheError {
    /// The raw bytes are not a decodable image (or decode to an image with
    /// an empty side), so no derivative can be produced from them.
    ImageDecode,
}

impl CacheError {
    /// A human-readable description of the failure.
    pub fn message(&self) -> (r: String)
        ensures
            r@ == "Failed to decode image"@,
    {
        proof {
            reveal_strlit("Failed to decode image");
        }
        String::from_str("Failed to decode image")
    }
}

/// Failure of a page or chunk resolution: every tier of the fallback chain
/// was exhausted.
#[derive(Clone, Copy, PartialEq, Eq, Structural, Debug)]
pub enum ResolveError {
    /// The page has no image chunks, so there is nothing to derive from.
    NoChunks {
        /// The page that was asked for.
        page_id: i64,
    },
    /// No source file, no cached render and no stored binary content exists
    /// for the page.
    NoImageContents {
        /// The page that was asked for.
        page_id: i64,
    },
    /// Binary content was found but could not be decoded as an image.
    ImageDecode,
}

impl ResolveError {
    /// A human-readable description of the failure, naming the page.
    pub fn message(&self) -> (r: String)
        ensures
            *self matches ResolveError::NoChunks { page_id } ==> r@ == "Page "@ + int_rep(
                page_id as int,
            ) + " has no image chunks"@,
            *self matches ResolveError::NoImageContents { page_id } ==> r@ == "Page "@ + int_rep(
                page_id as int,
            ) + " has no image contents"@,
            *self is ImageDecode ==> r@ == "Failed to decode image"@,
    {
        proof {
            reveal_strlit("Page ");
            reveal_strlit(" has no image chunks");
            reveal_strlit(" has no image contents");
            reveal_strlit("Failed to decode image");
        }
        match self {
            ResolveError::NoChunks { page_id } => {
                let mut r = String::from_str("Page ");
                let id_str = i64_to_string(*page_id);
                r.append(id_str.as_str());
                r.append(" has no image chunks");
                r
            },
            ResolveError::NoImageContents { page_id } => {
                let mut r = String::from_str("Page ");
                let id_str = i64_to_string(*page_id);
                r.append(id_str.as_str());
                r.append(" has no image contents");
                r
            },
            ResolveError::ImageDecode => String::from_str("Failed to decode image"),
        }
    }
}

} // verus!
