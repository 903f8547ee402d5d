//! Deterministic layout of the derived-image cache on disk.
//!
//! Every cache entry is identified by `(tier, namespace, id)` and lives at
//! `root/<tier dir>/<namespace>/<id>.<ext>`: thumbnails and previews are
//! re-encoded WebP derivatives, the original tier stores a render verbatim
//! as PNG. Path construction is pure; no filesystem is consulted.

use vstd::prelude::*;

use crate::numfmt::{i64_to_string, int_rep};

verus! {

/// The fixed derivative kinds the store knows.
#[derive(Clone, Copy, PartialEq, Eq, Structural, Debug)]
pub enum Tier {
    /// Small WebP derivative, at most 200 pixels on the longer side.
    Thumbnail,
    /// Large WebP derivative, at most 1200 pixels on the longer side.
    Preview,
    /// A full-resolution render, stored verbatim.
    Original,
}

/// Name of the top-level subdirectory holding a tier's entries.
pub open spec fn tier_dir_spec(t: Tier) -> Seq<char> {
    match t {
        Tier::Thumbnail => "thumbnails"@,
        Tier::Preview => "previews"@,
        Tier::Original => "originals"@,
    }
}

/// File extension (with the dot) of a tier's entries.
pub open spec fn tier_ext_spec(t: Tier) -> Seq<char> {
    match t {
        Tier::Thumbnail => ".webp"@,
        Tier::Preview => ".webp"@,
        Tier::Original => ".png"@,
    }
}

/// The path of the cache entry `(t, ns, id)` under the root directory.
pub open spec fn entry_path_spec(root: Seq<char>, t: Tier, ns: Seq<char>, id: int) -> Seq<char> {
    root + "/"@ + tier_dir_spec(t) + "/"@ + ns + "/"@ + int_rep(id) + tier_ext_spec(t)
}

/// Name of the top-level subdirectory holding a tier's entries.
pub fn tier_dir(t: Tier) -> (r: &'static str)
    ensures
        r@ == tier_dir_spec(t),
{
    proof {
        reveal_strlit("thumbnails");
        reveal_strlit("previews");
        reveal_strlit("originals");
    }
    match t {
        Tier::Thumbnail => "thumbnails",
        Tier::Preview => "previews",
        Tier::Original => "originals",
    }
}

/// File extension (with the dot) of a tier's entries.
pub fn tier_ext(t: Tier) -> (r: &'static str)
    ensures
        r@ == tier_ext_spec(t),
{
    proof {
        reveal_strlit(".webp");
        reveal_strlit(".png");
    }
    match t {
        Tier::Thumbnail => ".webp",
        Tier::Preview => ".webp",
        Tier::Original => ".png",
    }
}

/// Build the path of the cache entry `(t, ns, id)` under `root`.
pub fn entry_path(root: &str, t: Tier, ns: &str, id: i64) -> (r: String)
    ensures
        r@ == entry_path_spec(root@, t, ns@, id as int),
{
    proof {
        reveal_strlit("/");
    }
    let mut r = String::new();
    r.append(root);
    r.append("/");
    r.append(tier_dir(t));
    r.append("/");
    r.append(ns);
    r.append("/");
    let id_str = i64_to_string(id);
    r.append(id_str.as_str());
    r.append(tier_ext(t));
    r
}

} // verus!
