//! Source classification: decide, from a page's origin-file hint and the
//! outcome of one existence check, how its pixels can be acquired.
//!
//! The decision is recomputed on every call from its inputs alone — nothing
//! here is cached, so a file that appears or disappears between requests is
//! picked up by the next classification.

use vstd::prelude::*;

use crate::text::{chars_eq_str, lower_char_exec, lower_seq, str_to_chars};

verus! {

/// How a page's pixels can be acquired from its origin-file hint.
pub enum SourceType {
    /// The hint names an existing, directly servable raster image file.
    Image(String),
    /// The hint names an existing page-addressable document that must be
    /// rendered one page at a time.
    Pdf(String),
    /// No usable source: the hint is absent or empty, the file is missing,
    /// or its extension is not recognized.
    Unavailable,
}

/// The three-way classification, without the path.
#[derive(Clone, Copy, PartialEq, Eq, Structural, Debug)]
pub enum SourceClass {
    /// A directly servable image file.
    DirectImage,
    /// A document that must be rendered per page.
    RenderableDocument,
    /// Nothing to serve or render from.
    Unavailable,
}

/// The extension of a path: the characters of the final path component after
/// its last `.`, provided that dot is not the component's first character.
/// `None` when the final component has no such dot.
pub open spec fn ext_of(s: Seq<char>) -> Option<Seq<char>>
    decreases s.len(),
{
    if s.len() == 0 {
        Option::None
    } else {
        let c = s[s.len() - 1];
        if c == '/' {
            Option::None
        } else if c == '.' {
            if s.len() >= 2 && s[s.len() - 2] != '/' {
                Option::Some(Seq::empty())
            } else {
                Option::None
            }
        } else {
            match ext_of(s.drop_last()) {
                Option::Some(e) => Option::Some(e.push(c)),
                Option::None => Option::None,
            }
        }
    }
}

/// Whether a (lowercased) extension names a directly servable raster format.
pub open spec fn is_image_ext(e: Seq<char>) -> bool {
    e == "png"@ || e == "jpg"@ || e == "jpeg"@ || e == "webp"@
}

/// The classification of an origin-file hint, given whether the hinted file
/// exists. A pure function of its two inputs: prior calls play no part.
pub open spec fn classify_spec(hint: Option<Seq<char>>, exists: bool) -> SourceClass {
    match hint {
        Option::None => SourceClass::Unavailable,
        Option::Some(p) => {
            if p.len() == 0 || !exists {
                SourceClass::Unavailable
            } else {
                match ext_of(p) {
                    Option::None => SourceClass::Unavailable,
                    Option::Some(e) => {
                        let le = lower_seq(e);
                        if is_image_ext(le) {
                            SourceClass::DirectImage
                        } else if le == "pdf"@ {
                            SourceClass::RenderableDocument
                        } else {
                            SourceClass::Unavailable
                        }
                    },
                }
            }
        },
    }
}

proof fn lemma_ext_scan(s: Seq<char>, j: int)
    requires
        0 <= j < s.len(),
        forall|k: int| j < k < s.len() ==> s[k] != '.' && s[k] != '/',
    ensures
        s[j] == '.' ==> ext_of(s) == (if j >= 1 && s[j - 1] != '/' {
            Option::Some(s.subrange(j + 1, s.len() as int))
        } else {
            Option::<Seq<char>>::None
        }),
        s[j] == '/' ==> ext_of(s) is None,
    decreases s.len(),
{
    if j == s.len() - 1 {
        if s[j] == '.' {
            assert(s.subrange(j + 1, s.len() as int) =~= Seq::empty());
        }
    } else {
        lemma_ext_scan(s.drop_last(), j);
        if s[j] == '.' && j >= 1 && s[j - 1] != '/' {
            assert(s.subrange(j + 1, s.len() as int) =~= s.drop_last().subrange(
                j + 1,
                s.len() - 1,
            ).push(s[s.len() - 1]));
        }
    }
}

proof fn lemma_ext_absent(s: Seq<char>)
    requires
        forall|k: int| 0 <= k < s.len() ==> s[k] != '.' && s[k] != '/',
    ensures
        ext_of(s) is None,
    decreases s.len(),
{
    if s.len() > 0 {
        lemma_ext_absent(s.drop_last());
    }
}

/// The extension of a path held as a character vector, as `ext_of` defines it.
pub fn extension_of(v: &Vec<char>) -> (r: Option<Vec<char>>)
    ensures
        r is Some <==> ext_of(v@) is Some,
        r matches Some(e) ==> ext_of(v@) == Option::Some(e@),
{
    let n = v.len();
    let mut j: usize = n;
    while j > 0
        invariant
            n == v@.len(),
            j <= n,
            forall|k: int| j <= k < n ==> v@[k] != '.' && v@[k] != '/',
        decreases j,
    {
        j = j - 1;
        let c = v[j];
        if c == '/' {
            proof {
                lemma_ext_scan(v@, j as int);
            }
            return None;
        }
        if c == '.' {
            proof {
                lemma_ext_scan(v@, j as int);
            }
            if j >= 1 && v[j - 1] != '/' {
                let mut e: Vec<char> = Vec::new();
                let mut k: usize = j + 1;
                while k < n
                    invariant
                        n == v@.len(),
                        j + 1 <= k <= n,
                        e@ == v@.subrange(j + 1 as int, k as int),
                    decreases n - k,
                {
                    e.push(v[k]);
                    proof {
                        assert(e@ =~= v@.subrange(j + 1 as int, k + 1 as int));
                    }
                    k = k + 1;
                }
                return Some(e);
            } else {
                return None;
            }
        }
    }
    proof {
        lemma_ext_absent(v@);
    }
    None
}

/// Classify a page's origin-file hint. `path_exists` reports the one
/// existence check made for this call; everything else is computed from the
/// hint's characters. Returns the hinted path along with the class, so a
/// caller can serve or render from it directly.
pub fn classify_source(source_path: &Option<String>, path_exists: bool) -> (r: SourceType)
    ensures
        r is Image <==> classify_spec(source_path.deep_view(), path_exists)
            is DirectImage,
        r is Pdf <==> classify_spec(source_path.deep_view(), path_exists)
            is RenderableDocument,
        r is Unavailable <==> classify_spec(source_path.deep_view(), path_exists)
            is Unavailable,
        r matches SourceType::Image(p) ==> p@ == source_path->0@,
        r matches SourceType::Pdf(p) ==> p@ == source_path->0@,
{
    match source_path {
        Option::None => SourceType::Unavailable,
        Option::Some(s) => {
            if s.as_str().is_empty() || !path_exists {
                return SourceType::Unavailable;
            }
            let chars = str_to_chars(s.as_str());
            match extension_of(&chars) {
                Option::None => SourceType::Unavailable,
                Option::Some(e) => {
                    let mut low: Vec<char> = Vec::new();
                    let mut i: usize = 0;
                    let en = e.len();
                    while i < en
                        invariant
                            en == e@.len(),
                            i <= en,
                            low@ == lower_seq(e@.subrange(0, i as int)),
                        decreases en - i,
                    {
                        low.push(lower_char_exec(e[i]));
                        proof {
                            assert(low@ =~= lower_seq(e@.subrange(0, i + 1 as int)));
                        }
                        i = i + 1;
                    }
                    proof {
                        assert(e@.subrange(0, en as int) =~= e@);
                    }
                    if chars_eq_str(&low, "png") || chars_eq_str(&low, "jpg") || chars_eq_str(
                        &low,
                        "jpeg",
                    ) || chars_eq_str(&low, "webp") {
                        SourceType::Image(s.clone())
                    } else if chars_eq_str(&low, "pdf") {
                        SourceType::Pdf(s.clone())
                    } else {
                        SourceType::Unavailable
                    }
                },
            }
        },
    }
}

} // verus!
