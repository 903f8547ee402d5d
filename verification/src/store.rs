//! The derived-image store: the authoritative model of the cache directory.
//!
//! Entries are keyed by `(tier, namespace, id)`; the presence of an entry is
//! the cache-hit signal, and an existing entry is never replaced (first
//! writer wins). Clearing is coarse: everything, or one namespace's
//! thumbnails and previews.

use vstd::prelude::*;

use crate::error::CacheError;
use crate::image_ops::{decode_image, derivable, derived_webp, encode_webp, fit_dimensions, resize_image};
use crate::paths::{entry_path, entry_path_spec, Tier};
use crate::text::str_eq;

verus! {

/// Longer-side bound of a thumbnail derivative, in pixels.
pub const THUMBNAIL_SIZE: u32 = 200;

/// Longer-side bound of a preview derivative, in pixels.
pub const PREVIEW_SIZE: u32 = 1200;

/// One cached file: its key and its content.
pub struct CacheEntry {
    /// Which derivative kind this entry belongs to.
    pub tier: Tier,
    /// The workspace partition the entry belongs to.
    pub namespace: String,
    /// The source row id the entry was derived from.
    pub id: i64,
    /// The encoded file content.
    pub bytes: Vec<u8>,
}

impl CacheEntry {
    /// Whether this entry has the key `(t, ns, id)`.
    pub open spec fn is_key(self, t: Tier, ns: Seq<char>, id: int) -> bool {
        self.tier == t && self.namespace@ == ns && self.id as int == id
    }
}

/// Whether some entry of `s` has the key `(t, ns, id)`.
pub open spec fn seq_has_key(s: Seq<CacheEntry>, t: Tier, ns: Seq<char>, id: int) -> bool {
    exists|i: int| 0 <= i < s.len() && s[i].is_key(t, ns, id)
}

/// The content of the entry of `s` with key `(t, ns, id)`.
pub open spec fn seq_content(s: Seq<CacheEntry>, t: Tier, ns: Seq<char>, id: int) -> Seq<u8> {
    let i = choose|i: int| 0 <= i < s.len() && s[i].is_key(t, ns, id);
    s[i].bytes@
}

/// No two entries of `s` share a key.
pub open spec fn seq_unique_keys(s: Seq<CacheEntry>) -> bool {
    forall|i: int, j: int|
        0 <= i < j < s.len() ==> !s[j].is_key(s[i].tier, s[i].namespace@, s[i].id as int)
}

/// Total number of content bytes over all entries of `s`.
pub open spec fn seq_total_size(s: Seq<CacheEntry>) -> nat
    decreases s.len(),
{
    if s.len() == 0 {
        0
    } else {
        seq_total_size(s.drop_last()) + s.last().bytes@.len()
    }
}

/// Whether an entry is a thumbnail or preview derivative of namespace `ns` —
/// exactly what a namespace-scoped clear removes.
pub open spec fn derived_in_namespace(e: CacheEntry, ns: Seq<char>) -> bool {
    e.namespace@ == ns && (e.tier is Thumbnail || e.tier is Preview)
}


/// Invariant of the namespace-clear sweep: `kept` holds exactly the
/// survivors among the entries of `orig` from position `m` on. `src` names,
/// for each kept entry, the position it came from (strictly decreasing), and
/// `dst` names, for each surviving original position, where it went.
pub open spec fn clear_loop_inv(
    orig: Seq<CacheEntry>,
    ns: Seq<char>,
    m: int,
    kept: Seq<CacheEntry>,
    src: Seq<int>,
    dst: Map<int, int>,
) -> bool {
    &&& src.len() == kept.len()
    &&& forall|j: int| #![trigger src[j]]
        0 <= j < kept.len() ==> m <= src[j] < orig.len() && kept[j] == orig[src[j]]
            && !derived_in_namespace(orig[src[j]], ns)
    &&& forall|j1: int, j2: int| 0 <= j1 < j2 < src.len() ==> src[j1] > src[j2]
    &&& forall|j0: int| #![trigger dst[j0]]
        m <= j0 < orig.len() && !derived_in_namespace(orig[j0], ns) ==> 0 <= dst[j0] < kept.len()
            && kept[dst[j0]] == orig[j0]
}

proof fn lemma_clear_push(
    orig: Seq<CacheEntry>,
    ns: Seq<char>,
    m: int,
    kept0: Seq<CacheEntry>,
    src0: Seq<int>,
    dst0: Map<int, int>,
)
    requires
        seq_unique_keys(orig),
        1 <= m <= orig.len(),
        !derived_in_namespace(orig[m - 1], ns),
        clear_loop_inv(orig, ns, m, kept0, src0, dst0),
    ensures
        clear_loop_inv(
            orig,
            ns,
            m - 1,
            kept0.push(orig[m - 1]),
            src0.push(m - 1),
            dst0.insert(m - 1, kept0.len() as int),
        ),
{
    let kept1 = kept0.push(orig[m - 1]);
    let src1 = src0.push(m - 1);
    let dst1 = dst0.insert(m - 1, kept0.len() as int);
    assert forall|j: int| #![trigger src1[j]] 0 <= j < kept1.len() implies m - 1 <= src1[j]
        < orig.len() && kept1[j] == orig[src1[j]] && !derived_in_namespace(orig[src1[j]], ns) by {
        if j < kept0.len() {
            assert(src1[j] == src0[j]);
            assert(kept1[j] == kept0[j]);
        }
    }
    assert forall|j0: int| #![trigger dst1[j0]]
        m - 1 <= j0 < orig.len() && !derived_in_namespace(orig[j0], ns) implies 0 <= dst1[j0]
        < kept1.len() && kept1[dst1[j0]] == orig[j0] by {
        if j0 != m - 1 {
            assert(dst1[j0] == dst0[j0]);
        }
    }
}

proof fn lemma_clear_skip(
    orig: Seq<CacheEntry>,
    ns: Seq<char>,
    m: int,
    kept: Seq<CacheEntry>,
    src: Seq<int>,
    dst: Map<int, int>,
)
    requires
        1 <= m <= orig.len(),
        derived_in_namespace(orig[m - 1], ns),
        clear_loop_inv(orig, ns, m, kept, src, dst),
    ensures
        clear_loop_inv(orig, ns, m - 1, kept, src, dst),
{
}

proof fn lemma_clear_final(
    orig: Seq<CacheEntry>,
    ns: Seq<char>,
    kept: Seq<CacheEntry>,
    src: Seq<int>,
    dst: Map<int, int>,
)
    requires
        seq_unique_keys(orig),
        clear_loop_inv(orig, ns, 0, kept, src, dst),
    ensures
        seq_unique_keys(kept),
        forall|t: Tier, n: Seq<char>, id: int|
            #[trigger] seq_has_key(kept, t, n, id) <==> (seq_has_key(orig, t, n, id) && !(n == ns
                && (t is Thumbnail || t is Preview))),
        forall|t: Tier, n: Seq<char>, id: int|
            seq_has_key(kept, t, n, id) ==> #[trigger] seq_content(kept, t, n, id) == seq_content(
                orig,
                t,
                n,
                id,
            ),
{
    assert forall|i: int, j: int| 0 <= i < j < kept.len() implies !kept[j].is_key(
        kept[i].tier,
        kept[i].namespace@,
        kept[i].id as int,
    ) by {
        assert(kept[i] == orig[src[i]]);
        assert(kept[j] == orig[src[j]]);
        assert(src[j] < src[i]);
        assert(!orig[src[i]].is_key(
            orig[src[j]].tier,
            orig[src[j]].namespace@,
            orig[src[j]].id as int,
        ));
    }
    assert forall|t: Tier, n: Seq<char>, id: int| #[trigger]
        seq_has_key(kept, t, n, id) implies (seq_has_key(orig, t, n, id) && !(n == ns && (t
        is Thumbnail || t is Preview))) by {
        let j = choose|j: int| 0 <= j < kept.len() && kept[j].is_key(t, n, id);
        assert(kept[j] == orig[src[j]]);
        assert(orig[src[j]].is_key(t, n, id));
    }
    assert forall|t: Tier, n: Seq<char>, id: int|
        (seq_has_key(orig, t, n, id) && !(n == ns && (t is Thumbnail || t
        is Preview))) implies #[trigger] seq_has_key(kept, t, n, id) by {
        let i = choose|i: int| 0 <= i < orig.len() && orig[i].is_key(t, n, id);
        assert(!derived_in_namespace(orig[i], ns));
        assert(kept[dst[i]] == orig[i]);
        assert(kept[dst[i]].is_key(t, n, id));
    }
    assert forall|t: Tier, n: Seq<char>, id: int|
        seq_has_key(kept, t, n, id) implies #[trigger] seq_content(kept, t, n, id) == seq_content(
        orig,
        t,
        n,
        id,
    ) by {
        let j = choose|j: int| 0 <= j < kept.len() && kept[j].is_key(t, n, id);
        assert(kept[j] == orig[src[j]]);
        assert(orig[src[j]].is_key(t, n, id));
        let i = choose|i: int| 0 <= i < orig.len() && orig[i].is_key(t, n, id);
        assert(i == src[j]);
    }
}

/// The derived-image store. It records, for every cache key, whether an
/// entry exists and what its content is; the cache directory on disk is a
/// mirror of this state.
pub struct CacheManager {
    cache_dir: String,
    entries: Vec<CacheEntry>,
}

impl CacheManager {
    /// The root directory of the cache.
    pub closed spec fn root(self) -> Seq<char> {
        self.cache_dir@
    }

    /// Well-formed: no key occurs twice.
    pub closed spec fn wf(self) -> bool {
        seq_unique_keys(self.entries@)
    }

    /// Whether the store holds an entry with key `(t, ns, id)`.
    pub closed spec fn has_entry(self, t: Tier, ns: Seq<char>, id: int) -> bool {
        seq_has_key(self.entries@, t, ns, id)
    }

    /// The content of the entry with key `(t, ns, id)`.
    pub closed spec fn content_of(self, t: Tier, ns: Seq<char>, id: int) -> Seq<u8> {
        seq_content(self.entries@, t, ns, id)
    }

    /// The deterministic path of the entry with key `(t, ns, id)`.
    pub open spec fn path_of(self, t: Tier, ns: Seq<char>, id: int) -> Seq<char> {
        entry_path_spec(self.root(), t, ns, id)
    }

    /// Total number of content bytes in the store.
    pub closed spec fn total_size(self) -> nat {
        seq_total_size(self.entries@)
    }

    /// A fresh, empty store rooted at `cache_dir`.
    pub fn new(cache_dir: String) -> (r: Self)
        ensures
            r.wf(),
            r.root() == cache_dir@,
            forall|t: Tier, n: Seq<char>, id: int| !r.has_entry(t, n, id),
            r.total_size() == 0,
    {
        CacheManager { cache_dir, entries: Vec::new() }
    }

    /// The root directory of the cache.
    pub fn cache_dir(&self) -> (r: &str)
        ensures
            r@ == self.root(),
    {
        self.cache_dir.as_str()
    }

    /// Path a thumbnail for `chunk_id` lives at, whether or not it exists.
    pub fn thumbnail_path(&self, db_name: &str, chunk_id: &i64) -> (r: String)
        ensures
            r@ == self.path_of(Tier::Thumbnail, db_name@, *chunk_id as int),
    {
        entry_path(self.cache_dir.as_str(), Tier::Thumbnail, db_name, *chunk_id)
    }

    /// Path a preview for `chunk_id` lives at, whether or not it exists.
    pub fn preview_path(&self, db_name: &str, chunk_id: &i64) -> (r: String)
        ensures
            r@ == self.path_of(Tier::Preview, db_name@, *chunk_id as int),
    {
        entry_path(self.cache_dir.as_str(), Tier::Preview, db_name, *chunk_id)
    }

    /// Path a stored original for `page_id` lives at, whether or not it exists.
    pub fn original_path(&self, db_name: &str, page_id: &i64) -> (r: String)
        ensures
            r@ == self.path_of(Tier::Original, db_name@, *page_id as int),
    {
        entry_path(self.cache_dir.as_str(), Tier::Original, db_name, *page_id)
    }

    /// Index of the entry with key `(t, ns, id)`, if any.
    fn find(&self, t: Tier, ns: &str, id: i64) -> (r: Option<usize>)
        ensures
            match r {
                Some(i) => 0 <= i < self.entries@.len() && self.entries@[i as int].is_key(
                    t,
                    ns@,
                    id as int,
                ),
                None => !self.has_entry(t, ns@, id as int),
            },
    {
        let n = self.entries.len();
        let mut i: usize = 0;
        while i < n
            invariant
                n == self.entries@.len(),
                i <= n,
                forall|j: int| 0 <= j < i ==> !self.entries@[j].is_key(t, ns@, id as int),
            decreases n - i,
        {
            let e = &self.entries[i];
            if e.tier == t && e.id == id && str_eq(e.namespace.as_str(), ns) {
                return Some(i);
            }
            i = i + 1;
        }
        None
    }

    /// Whether an entry with key `(t, ns, id)` exists.
    pub fn has(&self, t: Tier, db_name: &str, id: i64) -> (r: bool)
        ensures
            r == self.has_entry(t, db_name@, id as int),
    {
        self.find(t, db_name, id).is_some()
    }

    /// Whether a thumbnail for `chunk_id` is cached.
    pub fn has_thumbnail(&self, db_name: &str, chunk_id: &i64) -> (r: bool)
        ensures
            r == self.has_entry(Tier::Thumbnail, db_name@, *chunk_id as int),
    {
        self.has(Tier::Thumbnail, db_name, *chunk_id)
    }

    /// Whether a preview for `chunk_id` is cached.
    pub fn has_preview(&self, db_name: &str, chunk_id: &i64) -> (r: bool)
        ensures
            r == self.has_entry(Tier::Preview, db_name@, *chunk_id as int),
    {
        self.has(Tier::Preview, db_name, *chunk_id)
    }

    /// Whether an original render for `page_id` is cached.
    pub fn has_original(&self, db_name: &str, page_id: &i64) -> (r: bool)
        ensures
            r == self.has_entry(Tier::Original, db_name@, *page_id as int),
    {
        self.has(Tier::Original, db_name, *page_id)
    }

    /// The content of the entry with key `(t, ns, id)`, if any.
    pub fn entry_content(&self, t: Tier, db_name: &str, id: i64) -> (r: Option<&Vec<u8>>)
        requires
            self.wf(),
        ensures
            match r {
                Some(b) => self.has_entry(t, db_name@, id as int) && b@ == self.content_of(
                    t,
                    db_name@,
                    id as int,
                ),
                None => !self.has_entry(t, db_name@, id as int),
            },
    {
        match self.find(t, db_name, id) {
            Some(i) => {
                let b = &self.entries[i].bytes;
                proof {
                    let j = choose|j: int|
                        0 <= j < self.entries@.len() && self.entries@[j].is_key(
                            t,
                            db_name@,
                            id as int,
                        );
                    assert(j == i);
                }
                Some(b)
            },
            None => None,
        }
    }

    /// Add an entry whose key is not present yet.
    fn insert_entry(&mut self, e: CacheEntry)
        requires
            old(self).wf(),
            !old(self).has_entry(e.tier, e.namespace@, e.id as int),
        ensures
            final(self).wf(),
            final(self).root() == old(self).root(),
            final(self).entries@ == old(self).entries@.push(e),
            forall|t: Tier, n: Seq<char>, id: int|
                #[trigger] final(self).has_entry(t, n, id) <==> old(self).has_entry(t, n, id) || (t
                    == e.tier && n == e.namespace@ && id == e.id as int),
            forall|t: Tier, n: Seq<char>, id: int|
                old(self).has_entry(t, n, id) ==> #[trigger] final(self).content_of(t, n, id) == old(
                    self,
                ).content_of(t, n, id),
            final(self).content_of(e.tier, e.namespace@, e.id as int) == e.bytes@,
            final(self).total_size() == old(self).total_size() + e.bytes@.len(),
    {
        let ghost olds = self.entries@;
        let ghost enew = e;
        self.entries.push(e);
        proof {
            let news = self.entries@;
            assert(news.drop_last() =~= olds);
            assert forall|t: Tier, n: Seq<char>, id: int| #[trigger]
                seq_has_key(news, t, n, id) implies seq_has_key(olds, t, n, id) || (t == enew.tier
                && n == enew.namespace@ && id == enew.id as int) by {
                let i = choose|i: int| 0 <= i < news.len() && news[i].is_key(t, n, id);
                if i < olds.len() {
                    assert(olds[i].is_key(t, n, id));
                }
            }
            assert forall|t: Tier, n: Seq<char>, id: int| seq_has_key(olds, t, n, id) || (t
                == enew.tier && n == enew.namespace@ && id
                == enew.id as int) implies #[trigger] seq_has_key(news, t, n, id) by {
                if seq_has_key(olds, t, n, id) {
                    let i = choose|i: int| 0 <= i < olds.len() && olds[i].is_key(t, n, id);
                    assert(news[i].is_key(t, n, id));
                } else {
                    assert(news[olds.len() as int].is_key(t, n, id));
                }
            }
            assert forall|t: Tier, n: Seq<char>, id: int|
                seq_has_key(olds, t, n, id) implies #[trigger] seq_content(news, t, n, id)
                == seq_content(olds, t, n, id) by {
                let i = choose|i: int| 0 <= i < olds.len() && olds[i].is_key(t, n, id);
                let j = choose|j: int| 0 <= j < news.len() && news[j].is_key(t, n, id);
                assert(news[i].is_key(t, n, id));
                if j < olds.len() {
                    assert(olds[j].is_key(t, n, id));
                }
            }
            assert(news[olds.len() as int].is_key(enew.tier, enew.namespace@, enew.id as int));
            let j = choose|j: int|
                0 <= j < news.len() && news[j].is_key(enew.tier, enew.namespace@, enew.id as int);
            if j < olds.len() {
                assert(olds[j].is_key(enew.tier, enew.namespace@, enew.id as int));
            }
            assert(seq_unique_keys(news)) by {
                assert forall|i: int, j: int| 0 <= i < j < news.len() implies !news[j].is_key(
                    news[i].tier,
                    news[i].namespace@,
                    news[i].id as int,
                ) by {
                    if j < olds.len() {
                    } else {
                        if news[j].is_key(news[i].tier, news[i].namespace@, news[i].id as int) {
                            assert(olds[i].is_key(enew.tier, enew.namespace@, enew.id as int));
                        }
                    }
                }
            }
        }
    }

    /// Store a render verbatim in the original tier. If an entry for this
    /// page already exists it stays untouched; otherwise the bytes are
    /// recorded as the entry's content. Returns the entry's path either way.
    pub fn save_original(&mut self, bytes: &[u8], db_name: &str, page_id: &i64) -> (r: String)
        requires
            old(self).wf(),
        ensures
            final(self).wf(),
            final(self).root() == old(self).root(),
            r@ == old(self).path_of(Tier::Original, db_name@, *page_id as int),
            old(self).has_entry(Tier::Original, db_name@, *page_id as int) ==> *final(self) == *old(self),
            !old(self).has_entry(Tier::Original, db_name@, *page_id as int) ==> {
                &&& final(self).has_entry(Tier::Original, db_name@, *page_id as int)
                &&& final(self).content_of(Tier::Original, db_name@, *page_id as int) == bytes@
                &&& final(self).total_size() == old(self).total_size() + bytes@.len()
            },
            forall|t: Tier, n: Seq<char>, id: int|
                #[trigger] final(self).has_entry(t, n, id) <==> old(self).has_entry(t, n, id) || (t
                    is Original && n == db_name@ && id == *page_id as int),
            forall|t: Tier, n: Seq<char>, id: int|
                old(self).has_entry(t, n, id) ==> #[trigger] final(self).content_of(t, n, id) == old(
                    self,
                ).content_of(t, n, id),
    {
        let path = self.original_path(db_name, page_id);
        if self.find(Tier::Original, db_name, *page_id).is_none() {
            let content: Vec<u8> = vstd::slice::slice_to_vec(bytes);
            let e = CacheEntry {
                tier: Tier::Original,
                namespace: String::from_str(db_name),
                id: *page_id,
                bytes: content,
            };
            self.insert_entry(e);
        }
        path
    }

    /// Convert raw image bytes into a derivative at `max_dim` and persist it
    /// under `(tier, db_name, id)`. If an entry with that key already exists
    /// the store is untouched and its path is returned unchanged — the first
    /// writer wins, and a second call with different bytes changes nothing.
    /// Otherwise the bytes are decoded, resized to fit a `max_dim` square and
    /// re-encoded; undecodable bytes (or an image with an empty side) leave
    /// the store untouched and fail with a decode error.
    pub fn store_derivative(
        &mut self,
        tier: Tier,
        db_name: &str,
        id: &i64,
        raw: &[u8],
        max_dim: u32,
    ) -> (r: Result<String, CacheError>)
        requires
            old(self).wf(),
            1 <= max_dim <= 16384,
        ensures
            final(self).wf(),
            final(self).root() == old(self).root(),
            r matches Ok(p) ==> p@ == old(self).path_of(tier, db_name@, *id as int),
            r is Ok <==> (old(self).has_entry(tier, db_name@, *id as int) || derivable(raw@)),
            r is Err ==> *final(self) == *old(self) && r == Err::<String, CacheError>(
                CacheError::ImageDecode,
            ),
            old(self).has_entry(tier, db_name@, *id as int) ==> *final(self) == *old(self),
            !old(self).has_entry(tier, db_name@, *id as int) && derivable(raw@) ==> final(self).has_entry(tier, db_name@, *id as int) && final(self).content_of(
                tier,
                db_name@,
                *id as int,
            ) == derived_webp(raw@, max_dim),
            forall|t: Tier, n: Seq<char>, i: int|
                #[trigger] final(self).has_entry(t, n, i) <==> old(self).has_entry(t, n, i) || (r
                    is Ok && t == tier && n == db_name@ && i == *id as int),
            forall|t: Tier, n: Seq<char>, i: int|
                old(self).has_entry(t, n, i) ==> #[trigger] final(self).content_of(t, n, i) == old(
                    self,
                ).content_of(t, n, i),
    {
        let path = entry_path(self.cache_dir.as_str(), tier, db_name, *id);
        if self.find(tier, db_name, *id).is_some() {
            return Ok(path);
        }
        match decode_image(raw) {
            Option::None => Err(CacheError::ImageDecode),
            Option::Some(bm) => {
                if bm.width == 0 || bm.height == 0 {
                    Err(CacheError::ImageDecode)
                } else {
                    let dims = fit_dimensions(bm.width, bm.height, max_dim);
                    proof {
                        assert(4 * dims.0 * dims.1 <= 4 * 16384 * 16384) by (nonlinear_arith)
                            requires
                                1 <= dims.0 <= 16384,
                                1 <= dims.1 <= 16384,
                        ;
                    }
                    let resized = resize_image(&bm, dims.0, dims.1);
                    let webp = encode_webp(&resized);
                    let e = CacheEntry {
                        tier,
                        namespace: String::from_str(db_name),
                        id: *id,
                        bytes: webp,
                    };
                    self.insert_entry(e);
                    Ok(path)
                }
            },
        }
    }

    /// Generate and cache a thumbnail (at most 200 pixels on the longer
    /// side) for `chunk_id` from raw image bytes; an already cached
    /// thumbnail is left as it is. Returns the thumbnail's path.
    pub fn generate_thumbnail_from_bytes(
        &mut self,
        image_bytes: &[u8],
        db_name: &str,
        chunk_id: &i64,
    ) -> (r: Result<String, CacheError>)
        requires
            old(self).wf(),
        ensures
            final(self).wf(),
            final(self).root() == old(self).root(),
            r matches Ok(p) ==> p@ == old(self).path_of(Tier::Thumbnail, db_name@, *chunk_id as int),
            r is Ok <==> (old(self).has_entry(Tier::Thumbnail, db_name@, *chunk_id as int)
                || derivable(image_bytes@)),
            r is Err ==> *final(self) == *old(self),
            old(self).has_entry(Tier::Thumbnail, db_name@, *chunk_id as int) ==> *final(self)
                == *old(self),
            !old(self).has_entry(Tier::Thumbnail, db_name@, *chunk_id as int) && derivable(
                image_bytes@,
            ) ==> final(self).has_entry(Tier::Thumbnail, db_name@, *chunk_id as int) && final(self).content_of(Tier::Thumbnail, db_name@, *chunk_id as int) == derived_webp(
                image_bytes@,
                THUMBNAIL_SIZE,
            ),
            forall|t: Tier, n: Seq<char>, i: int|
                #[trigger] final(self).has_entry(t, n, i) <==> old(self).has_entry(t, n, i) || (r
                    is Ok && t == Tier::Thumbnail && n == db_name@ && i == *chunk_id as int),
            forall|t: Tier, n: Seq<char>, i: int|
                old(self).has_entry(t, n, i) ==> #[trigger] final(self).content_of(t, n, i) == old(
                    self,
                ).content_of(t, n, i),
    {
        self.store_derivative(Tier::Thumbnail, db_name, chunk_id, image_bytes, THUMBNAIL_SIZE)
    }

    /// Generate and cache a preview (at most 1200 pixels on the longer side)
    /// for `chunk_id` from raw image bytes; an already cached preview is
    /// left as it is. Returns the preview's path.
    pub fn generate_preview_from_bytes(
        &mut self,
        image_bytes: &[u8],
        db_name: &str,
        chunk_id: &i64,
    ) -> (r: Result<String, CacheError>)
        requires
            old(self).wf(),
        ensures
            final(self).wf(),
            final(self).root() == old(self).root(),
            r matches Ok(p) ==> p@ == old(self).path_of(Tier::Preview, db_name@, *chunk_id as int),
            r is Ok <==> (old(self).has_entry(Tier::Preview, db_name@, *chunk_id as int)
                || derivable(image_bytes@)),
            r is Err ==> *final(self) == *old(self),
            old(self).has_entry(Tier::Preview, db_name@, *chunk_id as int) ==> *final(self)
                == *old(self),
            !old(self).has_entry(Tier::Preview, db_name@, *chunk_id as int) && derivable(
                image_bytes@,
            ) ==> final(self).has_entry(Tier::Preview, db_name@, *chunk_id as int) && final(self).content_of(Tier::Preview, db_name@, *chunk_id as int) == derived_webp(
                image_bytes@,
                PREVIEW_SIZE,
            ),
            forall|t: Tier, n: Seq<char>, i: int|
                #[trigger] final(self).has_entry(t, n, i) <==> old(self).has_entry(t, n, i) || (r
                    is Ok && t == Tier::Preview && n == db_name@ && i == *chunk_id as int),
            forall|t: Tier, n: Seq<char>, i: int|
                old(self).has_entry(t, n, i) ==> #[trigger] final(self).content_of(t, n, i) == old(
                    self,
                ).content_of(t, n, i),
    {
        self.store_derivative(Tier::Preview, db_name, chunk_id, image_bytes, PREVIEW_SIZE)
    }

    /// Remove this namespace's thumbnail and preview entries. Entries of
    /// every other namespace, and stored originals, are untouched; a
    /// namespace with no entries is a no-op.
    pub fn clear_db_cache(&mut self, db_name: &str)
        requires
            old(self).wf(),
        ensures
            final(self).wf(),
            final(self).root() == old(self).root(),
            forall|t: Tier, n: Seq<char>, id: int|
                #[trigger] final(self).has_entry(t, n, id) <==> (old(self).has_entry(t, n, id)
                    && !(n == db_name@ && (t is Thumbnail || t is Preview))),
            forall|t: Tier, n: Seq<char>, id: int|
                final(self).has_entry(t, n, id) ==> #[trigger] final(self).content_of(t, n, id)
                    == old(self).content_of(t, n, id),
    {
        let ghost orig = self.entries@;
        let ghost root0 = self.cache_dir@;
        let ghost mut src_idx: Seq<int> = Seq::empty();
        let ghost mut dst_idx: Map<int, int> = Map::empty();
        let mut kept: Vec<CacheEntry> = Vec::new();
        while self.entries.len() > 0
            invariant
                self.cache_dir@ == root0,
                seq_unique_keys(orig),
                self.entries@ == orig.subrange(0, self.entries@.len() as int),
                self.entries@.len() <= orig.len(),
                clear_loop_inv(orig, db_name@, self.entries@.len() as int, kept@, src_idx, dst_idx),
            decreases self.entries@.len(),
        {
            let ghost m = self.entries@.len() as int;
            let ghost pre_kept = kept@;
            let e = self.entries.pop().unwrap();
            proof {
                assert(e == orig[m - 1]);
                assert(self.entries@ =~= orig.subrange(0, m - 1));
            }
            let is_derived = match e.tier {
                Tier::Thumbnail => true,
                Tier::Preview => true,
                Tier::Original => false,
            };
            let drop_it = is_derived && str_eq(e.namespace.as_str(), db_name);
            if !drop_it {
                kept.push(e);
                proof {
                    lemma_clear_push(orig, db_name@, m, pre_kept, src_idx, dst_idx);
                    dst_idx = dst_idx.insert(m - 1, pre_kept.len() as int);
                    src_idx = src_idx.push(m - 1);
                }
            } else {
                proof {
                    lemma_clear_skip(orig, db_name@, m, pre_kept, src_idx, dst_idx);
                }
            }
        }
        proof {
            assert(self.entries@.len() == 0);
        }
        self.entries = kept;
        proof {
            lemma_clear_final(orig, db_name@, self.entries@, src_idx, dst_idx);
        }
    }

    /// Remove every entry: the full-clear operation. Afterwards the store is
    /// empty and reports size zero; no previously existing entry survives.
    pub fn clear_cache(&mut self)
        ensures
            final(self).wf(),
            final(self).root() == old(self).root(),
            forall|t: Tier, n: Seq<char>, id: int| !final(self).has_entry(t, n, id),
            final(self).total_size() == 0,
    {
        self.entries = Vec::new();
    }

    /// Total number of content bytes in the store, saturating at `u64::MAX`.
    pub fn get_cache_size(&self) -> (r: u64)
        ensures
            self.total_size() <= u64::MAX ==> r == self.total_size(),
            self.total_size() > u64::MAX ==> r == u64::MAX,
    {
        let n = self.entries.len();
        let mut acc: u64 = 0;
        let mut i: usize = 0;
        while i < n
            invariant
                n == self.entries@.len(),
                i <= n,
                seq_total_size(self.entries@.subrange(0, i as int)) <= u64::MAX ==> acc
                    == seq_total_size(self.entries@.subrange(0, i as int)),
                seq_total_size(self.entries@.subrange(0, i as int)) > u64::MAX ==> acc
                    == u64::MAX,
            decreases n - i,
        {
            let len = self.entries[i].bytes.len();
            proof {
                assert(self.entries@.subrange(0, i + 1 as int).drop_last() =~= self.entries@
                    .subrange(0, i as int));
                assert(self.entries@.subrange(0, i + 1 as int).last() == self.entries@[i as int]);
            }
            if len as u64 > u64::MAX - acc {
                acc = u64::MAX;
            } else {
                acc = acc + len as u64;
            }
            i = i + 1;
        }
        proof {
            assert(self.entries@.subrange(0, n as int) =~= self.entries@);
        }
        acc
    }
}

} // verus!
