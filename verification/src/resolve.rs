//! The resolution orchestrator: for a page or chunk, decide where its pixels
//! come from and keep the derivative store warm.
//!
//! Resolution is tiered: a directly servable source file wins, then a cached
//! entry, then a fresh render, then the binary content stored in the
//! relational store — and every render or fetch that succeeds is persisted
//! so the next request is a cache hit. Each slow outside step (database
//! round-trip, render subprocess) happens between two calls here: the caller
//! performs the step this module asks for and hands its outcome to the next
//! phase, so no lock is ever held across a suspension, and the decisions
//! themselves are all verified code.

use vstd::prelude::*;

use crate::classify::SourceType;
use crate::error::ResolveError;
use crate::image_ops::derivable;
use crate::paths::Tier;
use crate::store::CacheManager;

verus! {

/// First decision for a full-resolution page image.
pub enum FullImageStep {
    /// The origin file is a servable image: return its path, touch nothing.
    ServeSourceFile(String),
    /// A stored render exists: return its path, fetch nothing.
    ServeCached(String),
    /// Render this page of this document, then hand the outcome to
    /// `resolve_full_image_after_render`.
    RenderNeeded {
        /// The document file to render from.
        path: String,
        /// The page's ordinal within the document.
        page_num: i32,
    },
    /// No source and no cached render: fetch the page's stored binary
    /// content, then hand it to `resolve_full_image_after_contents`.
    ContentsNeeded,
}

/// Outcome of the render attempt for a full-resolution page image.
pub enum AfterRender {
    /// The render was stored; serve this path.
    Stored(String),
    /// The render failed: fall back to the stored binary content.
    ContentsNeeded,
}

/// First decision for a thumbnail or preview.
pub enum DerivedStep {
    /// The derivative is cached: serve this path, fetch no binary content.
    Cached(String),
    /// Fetch this chunk's binary content, then hand it to the
    /// `..._after_contents` phase.
    ChunkContentsNeeded(i64),
}

/// Decide how a page's full-resolution image is acquired, from the page's
/// classified source and the cache. Order of the tiers: a directly servable
/// source file first, then a previously stored render, then a fresh render,
/// then the database contents.
pub fn resolve_full_image_start(
    cache: &CacheManager,
    db_name: &str,
    page_id: i64,
    page_num: i32,
    source: &SourceType,
) -> (r: FullImageStep)
    ensures
        source matches SourceType::Image(p) ==> (r matches FullImageStep::ServeSourceFile(q)
            && q@ == p@),
        source !is Image && cache.has_entry(Tier::Original, db_name@, page_id as int) ==> (
        r matches FullImageStep::ServeCached(q) && q@ == cache.path_of(
            Tier::Original,
            db_name@,
            page_id as int,
        )),
        source matches SourceType::Pdf(p) ==> (!cache.has_entry(
            Tier::Original,
            db_name@,
            page_id as int,
        ) ==> (r matches FullImageStep::RenderNeeded { path, page_num: pn } && path@ == p@ && pn
            == page_num)),
        source is Unavailable && !cache.has_entry(Tier::Original, db_name@, page_id as int)
            ==> r is ContentsNeeded,
{
    match source {
        SourceType::Image(p) => FullImageStep::ServeSourceFile(p.clone()),
        SourceType::Pdf(p) => {
            if cache.has_original(db_name, &page_id) {
                FullImageStep::ServeCached(cache.original_path(db_name, &page_id))
            } else {
                FullImageStep::RenderNeeded { path: p.clone(), page_num }
            }
        },
        SourceType::Unavailable => {
            if cache.has_original(db_name, &page_id) {
                FullImageStep::ServeCached(cache.original_path(db_name, &page_id))
            } else {
                FullImageStep::ContentsNeeded
            }
        },
    }
}

/// Take the outcome of the render attempt: a successful render is stored in
/// the original tier (first writer wins) and served; a failed one falls
/// through to the database contents.
pub fn resolve_full_image_after_render(
    cache: &mut CacheManager,
    db_name: &str,
    page_id: i64,
    rendered: &Option<Vec<u8>>,
) -> (r: AfterRender)
    requires
        old(cache).wf(),
    ensures
        final(cache).wf(),
        final(cache).root() == old(cache).root(),
        rendered is None ==> r is ContentsNeeded && *final(cache) == *old(cache),
        rendered matches Some(bytes) ==> {
            &&& r matches AfterRender::Stored(p) && p@ == old(cache).path_of(
                Tier::Original,
                db_name@,
                page_id as int,
            )
            &&& final(cache).has_entry(Tier::Original, db_name@, page_id as int)
            &&& (old(cache).has_entry(Tier::Original, db_name@, page_id as int) ==> *final(cache)
                == *old(cache))
            &&& (!old(cache).has_entry(Tier::Original, db_name@, page_id as int) ==> final(cache).content_of(Tier::Original, db_name@, page_id as int) == bytes@)
        },
        forall|t: Tier, n: Seq<char>, i: int|
            #[trigger] final(cache).has_entry(t, n, i) <==> old(cache).has_entry(t, n, i) || (
            rendered is Some && t is Original && n == db_name@ && i == page_id as int),
        forall|t: Tier, n: Seq<char>, i: int|
            old(cache).has_entry(t, n, i) ==> #[trigger] final(cache).content_of(t, n, i) == old(
                cache,
            ).content_of(t, n, i),
{
    match rendered {
        Option::Some(bytes) => AfterRender::Stored(
            cache.save_original(bytes.as_slice(), db_name, &page_id),
        ),
        Option::None => AfterRender::ContentsNeeded,
    }
}

/// Take the binary content fetched from the relational store: present
/// content is stored in the original tier and served; absent content is the
/// end of the fallback chain and fails with a not-found error.
pub fn resolve_full_image_after_contents(
    cache: &mut CacheManager,
    db_name: &str,
    page_id: i64,
    contents: &Option<Vec<u8>>,
) -> (r: Result<String, ResolveError>)
    requires
        old(cache).wf(),
    ensures
        final(cache).wf(),
        final(cache).root() == old(cache).root(),
        contents is None ==> r == Err::<String, ResolveError>(
            ResolveError::NoImageContents { page_id },
        ) && *final(cache) == *old(cache),
        contents matches Some(bytes) ==> {
            &&& r matches Ok(p) && p@ == old(cache).path_of(
                Tier::Original,
                db_name@,
                page_id as int,
            )
            &&& final(cache).has_entry(Tier::Original, db_name@, page_id as int)
            &&& (old(cache).has_entry(Tier::Original, db_name@, page_id as int) ==> *final(cache)
                == *old(cache))
            &&& (!old(cache).has_entry(Tier::Original, db_name@, page_id as int) ==> final(cache).content_of(Tier::Original, db_name@, page_id as int) == bytes@)
        },
        forall|t: Tier, n: Seq<char>, i: int|
            #[trigger] final(cache).has_entry(t, n, i) <==> old(cache).has_entry(t, n, i) || (
            contents is Some && t is Original && n == db_name@ && i == page_id as int),
        forall|t: Tier, n: Seq<char>, i: int|
            old(cache).has_entry(t, n, i) ==> #[trigger] final(cache).content_of(t, n, i) == old(
                cache,
            ).content_of(t, n, i),
{
    match contents {
        Option::Some(bytes) => Ok(cache.save_original(bytes.as_slice(), db_name, &page_id)),
        Option::None => Err(ResolveError::NoImageContents { page_id }),
    }
}

/// Decide how a page's thumbnail is acquired. The page's first chunk (lowest
/// id) is the cache key; a page without chunks cannot be resolved. A cache
/// hit is served without any binary transfer.
pub fn resolve_thumbnail_start(
    cache: &CacheManager,
    db_name: &str,
    page_id: i64,
    first_chunk: &Option<i64>,
) -> (r: Result<DerivedStep, ResolveError>)
    ensures
        first_chunk is None ==> r == Err::<DerivedStep, ResolveError>(
            ResolveError::NoChunks { page_id },
        ),
        first_chunk matches Some(cid) ==> {
            &&& cache.has_entry(Tier::Thumbnail, db_name@, cid as int) ==> (r matches Ok(
                DerivedStep::Cached(p),
            ) && p@ == cache.path_of(Tier::Thumbnail, db_name@, cid as int))
            &&& !cache.has_entry(Tier::Thumbnail, db_name@, cid as int) ==> r == Ok::<
                DerivedStep,
                ResolveError,
            >(DerivedStep::ChunkContentsNeeded(*cid))
        },
{
    match first_chunk {
        Option::None => Err(ResolveError::NoChunks { page_id }),
        Option::Some(cid) => {
            if cache.has_thumbnail(db_name, cid) {
                Ok(DerivedStep::Cached(cache.thumbnail_path(db_name, cid)))
            } else {
                Ok(DerivedStep::ChunkContentsNeeded(*cid))
            }
        },
    }
}

/// Take the chunk content fetched on a thumbnail miss: derive and store the
/// thumbnail and serve its path; undecodable content fails.
pub fn resolve_thumbnail_after_contents(
    cache: &mut CacheManager,
    db_name: &str,
    chunk_id: i64,
    contents: &Vec<u8>,
) -> (r: Result<String, ResolveError>)
    requires
        old(cache).wf(),
    ensures
        final(cache).wf(),
        final(cache).root() == old(cache).root(),
        r matches Ok(p) ==> p@ == old(cache).path_of(Tier::Thumbnail, db_name@, chunk_id as int),
        r is Ok <==> (old(cache).has_entry(Tier::Thumbnail, db_name@, chunk_id as int) || derivable(
            contents@,
        )),
        r is Err ==> r == Err::<String, ResolveError>(ResolveError::ImageDecode) && *final(cache)
            == *old(cache),
        r is Ok ==> final(cache).has_entry(Tier::Thumbnail, db_name@, chunk_id as int),
        forall|t: Tier, n: Seq<char>, i: int|
            #[trigger] final(cache).has_entry(t, n, i) <==> old(cache).has_entry(t, n, i) || (r
                is Ok && t is Thumbnail && n == db_name@ && i == chunk_id as int),
        forall|t: Tier, n: Seq<char>, i: int|
            old(cache).has_entry(t, n, i) ==> #[trigger] final(cache).content_of(t, n, i) == old(
                cache,
            ).content_of(t, n, i),
{
    match cache.generate_thumbnail_from_bytes(contents.as_slice(), db_name, &chunk_id) {
        Ok(p) => Ok(p),
        Err(_) => Err(ResolveError::ImageDecode),
    }
}

/// Decide how a page's preview is acquired; the same two stages as the
/// thumbnail, at the preview size.
pub fn resolve_preview_start(
    cache: &CacheManager,
    db_name: &str,
    page_id: i64,
    first_chunk: &Option<i64>,
) -> (r: Result<DerivedStep, ResolveError>)
    ensures
        first_chunk is None ==> r == Err::<DerivedStep, ResolveError>(
            ResolveError::NoChunks { page_id },
        ),
        first_chunk matches Some(cid) ==> {
            &&& cache.has_entry(Tier::Preview, db_name@, cid as int) ==> (r matches Ok(
                DerivedStep::Cached(p),
            ) && p@ == cache.path_of(Tier::Preview, db_name@, cid as int))
            &&& !cache.has_entry(Tier::Preview, db_name@, cid as int) ==> r == Ok::<
                DerivedStep,
                ResolveError,
            >(DerivedStep::ChunkContentsNeeded(*cid))
        },
{
    match first_chunk {
        Option::None => Err(ResolveError::NoChunks { page_id }),
        Option::Some(cid) => {
            if cache.has_preview(db_name, cid) {
                Ok(DerivedStep::Cached(cache.preview_path(db_name, cid)))
            } else {
                Ok(DerivedStep::ChunkContentsNeeded(*cid))
            }
        },
    }
}

/// Take the chunk content fetched on a preview miss: derive and store the
/// preview and serve its path; undecodable content fails.
pub fn resolve_preview_after_contents(
    cache: &mut CacheManager,
    db_name: &str,
    chunk_id: i64,
    contents: &Vec<u8>,
) -> (r: Result<String, ResolveError>)
    requires
        old(cache).wf(),
    ensures
        final(cache).wf(),
        final(cache).root() == old(cache).root(),
        r matches Ok(p) ==> p@ == old(cache).path_of(Tier::Preview, db_name@, chunk_id as int),
        r is Ok <==> (old(cache).has_entry(Tier::Preview, db_name@, chunk_id as int) || derivable(
            contents@,
        )),
        r is Err ==> r == Err::<String, ResolveError>(ResolveError::ImageDecode) && *final(cache)
            == *old(cache),
        r is Ok ==> final(cache).has_entry(Tier::Preview, db_name@, chunk_id as int),
        forall|t: Tier, n: Seq<char>, i: int|
            #[trigger] final(cache).has_entry(t, n, i) <==> old(cache).has_entry(t, n, i) || (r
                is Ok && t is Preview && n == db_name@ && i == chunk_id as int),
        forall|t: Tier, n: Seq<char>, i: int|
            old(cache).has_entry(t, n, i) ==> #[trigger] final(cache).content_of(t, n, i) == old(
                cache,
            ).content_of(t, n, i),
{
    match cache.generate_preview_from_bytes(contents.as_slice(), db_name, &chunk_id) {
        Ok(p) => Ok(p),
        Err(_) => Err(ResolveError::ImageDecode),
    }
}

/// The ids whose thumbnails are present in namespace `ns`.
pub open spec fn thumbs_of(cache: CacheManager, ns: Seq<char>) -> Set<int> {
    Set::new(|id: int| cache.has_entry(Tier::Thumbnail, ns, id))
}

/// The ids of `ids` whose thumbnails are not yet cached, in order.
pub open spec fn uncached_thumbs(cache: CacheManager, ns: Seq<char>, ids: Seq<i64>) -> Seq<i64> {
    ids.filter(|cid: i64| !cache.has_entry(Tier::Thumbnail, ns, cid as int))
}

/// What one prefetch pass over fetched chunk contents does, item by item:
/// the set of cached thumbnail ids afterwards, and how many generations
/// reported success (a generation succeeds when the id is already cached or
/// its bytes are derivable).
pub open spec fn prefetch_fold(present: Set<int>, items: Seq<(i64, Seq<u8>)>) -> (Set<int>, int)
    decreases items.len(),
{
    if items.len() == 0 {
        (present, 0)
    } else {
        let rec = prefetch_fold(present, items.drop_last());
        let last = items.last();
        if rec.0.contains(last.0 as int) {
            (rec.0, rec.1 + 1)
        } else if derivable(last.1) {
            (rec.0.insert(last.0 as int), rec.1 + 1)
        } else {
            rec
        }
    }
}

/// The id-and-content view of fetched chunk rows.
pub open spec fn items_view(items: Seq<(i64, Vec<u8>)>) -> Seq<(i64, Seq<u8>)> {
    items.map_values(|p: (i64, Vec<u8>)| (p.0, p.1@))
}

/// Partition a document's chunk ids for a bulk thumbnail warm-up: return, in
/// order, exactly those whose thumbnail is not cached yet, so that only
/// their binary contents need to be fetched.
pub fn prefetch_uncached(cache: &CacheManager, db_name: &str, chunk_ids: &Vec<i64>) -> (r: Vec<i64>)
    ensures
        r@ == uncached_thumbs(*cache, db_name@, chunk_ids@),
{
    let n = chunk_ids.len();
    let mut r: Vec<i64> = Vec::new();
    let mut i: usize = 0;
    while i < n
        invariant
            n == chunk_ids@.len(),
            i <= n,
            r@ == uncached_thumbs(*cache, db_name@, chunk_ids@.subrange(0, i as int)),
        decreases n - i,
    {
        let cid = chunk_ids[i];
        if !cache.has_thumbnail(db_name, &cid) {
            r.push(cid);
        }
        proof {
            reveal_with_fuel(Seq::<_>::filter, 2);
            assert(chunk_ids@.subrange(0, i + 1 as int).drop_last() =~= chunk_ids@.subrange(
                0,
                i as int,
            ));
            assert(chunk_ids@.subrange(0, i + 1 as int).last() == cid);
        }
        i = i + 1;
    }
    proof {
        assert(chunk_ids@.subrange(0, n as int) =~= chunk_ids@);
    }
    r
}

/// Generate thumbnails for a batch of fetched chunk contents and count the
/// successful generations — an already cached id counts as success, fresh
/// derivable bytes are stored, undecodable bytes are skipped. Entries of
/// other tiers and namespaces are untouched.
pub fn prefetch_generate(
    cache: &mut CacheManager,
    db_name: &str,
    items: &Vec<(i64, Vec<u8>)>,
) -> (count: i32)
    requires
        old(cache).wf(),
        items@.len() <= i32::MAX,
    ensures
        final(cache).wf(),
        final(cache).root() == old(cache).root(),
        count == prefetch_fold(thumbs_of(*old(cache), db_name@), items_view(items@)).1,
        thumbs_of(*final(cache), db_name@) == prefetch_fold(
            thumbs_of(*old(cache), db_name@),
            items_view(items@),
        ).0,
        forall|t: Tier, n: Seq<char>, i: int|
            !(t is Thumbnail && n == db_name@) ==> (#[trigger] final(cache).has_entry(t, n, i)
                <==> old(cache).has_entry(t, n, i)),
        forall|t: Tier, n: Seq<char>, i: int|
            old(cache).has_entry(t, n, i) ==> #[trigger] final(cache).content_of(t, n, i) == old(
                cache,
            ).content_of(t, n, i),
{
    let ghost present0 = thumbs_of(*old(cache), db_name@);
    let ghost all = items_view(items@);
    let n = items.len();
    let mut count: i32 = 0;
    let mut i: usize = 0;
    while i < n
        invariant
            old(cache).wf(),
            cache.wf(),
            n == items@.len(),
            n <= i32::MAX,
            i <= n,
            0 <= count <= i,
            all == items_view(items@),
            present0 == thumbs_of(*old(cache), db_name@),
            cache.root() == old(cache).root(),
            count == prefetch_fold(present0, all.subrange(0, i as int)).1,
            thumbs_of(*cache, db_name@) == prefetch_fold(present0, all.subrange(0, i as int)).0,
            forall|t: Tier, nm: Seq<char>, k: int|
                !(t is Thumbnail && nm == db_name@) ==> (#[trigger] cache.has_entry(t, nm, k)
                    <==> old(cache).has_entry(t, nm, k)),
            forall|t: Tier, nm: Seq<char>, k: int|
                old(cache).has_entry(t, nm, k) ==> #[trigger] cache.has_entry(t, nm, k),
            forall|t: Tier, nm: Seq<char>, k: int|
                old(cache).has_entry(t, nm, k) ==> #[trigger] cache.content_of(t, nm, k) == old(
                    cache,
                ).content_of(t, nm, k),
        decreases n - i,
    {
        let ghost pre = *cache;
        let ghost prefix = all.subrange(0, i as int);
        let item = &items[i];
        let cid = item.0;
        let outcome = cache.generate_thumbnail_from_bytes(item.1.as_slice(), db_name, &cid);
        if outcome.is_ok() {
            count = count + 1;
        }
        proof {
            assert(all.subrange(0, i + 1 as int).drop_last() =~= prefix);
            assert(all.subrange(0, i + 1 as int).last() == (items@[i as int].0, items@[i as int].1@));
            let rec = prefetch_fold(present0, prefix);
            if pre.has_entry(Tier::Thumbnail, db_name@, cid as int) {
                assert(rec.0.contains(cid as int));
                assert(thumbs_of(*cache, db_name@) =~= rec.0);
            } else if derivable(items@[i as int].1@) {
                assert(!rec.0.contains(cid as int));
                assert(thumbs_of(*cache, db_name@) =~= rec.0.insert(cid as int));
            } else {
                assert(!rec.0.contains(cid as int));
                assert(thumbs_of(*cache, db_name@) =~= rec.0);
            }
        }
        i = i + 1;
    }
    proof {
        assert(all.subrange(0, n as int) =~= all);
    }
    count
}

proof fn lemma_prefetch_fold_domain(present: Set<int>, items: Seq<(i64, Seq<u8>)>)
    ensures
        forall|id: int|
            #[trigger] prefetch_fold(present, items).0.contains(id) ==> present.contains(id)
                || exists|i: int| 0 <= i < items.len() && items[i].0 == id,
        forall|id: int|
            present.contains(id) ==> #[trigger] prefetch_fold(present, items).0.contains(id),
    decreases items.len(),
{
    if items.len() > 0 {
        lemma_prefetch_fold_domain(present, items.drop_last());
        assert forall|id: int| #[trigger]
            prefetch_fold(present, items).0.contains(id) implies present.contains(id) || exists|
            i: int,
        | 0 <= i < items.len() && items[i].0 == id by {
            let rec = prefetch_fold(present, items.drop_last());
            if rec.0.contains(id) {
                if !present.contains(id) {
                    let i = choose|i: int| 0 <= i < items.drop_last().len() && items.drop_last()[i].0
                        == id;
                    assert(items[i].0 == id);
                }
            } else {
                assert(items[items.len() - 1].0 == id);
            }
        }
        assert forall|id: int|
            present.contains(id) implies #[trigger] prefetch_fold(present, items).0.contains(
            id,
        ) by {
            assert(prefetch_fold(present, items.drop_last()).0.contains(id));
        }
    }
}

/// Bulk warm-up is complete: starting from a store with none of the chunks
/// cached, one prefetch pass over distinct, decodable chunk contents reports
/// one success per chunk, and afterwards every one of the ids is a cache
/// hit — so a second partition of the same ids finds nothing left to fetch.
pub proof fn lemma_prefetch_completeness(present: Set<int>, items: Seq<(i64, Seq<u8>)>)
    requires
        forall|i: int| 0 <= i < items.len() ==> !present.contains(#[trigger] items[i].0 as int),
        forall|i: int, j: int| 0 <= i < j < items.len() ==> items[i].0 != items[j].0,
        forall|i: int| 0 <= i < items.len() ==> derivable(#[trigger] items[i].1),
    ensures
        prefetch_fold(present, items).1 == items.len(),
        forall|i: int|
            0 <= i < items.len() ==> prefetch_fold(present, items).0.contains(
                #[trigger] items[i].0 as int,
            ),
    decreases items.len(),
{
    if items.len() > 0 {
        let prefix = items.drop_last();
        lemma_prefetch_completeness(present, prefix);
        let rec = prefetch_fold(present, prefix);
        let last = items.last();
        assert(!rec.0.contains(last.0 as int)) by {
            lemma_prefetch_fold_domain(present, prefix);
            if rec.0.contains(last.0 as int) {
                assert(!present.contains(items[items.len() - 1].0 as int));
                let i = choose|i: int| 0 <= i < prefix.len() && prefix[i].0 == last.0 as int;
                assert(items[i].0 == items[items.len() - 1].0);
                assert(false);
            }
        }
        assert(derivable(items[items.len() - 1].1));
        assert forall|i: int| 0 <= i < items.len() implies prefetch_fold(present, items).0.contains(
            #[trigger] items[i].0 as int,
        ) by {
            if i < items.len() - 1 {
                assert(prefix[i].0 == items[i].0);
            }
        }
    }
}

/// Once every id reports a cache hit, the uncached partition is empty: a
/// second warm-up pass has nothing to fetch and generates nothing.
pub proof fn lemma_uncached_empty(cache: CacheManager, ns: Seq<char>, ids: Seq<i64>)
    requires
        forall|i: int|
            0 <= i < ids.len() ==> cache.has_entry(Tier::Thumbnail, ns, #[trigger] ids[i] as int),
    ensures
        uncached_thumbs(cache, ns, ids) == Seq::<i64>::empty(),
    decreases ids.len(),
{
    reveal_with_fuel(Seq::<_>::filter, 2);
    if ids.len() > 0 {
        lemma_uncached_empty(cache, ns, ids.drop_last());
        assert(ids.drop_last() =~= ids.subrange(0, ids.len() - 1));
        assert(cache.has_entry(Tier::Thumbnail, ns, ids[ids.len() - 1] as int));
    }
}

} // verus!
