//! The relational rows and request/response shapes the tool works with.
//!
//! These mirror the relational schema (files, queries, image chunks,
//! retrieval relations) and the payloads exchanged with the UI layer. They
//! carry no behaviour of their own; the store and orchestrator speak in ids
//! and byte vectors taken from them.

use vstd::prelude::*;

verus! {

/// The chunk ids of `chunk_rows` (pairs of parent page and chunk id) that
/// belong to `page`, in their given order.
pub open spec fn chunks_of_page(chunk_rows: Seq<(i64, i64)>, page: i64) -> Seq<i64>
    decreases chunk_rows.len(),
{
    if chunk_rows.len() == 0 {
        Seq::empty()
    } else {
        let rest = chunks_of_page(chunk_rows.drop_last(), page);
        if chunk_rows.last().0 == page {
            rest.push(chunk_rows.last().1)
        } else {
            rest
        }
    }
}

/// A raw ingested file (document or image) tracked on disk.
pub struct File {
    /// Row id.
    pub id: i64,
    /// Kind of content the file holds (such as `raw` or `image`).
    pub kind: String,
    /// Filesystem path the file was ingested from.
    pub path: String,
}

/// A cropped image region belonging to a page, with its binary content.
pub struct ImageChunk {
    /// Row id.
    pub id: i64,
    /// The page this chunk belongs to.
    pub parent_page: Option<i64>,
    /// The encoded image bytes.
    pub contents: Vec<u8>,
    /// MIME type of `contents`.
    pub mimetype: String,
}

/// An image chunk without its binary content, for listings.
pub struct ImageChunkInfo {
    /// Row id.
    pub id: i64,
    /// The page this chunk belongs to.
    pub parent_page: Option<i64>,
    /// MIME type of the chunk's content.
    pub mimetype: String,
}

/// A benchmark query.
pub struct Query {
    /// Row id.
    pub id: i64,
    /// The question as the curator wrote it.
    pub contents: String,
    /// The prompt actually sent to the model, if it differs.
    pub query_to_llm: Option<String>,
    /// The accepted answers, one per valid generation.
    pub generation_gt: Option<Vec<String>>,
}

/// One link from a query to an evidence chunk; the composite key is
/// `(query_id, group_index, group_order)`.
pub struct RetrievalRelation {
    /// The query this evidence belongs to.
    pub query_id: i64,
    /// Which answer group the evidence supports.
    pub group_index: i32,
    /// Rank of the evidence within its group.
    pub group_order: i32,
    /// Text evidence, when the evidence is a text chunk.
    pub chunk_id: Option<i64>,
    /// Image evidence, when the evidence is an image chunk.
    pub image_chunk_id: Option<i64>,
    /// Relevance: 0 not relevant, 1 somewhat, 2 highly.
    pub score: i32,
}

/// An evidence chunk with its relevance score, as supplied when creating a
/// query.
pub struct EvidenceWithScore {
    /// The image chunk serving as evidence.
    pub chunk_id: i64,
    /// Relevance: 0 not relevant, 1 somewhat, 2 highly.
    pub score: i32,
}

/// Request to create a query together with its evidence groups.
pub struct CreateQueryRequest {
    /// The question text.
    pub contents: String,
    /// The prompt actually sent to the model, if it differs.
    pub query_to_llm: Option<String>,
    /// The accepted answers.
    pub generation_gt: Option<Vec<String>>,
    /// Evidence organized by groups: each inner vector is one group, in rank
    /// order.
    pub evidence_groups: Vec<Vec<EvidenceWithScore>>,
}

/// Request to update an existing query; absent fields stay unchanged.
pub struct UpdateQueryRequest {
    /// The query to update.
    pub id: i64,
    /// New question text, if any.
    pub contents: Option<String>,
    /// New model prompt, if any.
    pub query_to_llm: Option<String>,
    /// New accepted answers, if any.
    pub generation_gt: Option<Vec<String>>,
}

/// Request to attach one more evidence chunk to a query.
pub struct AddEvidenceRequest {
    /// The query to extend.
    pub query_id: i64,
    /// The answer group to extend.
    pub group_index: i32,
    /// The image chunk to add as evidence.
    pub image_chunk_id: i64,
    /// Relevance; 1 when absent.
    pub score: Option<i32>,
}

/// Request to change the score of an existing retrieval relation.
pub struct UpdateScoreRequest {
    /// The query the relation belongs to.
    pub query_id: i64,
    /// The relation's answer group.
    pub group_index: i32,
    /// The relation's rank within the group.
    pub group_order: i32,
    /// The new relevance score.
    pub score: i32,
}

/// What an export run should produce.
pub struct ExportConfig {
    /// Directory the export is written into.
    pub output_path: String,
    /// Whether to pack the output into a ZIP archive afterwards.
    pub create_zip: bool,
    /// Whether the document table is exported.
    pub include_documents: bool,
    /// Whether the query table is exported.
    pub include_queries: bool,
    /// Whether the retrieval relations are exported.
    pub include_relations: bool,
    /// Whether the image chunk metadata is exported.
    pub include_image_chunks: bool,
    /// Whether the image contents are exported.
    pub include_images: bool,
}

/// What a successful export produced.
pub struct ExportResult {
    /// Where the output (directory or archive) ended up.
    pub output_path: String,
    /// Documents written.
    pub documents_count: u32,
    /// Queries written.
    pub queries_count: u32,
    /// Retrieval relations written.
    pub relations_count: u32,
    /// Image chunk rows written.
    pub image_chunks_count: u32,
    /// Image files written.
    pub images_count: u32,
}

/// Row counts shown before an export starts.
pub struct ExportCounts {
    /// Documents in the store.
    pub documents: u32,
    /// Queries in the store.
    pub queries: u32,
    /// Retrieval relations in the store.
    pub relations: u32,
    /// Image chunks in the store.
    pub image_chunks: u32,
}

/// Per-page source information for a document: where each page's pixels can
/// come from.
pub struct PageSourceInfo {
    /// The page's row id.
    pub page_id: i64,
    /// The page's image chunks, in ascending id order.
    pub chunk_ids: Vec<i64>,
    /// The page's ordinal within its document.
    pub page_num: i32,
    /// The origin-file hint recorded at ingest time.
    pub source_path: Option<String>,
}

/// What a successful ingestion produced.
pub struct IngestionResult {
    /// The file row created, 0 when none was.
    pub file_id: i64,
    /// The document row created.
    pub document_id: i64,
    /// Pages ingested.
    pub page_count: i32,
    /// Image chunks created.
    pub image_chunk_count: i32,
}

/// Metadata read from a document file.
pub struct PdfMetadata {
    /// The document's title, when the file declares one.
    pub title: Option<String>,
    /// The document's author, when the file declares one.
    pub author: Option<String>,
}

/// Everything a processed document yields: its page count, metadata, and one
/// rendered image per page.
pub struct PdfProcessingResult {
    /// Number of pages in the document.
    pub page_count: i32,
    /// Title and author, as far as the file declares them.
    pub metadata: PdfMetadata,
    /// The rendered pages, in order, as encoded images.
    pub pages: Vec<Vec<u8>>,
}

/// Assemble the per-page source listing of a document: one entry per page
/// row `(page id, ordinal, origin-file hint)`, each carrying exactly its own
/// chunks from the batch-fetched `(parent page, chunk id)` pairs, in order.
pub fn group_page_chunks(
    rows: &Vec<(i64, i32, Option<String>)>,
    chunk_rows: &Vec<(i64, i64)>,
) -> (r: Vec<PageSourceInfo>)
    ensures
        r@.len() == rows@.len(),
        forall|i: int|
            0 <= i < rows@.len() ==> {
                &&& (#[trigger] r@[i]).page_id == rows@[i].0
                &&& r@[i].page_num == rows@[i].1
                &&& r@[i].source_path.deep_view() == rows@[i].2.deep_view()
                &&& r@[i].chunk_ids@ == chunks_of_page(chunk_rows@, rows@[i].0)
            },
{
    let mut r: Vec<PageSourceInfo> = Vec::new();
    let n = rows.len();
    let mut i: usize = 0;
    while i < n
        invariant
            n == rows@.len(),
            i <= n,
            r@.len() == i,
            forall|k: int|
                0 <= k < i ==> {
                    &&& (#[trigger] r@[k]).page_id == rows@[k].0
                    &&& r@[k].page_num == rows@[k].1
                    &&& r@[k].source_path.deep_view() == rows@[k].2.deep_view()
                    &&& r@[k].chunk_ids@ == chunks_of_page(chunk_rows@, rows@[k].0)
                },
        decreases n - i,
    {
        let row = &rows[i];
        let page_id = row.0;
        let mut chunk_ids: Vec<i64> = Vec::new();
        let m = chunk_rows.len();
        let mut j: usize = 0;
        while j < m
            invariant
                m == chunk_rows@.len(),
                j <= m,
                chunk_ids@ == chunks_of_page(chunk_rows@.subrange(0, j as int), page_id),
            decreases m - j,
        {
            let pair = &chunk_rows[j];
            if pair.0 == page_id {
                chunk_ids.push(pair.1);
            }
            proof {
                assert(chunk_rows@.subrange(0, j + 1 as int).drop_last() =~= chunk_rows@.subrange(
                    0,
                    j as int,
                ));
                assert(chunk_rows@.subrange(0, j + 1 as int).last() == chunk_rows@[j as int]);
            }
            j = j + 1;
        }
        proof {
            assert(chunk_rows@.subrange(0, m as int) =~= chunk_rows@);
        }
        let source_path = match &row.2 {
            Option::Some(s) => Option::Some(s.clone()),
            Option::None => Option::None,
        };
        r.push(PageSourceInfo { page_id, chunk_ids, page_num: row.1, source_path });
        i = i + 1;
    }
    r
}

} // verus!
