//! Progress reports emitted during export and ingestion.
//!
//! Each builder fixes the phase tag and spells the human-readable message
//! out of its numeric inputs; the contracts pin both down to the character.

use vstd::prelude::*;

use crate::numfmt::{dec_rep, i64_to_string, int_rep, u64_to_string};

verus! {

/// Progress update during export.
pub struct ExportProgress {
    /// Which export phase is running.
    pub phase: String,
    /// Items done in this phase.
    pub current: u32,
    /// Items in this phase altogether.
    pub total: u32,
    /// A human-readable description of the state.
    pub message: String,
}

/// `prefix`, then `current`, `/`, `total` and a closing parenthesis — the
/// shape of every per-phase export message.
pub open spec fn counted_message(prefix: Seq<char>, current: u32, total: u32) -> Seq<char> {
    prefix + dec_rep(current as nat) + "/"@ + dec_rep(total as nat) + ")"@
}

fn build_counted(prefix: &str, current: u32, total: u32) -> (r: String)
    ensures
        r@ == counted_message(prefix@, current, total),
{
    proof {
        reveal_strlit("/");
        reveal_strlit(")");
    }
    let mut r = String::from_str(prefix);
    let cur = u64_to_string(current as u64);
    r.append(cur.as_str());
    r.append("/");
    let tot = u64_to_string(total as u64);
    r.append(tot.as_str());
    r.append(")");
    r
}

impl ExportProgress {
    /// Progress of the document table export.
    pub fn documents(current: u32, total: u32) -> (r: Self)
        ensures
            r.phase@ == "Documents"@,
            r.current == current,
            r.total == total,
            r.message@ == counted_message("Exporting documents ("@, current, total),
    {
        proof {
            reveal_strlit("Documents");
        }
        ExportProgress {
            phase: String::from_str("Documents"),
            current,
            total,
            message: build_counted("Exporting documents (", current, total),
        }
    }

    /// Progress of the query table export.
    pub fn queries(current: u32, total: u32) -> (r: Self)
        ensures
            r.phase@ == "Queries"@,
            r.current == current,
            r.total == total,
            r.message@ == counted_message("Exporting queries ("@, current, total),
    {
        proof {
            reveal_strlit("Queries");
        }
        ExportProgress {
            phase: String::from_str("Queries"),
            current,
            total,
            message: build_counted("Exporting queries (", current, total),
        }
    }

    /// Progress of the retrieval relation export.
    pub fn relations(current: u32, total: u32) -> (r: Self)
        ensures
            r.phase@ == "Relations"@,
            r.current == current,
            r.total == total,
            r.message@ == counted_message("Exporting relations ("@, current, total),
    {
        proof {
            reveal_strlit("Relations");
        }
        ExportProgress {
            phase: String::from_str("Relations"),
            current,
            total,
            message: build_counted("Exporting relations (", current, total),
        }
    }

    /// Progress of the image chunk metadata export.
    pub fn image_chunks(current: u32, total: u32) -> (r: Self)
        ensures
            r.phase@ == "ImageChunks"@,
            r.current == current,
            r.total == total,
            r.message@ == counted_message("Exporting image chunks ("@, current, total),
    {
        proof {
            reveal_strlit("ImageChunks");
        }
        ExportProgress {
            phase: String::from_str("ImageChunks"),
            current,
            total,
            message: build_counted("Exporting image chunks (", current, total),
        }
    }

    /// Progress of the image content export.
    pub fn images(current: u32, total: u32) -> (r: Self)
        ensures
            r.phase@ == "Images"@,
            r.current == current,
            r.total == total,
            r.message@ == counted_message("Exporting images ("@, current, total),
    {
        proof {
            reveal_strlit("Images");
        }
        ExportProgress {
            phase: String::from_str("Images"),
            current,
            total,
            message: build_counted("Exporting images (", current, total),
        }
    }

    /// The archive is being written.
    pub fn zipping() -> (r: Self)
        ensures
            r.phase@ == "Zipping"@,
            r.current == 0,
            r.total == 0,
            r.message@ == "Creating ZIP archive..."@,
    {
        proof {
            reveal_strlit("Zipping");
            reveal_strlit("Creating ZIP archive...");
        }
        ExportProgress {
            phase: String::from_str("Zipping"),
            current: 0,
            total: 0,
            message: String::from_str("Creating ZIP archive..."),
        }
    }

    /// The export finished.
    pub fn complete() -> (r: Self)
        ensures
            r.phase@ == "Complete"@,
            r.current == 0,
            r.total == 0,
            r.message@ == "Export completed successfully"@,
    {
        proof {
            reveal_strlit("Complete");
            reveal_strlit("Export completed successfully");
        }
        ExportProgress {
            phase: String::from_str("Complete"),
            current: 0,
            total: 0,
            message: String::from_str("Export completed successfully"),
        }
    }

    /// The export failed, with the reason to show.
    pub fn failed(message: String) -> (r: Self)
        ensures
            r.phase@ == "Failed"@,
            r.current == 0,
            r.total == 0,
            r.message@ == message@,
    {
        proof {
            reveal_strlit("Failed");
        }
        ExportProgress { phase: String::from_str("Failed"), current: 0, total: 0, message }
    }
}

/// Progress update during document ingestion.
pub struct IngestionProgress {
    /// The page being worked on, 0 while reading.
    pub current_page: i32,
    /// Number of pages altogether.
    pub total_pages: i32,
    /// Which ingestion phase is running.
    pub phase: String,
    /// A human-readable description of the state.
    pub message: String,
}

/// `prefix`, then `current`, ` of `, and `total` — the shape of the
/// per-page ingestion messages.
pub open spec fn paged_message(prefix: Seq<char>, current: i32, total: i32) -> Seq<char> {
    prefix + int_rep(current as int) + " of "@ + int_rep(total as int)
}

fn build_paged(prefix: &str, current: i32, total: i32) -> (r: String)
    ensures
        r@ == paged_message(prefix@, current, total),
{
    proof {
        reveal_strlit(" of ");
    }
    let mut r = String::from_str(prefix);
    let cur = i64_to_string(current as i64);
    r.append(cur.as_str());
    r.append(" of ");
    let tot = i64_to_string(total as i64);
    r.append(tot.as_str());
    r
}

impl IngestionProgress {
    /// The document is being read and its page count determined.
    pub fn reading(total_pages: i32) -> (r: Self)
        ensures
            r.current_page == 0,
            r.total_pages == total_pages,
            r.phase@ == "Reading"@,
            r.message@ == "Reading PDF ("@ + int_rep(total_pages as int) + " pages)"@,
    {
        proof {
            reveal_strlit("Reading");
            reveal_strlit("Reading PDF (");
            reveal_strlit(" pages)");
        }
        let mut message = String::from_str("Reading PDF (");
        let tot = i64_to_string(total_pages as i64);
        message.append(tot.as_str());
        message.append(" pages)");
        IngestionProgress {
            current_page: 0,
            total_pages,
            phase: String::from_str("Reading"),
            message,
        }
    }

    /// A page is being rendered.
    pub fn rendering(current_page: i32, total_pages: i32) -> (r: Self)
        ensures
            r.current_page == current_page,
            r.total_pages == total_pages,
            r.phase@ == "Rendering"@,
            r.message@ == paged_message("Rendering page "@, current_page, total_pages),
    {
        proof {
            reveal_strlit("Rendering");
        }
        IngestionProgress {
            current_page,
            total_pages,
            phase: String::from_str("Rendering"),
            message: build_paged("Rendering page ", current_page, total_pages),
        }
    }

    /// A page's derivatives are being cached.
    pub fn caching(current_page: i32, total_pages: i32) -> (r: Self)
        ensures
            r.current_page == current_page,
            r.total_pages == total_pages,
            r.phase@ == "Caching"@,
            r.message@ == paged_message("Caching page "@, current_page, total_pages),
    {
        proof {
            reveal_strlit("Caching");
        }
        IngestionProgress {
            current_page,
            total_pages,
            phase: String::from_str("Caching"),
            message: build_paged("Caching page ", current_page, total_pages),
        }
    }

    /// The ingestion finished.
    pub fn complete(total_pages: i32) -> (r: Self)
        ensures
            r.current_page == total_pages,
            r.total_pages == total_pages,
            r.phase@ == "Complete"@,
            r.message@ == "Successfully imported "@ + int_rep(total_pages as int) + " pages"@,
    {
        proof {
            reveal_strlit("Complete");
            reveal_strlit("Successfully imported ");
            reveal_strlit(" pages");
        }
        let mut message = String::from_str("Successfully imported ");
        let tot = i64_to_string(total_pages as i64);
        message.append(tot.as_str());
        message.append(" pages");
        IngestionProgress {
            current_page: total_pages,
            total_pages,
            phase: String::from_str("Complete"),
            message,
        }
    }

    /// The ingestion failed, with the reason to show.
    pub fn failed(message: String) -> (r: Self)
        ensures
            r.current_page == 0,
            r.total_pages == 0,
            r.phase@ == "Failed"@,
            r.message@ == message@,
    {
        proof {
            reveal_strlit("Failed");
        }
        IngestionProgress {
            current_page: 0,
            total_pages: 0,
            phase: String::from_str("Failed"),
            message,
        }
    }
}

} // verus!
