//! Self-contained `data:` URIs for image chunks served straight from the
//! relational store — the one resolution tier that returns content instead
//! of a filesystem path.

use vstd::prelude::*;

use base64::Engine;

verus! {

/// The standard-alphabet, padded base64 encoding of the bytes: a pure
/// function of its input.
pub uninterp spec fn base64_of(b: Seq<u8>) -> Seq<char>;

/// Relies on base64's general_purpose::STANDARD engine: standard alphabet
/// with `=` padding, four output characters for every started group of three
/// input bytes, the same output for the same bytes everywhere.
#[verifier::external_body]
fn base64_standard(bytes: &[u8]) -> (r: String)
    ensures
        r@ == base64_of(bytes@),
        r@.len() == 4 * ((bytes@.len() + 2) / 3),
{
    base64::engine::general_purpose::STANDARD.encode(bytes)
}

/// The `data:` URI serving the given content inline.
pub open spec fn data_url_spec(mimetype: Seq<char>, contents: Seq<u8>) -> Seq<char> {
    "data:"@ + mimetype + ";base64,"@ + base64_of(contents)
}

/// Build the `data:` URI that serves a chunk's content inline: the MIME
/// type, then the base64 payload.
pub fn chunk_data_url(mimetype: &str, contents: &[u8]) -> (r: String)
    ensures
        r@ == data_url_spec(mimetype@, contents@),
{
    proof {
        reveal_strlit("data:");
        reveal_strlit(";base64,");
    }
    let mut r = String::from_str("data:");
    r.append(mimetype);
    r.append(";base64,");
    let payload = base64_standard(contents);
    r.append(payload.as_str());
    r
}

} // verus!
