//! The record shaping of the dataset export: how each relational row is
//! rendered into the string fields of one CSV record.
//!
//! Writing the files is the shell's job; here the fields themselves are
//! fixed — absent values become empty strings, ids and scores are rendered
//! in decimal, and a query's accepted answers are joined with `|`.

use vstd::prelude::*;

use crate::models::{Query, RetrievalRelation};
use crate::numfmt::{i64_to_string, int_rep};

verus! {

/// The pieces joined with a `|` between consecutive ones.
pub open spec fn joined_with_pipe(v: Seq<Seq<char>>) -> Seq<char>
    decreases v.len(),
{
    if v.len() == 0 {
        Seq::empty()
    } else if v.len() == 1 {
        v[0]
    } else {
        joined_with_pipe(v.drop_last()) + "|"@ + v.last()
    }
}

/// The text of an optional string field: its characters, or nothing.
pub open spec fn opt_text(o: Option<Seq<char>>) -> Seq<char> {
    match o {
        Option::Some(s) => s,
        Option::None => Seq::empty(),
    }
}

/// The text of an optional id field: its decimal digits, or nothing.
pub open spec fn opt_id_text(o: Option<i64>) -> Seq<char> {
    match o {
        Option::Some(i) => int_rep(i as int),
        Option::None => Seq::empty(),
    }
}

/// Join strings with `|`, as the accepted answers of a query are stored in
/// one CSV field.
pub fn join_with_pipe(items: &Vec<String>) -> (r: String)
    ensures
        r@ == joined_with_pipe(items.deep_view()),
{
    proof {
        reveal_strlit("|");
    }
    let mut r = String::new();
    let n = items.len();
    let mut i: usize = 0;
    while i < n
        invariant
            n == items@.len(),
            i <= n,
            r@ == joined_with_pipe(items.deep_view().subrange(0, i as int)),
        decreases n - i,
    {
        if i > 0 {
            r.append("|");
        }
        r.append(items[i].as_str());
        proof {
            let dv = items.deep_view();
            assert(dv.subrange(0, i + 1 as int).drop_last() =~~= dv.subrange(0, i as int));
            assert(dv.subrange(0, i + 1 as int).last() == items@[i as int]@);
        }
        i = i + 1;
    }
    proof {
        assert(items.deep_view().subrange(0, n as int) =~~= items.deep_view());
    }
    r
}

/// An optional string field's CSV text.
fn option_text_exec(o: &Option<String>) -> (r: String)
    ensures
        r@ == opt_text(o.deep_view()),
{
    match o {
        Option::Some(s) => s.clone(),
        Option::None => String::new(),
    }
}

/// An optional id field's CSV text.
fn option_id_exec(o: &Option<i64>) -> (r: String)
    ensures
        r@ == opt_id_text(*o),
{
    match o {
        Option::Some(i) => i64_to_string(*i),
        Option::None => String::new(),
    }
}

/// The CSV record of one document row: id, filename, author, title, and the
/// metadata JSON text, with absent fields empty.
pub fn document_csv_row(
    id: i64,
    filename: &Option<String>,
    author: &Option<String>,
    title: &Option<String>,
    doc_metadata: &Option<String>,
) -> (r: Vec<String>)
    ensures
        r.deep_view() == seq![
            int_rep(id as int),
            opt_text(filename.deep_view()),
            opt_text(author.deep_view()),
            opt_text(title.deep_view()),
            opt_text(doc_metadata.deep_view()),
        ],
{
    let mut r: Vec<String> = Vec::new();
    r.push(i64_to_string(id));
    r.push(option_text_exec(filename));
    r.push(option_text_exec(author));
    r.push(option_text_exec(title));
    r.push(option_text_exec(doc_metadata));
    proof {
        assert(r.deep_view() =~~= seq![
            int_rep(id as int),
            opt_text(filename.deep_view()),
            opt_text(author.deep_view()),
            opt_text(title.deep_view()),
            opt_text(doc_metadata.deep_view()),
        ]);
    }
    r
}

/// The CSV record of one query row: id, contents, the model prompt, and the
/// accepted answers joined with `|`.
pub fn query_csv_row(q: &Query) -> (r: Vec<String>)
    ensures
        r.deep_view() == seq![
            int_rep(q.id as int),
            q.contents@,
            opt_text(q.query_to_llm.deep_view()),
            match q.generation_gt.deep_view() {
                Option::Some(v) => joined_with_pipe(v),
                Option::None => Seq::<char>::empty(),
            },
        ],
{
    let mut r: Vec<String> = Vec::new();
    r.push(i64_to_string(q.id));
    r.push(q.contents.clone());
    r.push(option_text_exec(&q.query_to_llm));
    let gt = match &q.generation_gt {
        Option::Some(v) => join_with_pipe(v),
        Option::None => String::new(),
    };
    r.push(gt);
    proof {
        assert(r.deep_view() =~~= seq![
            int_rep(q.id as int),
            q.contents@,
            opt_text(q.query_to_llm.deep_view()),
            match q.generation_gt.deep_view() {
                Option::Some(v) => joined_with_pipe(v),
                Option::None => Seq::<char>::empty(),
            },
        ]);
    }
    r
}

/// The CSV record of one retrieval relation: the composite key, the two
/// optional evidence ids (exactly one of which is set), and the score.
pub fn relation_csv_row(rel: &RetrievalRelation) -> (r: Vec<String>)
    ensures
        r.deep_view() == seq![
            int_rep(rel.query_id as int),
            int_rep(rel.group_index as int),
            int_rep(rel.group_order as int),
            opt_id_text(rel.chunk_id),
            opt_id_text(rel.image_chunk_id),
            int_rep(rel.score as int),
        ],
{
    let mut r: Vec<String> = Vec::new();
    r.push(i64_to_string(rel.query_id));
    r.push(i64_to_string(rel.group_index as i64));
    r.push(i64_to_string(rel.group_order as i64));
    r.push(option_id_exec(&rel.chunk_id));
    r.push(option_id_exec(&rel.image_chunk_id));
    r.push(i64_to_string(rel.score as i64));
    proof {
        assert(r.deep_view() =~~= seq![
            int_rep(rel.query_id as int),
            int_rep(rel.group_index as int),
            int_rep(rel.group_order as int),
            opt_id_text(rel.chunk_id),
            opt_id_text(rel.image_chunk_id),
            int_rep(rel.score as int),
        ]);
    }
    r
}

/// The CSV record of one image chunk row joined with its page: chunk id and
/// parent page, MIME type, and the page's ordinal and document when known.
pub fn image_chunk_csv_row(
    id: i64,
    parent_page: &Option<i64>,
    mimetype: &String,
    page_num: &Option<i32>,
    document_id: &Option<i64>,
) -> (r: Vec<String>)
    ensures
        r.deep_view() == seq![
            int_rep(id as int),
            opt_id_text(*parent_page),
            mimetype@,
            match *page_num {
                Option::Some(n) => int_rep(n as int),
                Option::None => Seq::<char>::empty(),
            },
            opt_id_text(*document_id),
        ],
{
    let mut r: Vec<String> = Vec::new();
    r.push(i64_to_string(id));
    r.push(option_id_exec(parent_page));
    r.push(mimetype.clone());
    let pn = match page_num {
        Option::Some(n) => i64_to_string(*n as i64),
        Option::None => String::new(),
    };
    r.push(pn);
    r.push(option_id_exec(document_id));
    proof {
        assert(r.deep_view() =~~= seq![
            int_rep(id as int),
            opt_id_text(*parent_page),
            mimetype@,
            match *page_num {
                Option::Some(n) => int_rep(n as int),
                Option::None => Seq::<char>::empty(),
            },
            opt_id_text(*document_id),
        ]);
    }
    r
}

/// The file name an exported image chunk is written under: its id with the
/// image extension.
pub fn image_export_filename(id: i64) -> (r: String)
    ensures
        r@ == int_rep(id as int) + ".png"@,
{
    proof {
        reveal_strlit(".png");
    }
    let mut r = i64_to_string(id);
    r.append(".png");
    r
}

} // verus!
