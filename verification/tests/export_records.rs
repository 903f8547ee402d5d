use autorag_data::export_rows::{
    document_csv_row, image_chunk_csv_row, join_with_pipe, query_csv_row, relation_csv_row,
};
use autorag_data::models::{Query, RetrievalRelation};

fn strings(items: &[&str]) -> Vec<String> {
    items.iter().map(|s| s.to_string()).collect()
}

#[test]
fn document_rows_render_missing_fields_empty() {
    let row = document_csv_row(
        7,
        &Some(String::from("f.pdf")),
        &None,
        &Some(String::from("A Title")),
        &Some(String::from("{\"k\":1}")),
    );
    assert_eq!(row, strings(&["7", "f.pdf", "", "A Title", "{\"k\":1}"]));
    let row = document_csv_row(1, &None, &None, &None, &None);
    assert_eq!(row, strings(&["1", "", "", "", ""]));
}

#[test]
fn query_rows_join_answers_with_pipes() {
    let q = Query {
        id: 12,
        contents: String::from("what is shown?"),
        query_to_llm: None,
        generation_gt: Some(strings(&["a", "b", "c"])),
    };
    assert_eq!(query_csv_row(&q), strings(&["12", "what is shown?", "", "a|b|c"]));

    let q = Query {
        id: 13,
        contents: String::from("q"),
        query_to_llm: Some(String::from("prompt")),
        generation_gt: None,
    };
    assert_eq!(query_csv_row(&q), strings(&["13", "q", "prompt", ""]));

    assert_eq!(join_with_pipe(&strings(&["only"])), "only");
    assert_eq!(join_with_pipe(&Vec::new()), "");
}

#[test]
fn relation_rows_render_the_composite_key_and_score() {
    let rel = RetrievalRelation {
        query_id: 3,
        group_index: 0,
        group_order: 2,
        chunk_id: None,
        image_chunk_id: Some(14),
        score: 1,
    };
    assert_eq!(relation_csv_row(&rel), strings(&["3", "0", "2", "", "14", "1"]));
}

#[test]
fn image_chunk_rows_render_page_context() {
    let row = image_chunk_csv_row(5, &Some(2), &String::from("image/png"), &Some(1), &Some(9));
    assert_eq!(row, strings(&["5", "2", "image/png", "1", "9"]));
    let row = image_chunk_csv_row(6, &None, &String::from("image/webp"), &None, &None);
    assert_eq!(row, strings(&["6", "", "image/webp", "", ""]));
}
