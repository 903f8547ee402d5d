use autorag_data::pdfinfo::{parse_pdf_info, PdfInfoError};

#[test]
fn parses_pages_title_and_author() {
    let out = "Title:          Annual Report\nAuthor:         Jo Curator\nPages:          12\nPage size:      612 x 792 pts\n";
    let info = parse_pdf_info(out).unwrap();
    assert_eq!(info.page_count, 12);
    assert_eq!(info.title.as_deref(), Some("Annual Report"));
    assert_eq!(info.author.as_deref(), Some("Jo Curator"));
}

#[test]
fn missing_page_count_is_an_error() {
    let r = parse_pdf_info("Title: something\n");
    assert_eq!(r.unwrap_err(), PdfInfoError::NoPageCount);
    assert_eq!(
        PdfInfoError::NoPageCount.message(),
        "Could not determine page count"
    );
    assert!(parse_pdf_info("").is_err());
}

#[test]
fn unparsable_page_count_counts_as_zero() {
    assert!(parse_pdf_info("Pages: many\n").is_err());
    // out of the 32-bit range: the parse yields zero
    assert!(parse_pdf_info("Pages: 2147483648\n").is_err());
    // within range
    assert_eq!(parse_pdf_info("Pages: 2147483647\n").unwrap().page_count, i32::MAX);
}

#[test]
fn last_pages_line_wins() {
    let info = parse_pdf_info("Pages: 1\nPages: 4\n").unwrap();
    assert_eq!(info.page_count, 4);
}

#[test]
fn empty_values_are_not_recorded() {
    let info = parse_pdf_info("Title:    \nPages: 2\n").unwrap();
    assert_eq!(info.title, None);
    assert_eq!(info.page_count, 2);
}

#[test]
fn values_may_contain_colons_and_carriage_returns() {
    let info = parse_pdf_info("Title: a:b:c\r\nPages: 3\r\n").unwrap();
    assert_eq!(info.title.as_deref(), Some("a:b:c"));
    assert_eq!(info.page_count, 3);
}

#[test]
fn missing_newline_on_last_line_is_fine() {
    let info = parse_pdf_info("Pages: 9").unwrap();
    assert_eq!(info.page_count, 9);
}
