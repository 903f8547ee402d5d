use autorag_data::classify::{classify_source, SourceType};

#[test]
fn classifier_recognizes_documents() {
    let hint = Some(String::from("scan.pdf"));
    let r = classify_source(&hint, true);
    assert!(matches!(r, SourceType::Pdf(p) if p == "scan.pdf"));
}

#[test]
fn classifier_recognizes_images() {
    let r = classify_source(&Some(String::from("scan.png")), true);
    assert!(matches!(r, SourceType::Image(p) if p == "scan.png"));
    for name in ["a.jpg", "b.jpeg", "c.webp", "/x/y/d.PNG", "UPPER.JPG"] {
        let r = classify_source(&Some(String::from(name)), true);
        assert!(matches!(r, SourceType::Image(_)), "{name}");
    }
}

#[test]
fn classifier_is_case_insensitive_for_documents() {
    let r = classify_source(&Some(String::from("/docs/SCAN.PDF")), true);
    assert!(matches!(r, SourceType::Pdf(p) if p == "/docs/SCAN.PDF"));
}

#[test]
fn classifier_unavailable_cases() {
    // missing file
    assert!(matches!(classify_source(&Some(String::from("scan.pdf")), false), SourceType::Unavailable));
    // empty hint
    assert!(matches!(classify_source(&Some(String::new()), true), SourceType::Unavailable));
    // absent hint
    assert!(matches!(classify_source(&None, true), SourceType::Unavailable));
    // unknown extension
    assert!(matches!(classify_source(&Some(String::from("notes.txt")), true), SourceType::Unavailable));
    // no extension at all
    assert!(matches!(classify_source(&Some(String::from("Makefile")), true), SourceType::Unavailable));
    // a leading dot is a hidden file, not an extension
    assert!(matches!(classify_source(&Some(String::from("/a/.pdf")), true), SourceType::Unavailable));
    // dot in a parent directory only
    assert!(matches!(classify_source(&Some(String::from("/a.pdf/readme")), true), SourceType::Unavailable));
}

#[test]
fn classifier_is_independent_of_prior_calls() {
    let pdf = Some(String::from("scan.pdf"));
    let png = Some(String::from("scan.png"));
    for _ in 0..3 {
        assert!(matches!(classify_source(&pdf, true), SourceType::Pdf(_)));
        assert!(matches!(classify_source(&png, true), SourceType::Image(_)));
        assert!(matches!(classify_source(&pdf, false), SourceType::Unavailable));
    }
}
