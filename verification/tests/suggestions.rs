use http_composer::suggest::{common_headers, header_suggestions, MAX_SUGGESTIONS};

#[test]
fn short_draft_gives_no_suggestions() {
    let catalog = common_headers();
    assert!(header_suggestions(&catalog, "c").is_empty());
    assert!(header_suggestions(&catalog, "").is_empty());
}

#[test]
fn whitespace_only_draft_gives_no_suggestions() {
    let catalog = common_headers();
    assert!(header_suggestions(&catalog, "  \t ").is_empty());
    assert!(header_suggestions(&catalog, " c ").is_empty());
}

#[test]
fn draft_matches_catalog_entries() {
    let catalog = common_headers();
    let s = header_suggestions(&catalog, "cont");
    assert!(s.iter().any(|x| x == "Content-Type"));
    assert!(s.iter().any(|x| x == "Content-Length"));
}

#[test]
fn matching_is_case_insensitive() {
    let catalog = common_headers();
    let upper = header_suggestions(&catalog, "CONT");
    let lower = header_suggestions(&catalog, "cont");
    assert_eq!(upper, lower);
    assert!(upper.iter().any(|x| x == "Content-Type"));
}

#[test]
fn suggestions_preserve_catalog_order_and_truncate() {
    let catalog = common_headers();
    let s = header_suggestions(&catalog, "ac");
    assert_eq!(s.len(), MAX_SUGGESTIONS);
    assert_eq!(
        s,
        vec![
            "Accept".to_string(),
            "Accept-Charset".to_string(),
            "Accept-Encoding".to_string(),
            "Accept-Language".to_string(),
            "Cache-Control".to_string(),
        ]
    );
}

#[test]
fn unmatched_draft_gives_nothing() {
    let catalog = common_headers();
    assert!(header_suggestions(&catalog, "zzqq").is_empty());
}

#[test]
fn empty_catalog_gives_nothing() {
    let catalog: Vec<String> = Vec::new();
    assert!(header_suggestions(&catalog, "cont").is_empty());
}
