use http_composer::json::body_is_valid;
use http_composer::request::{HttpMethod, QueryParam};
use http_composer::suggest::common_headers;
use http_composer::text::{contains_str, is_blank, trim_str, white_char};

#[test]
fn body_validity_matches_json_syntax() {
    assert!(body_is_valid("{}"));
    assert!(!body_is_valid("{"));
    assert!(body_is_valid(""));
}

#[test]
fn blank_bodies_are_valid() {
    assert!(body_is_valid("   "));
    assert!(body_is_valid(" \t\r\n "));
}

#[test]
fn json_forms_recognised() {
    assert!(body_is_valid("null"));
    assert!(body_is_valid("[1, 2, 3]"));
    assert!(body_is_valid("{\"a\": 1}"));
    assert!(body_is_valid("\"text\""));
    assert!(!body_is_valid("not json"));
    assert!(!body_is_valid("{\"a\": }"));
}

#[test]
fn trim_matches_std_trim() {
    for s in [
        "",
        "   ",
        "  x  ",
        "x",
        "\t hello world \n",
        "\u{a0}padded\u{a0}",
        "\u{3000}wide\u{3000}",
        "inner  space",
        " \u{85}\u{2028}mix\u{202f} ",
    ] {
        assert_eq!(trim_str(s), s.trim(), "trimming {:?}", s);
    }
}

#[test]
fn blankness() {
    assert!(is_blank(""));
    assert!(is_blank(" \t\r\n"));
    assert!(is_blank("\u{2003}\u{2009}"));
    assert!(!is_blank(" x "));
}

#[test]
fn whitespace_class_matches_std() {
    for c in [' ', '\t', '\n', 'a', '0', '-', '\u{a0}', '\u{1680}', '\u{200a}', '\u{200b}', '\u{3000}'] {
        assert_eq!(white_char(c), c.is_whitespace(), "classifying {:?}", c);
    }
}

#[test]
fn substring_search() {
    assert!(contains_str("content-type", "tent"));
    assert!(contains_str("content-type", "content-type"));
    assert!(contains_str("anything", ""));
    assert!(!contains_str("ab", "abc"));
    assert!(!contains_str("content-type", "Type"));
}

#[test]
fn method_names() {
    assert_eq!(HttpMethod::GET.name(), "GET");
    assert_eq!(HttpMethod::POST.name(), "POST");
    assert_eq!(HttpMethod::PUT.name(), "PUT");
    assert_eq!(HttpMethod::DELETE.name(), "DELETE");
    assert_eq!(HttpMethod::PATCH.name(), "PATCH");
    assert_eq!(HttpMethod::default(), HttpMethod::GET);
}

#[test]
fn pair_display_lines() {
    let p = QueryParam::new("page".to_string(), "2".to_string());
    assert_eq!(p.line(), "page: 2");
}

#[test]
fn catalog_contents() {
    let c = common_headers();
    assert_eq!(c.len(), 27);
    assert!(c.iter().any(|h| h == "Content-Type"));
    assert_eq!(c[0], "Accept");
    assert_eq!(c[26], "Access-Control-Allow-Headers");
}
