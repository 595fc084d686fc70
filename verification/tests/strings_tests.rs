use frb_codegen::strings::contains_sub;
use frb_codegen::strings::dec_str;
use frb_codegen::strings::str_eq;

#[test]
fn string_equality_is_by_characters() {
    assert!(str_eq("abc", "abc"));
    assert!(!str_eq("abc", "abd"));
    assert!(!str_eq("abc", "ab"));
    assert!(str_eq("", ""));
}

#[test]
fn substring_search_finds_runs() {
    assert!(contains_sub("let x = FLUTTER_RUST_BRIDGE_HANDLER;", "FLUTTER_RUST_BRIDGE_HANDLER"));
    assert!(contains_sub("abc", ""));
    assert!(contains_sub("abc", "bc"));
    assert!(!contains_sub("abc", "cb"));
    assert!(!contains_sub("ab", "abc"));
}

#[test]
fn decimal_rendering_is_exact() {
    assert_eq!(dec_str(0), "0");
    assert_eq!(dec_str(7), "7");
    assert_eq!(dec_str(10), "10");
    assert_eq!(dec_str(1234), "1234");
    assert_eq!(dec_str(1000000), "1000000");
}
