use ui5_dts::text::{
    contains_str, eq_str, find_char, is_ws_char, join_strs, last_segment_str, split_str,
    starts_with_str, trim_str,
};

#[test]
fn trimming_matches_str_trim() {
    for s in ["", "  ", " a b ", "\t\n\r\u{b}\u{c}x\u{85}", "\u{2000}y\u{200a}", "\u{3000}z\u{202f}", "\u{200b}w"] {
        assert_eq!(trim_str(s), s.trim());
    }
    for c in ['\u{1680}', '\u{2028}', '\u{2029}', '\u{205f}', '\u{a0}', ' ', 'a', '\u{200b}', '\u{180e}'] {
        assert_eq!(is_ws_char(c), c.is_whitespace());
    }
}

#[test]
fn prefixes_and_substrings() {
    assert!(starts_with_str("sap.m", "sap"));
    assert!(!starts_with_str("sa", "sap"));
    assert!(starts_with_str("x", ""));
    assert!(contains_str("module:sap/x", "module"));
    assert!(!contains_str("modul", "module"));
    assert!(contains_str("", ""));
    assert!(contains_str("a.b", "."));
    assert!(eq_str("function", "function"));
    assert!(!eq_str("function", "function()"));
}

#[test]
fn finding_characters() {
    assert_eq!(find_char("Promise.<x>", '<'), Some(8));
    assert_eq!(find_char("a<b<c", '<'), Some(1));
    assert_eq!(find_char("abc", '<'), None);
    assert_eq!(find_char("\u{e9}<", '<'), Some(1));
}

#[test]
fn splitting_and_joining() {
    assert_eq!(split_str("sap/m/Button", '/'), vec!["sap", "m", "Button"]);
    assert_eq!(split_str("", '/'), vec![""]);
    assert_eq!(split_str("/a/", '/'), vec!["", "a", ""]);
    assert_eq!(last_segment_str("sap.m.Button", '.'), "Button");
    assert_eq!(last_segment_str("Button", '.'), "Button");
    let parts = vec!["a".to_string(), "".to_string(), "b".to_string()];
    assert_eq!(join_strs(&parts, ", "), "a, , b");
    assert_eq!(join_strs(&vec![], "|"), "");
    for s in ["", "a|b", "|", "x||y|"] {
        assert_eq!(join_strs(&split_str(s, '|'), "|"), s);
    }
}
