use espx_ls::text::{
    join_str, contains_str, decimal_string, join_with_newlines, path_join, split_newline_pieces,
    text_lines_of, trim_start_matches_str, trim_str,
};

#[test]
fn lines_follow_str_lines() {
    for s in ["", "a", "a\n", "a\r\nb", "a\n\nb\n", "x\r", "\n", "a\rb\r\n"] {
        let expected: Vec<String> = s.lines().map(|l| l.to_string()).collect();
        assert_eq!(text_lines_of(s), expected, "lines of {:?}", s);
        let pieces: Vec<String> = s.split('\n').map(|l| l.to_string()).collect();
        assert_eq!(split_newline_pieces(s), pieces, "pieces of {:?}", s);
    }
}

#[test]
fn small_string_helpers() {
    assert_eq!(join_str("ab", "cd"), "abcd");
    assert_eq!(decimal_string(0), "0");
    assert_eq!(decimal_string(1907), "1907");
    assert_eq!(join_with_newlines(&["a".to_string(), "b".to_string()]), "a\nb");
    assert_eq!(trim_str("  a b \t\n"), "a b");
    assert_eq!(trim_str(" \u{3000}x\u{3000}"), "x");
    assert_eq!(trim_start_matches_str(",,a,", ","), "a,");
    assert!(contains_str("xCONTENTy", "CONTENT"));
    assert!(!contains_str("CONTEN", "CONTENT"));
    assert!(contains_str("abc", ""));
    assert_eq!(path_join("/a", "b"), "/a/b");
    assert_eq!(path_join("/a/", "b"), "/a/b");
}
