use espx_ls::burns::{
    conversation_file_text, convert_ascii, split_message, BufferBurn, EchoBurn,
    BUFFER_PLACEHOLDERS, ECHO_PLACEHOLDERS,
};
use espx_ls::lexer::{Position, Range};

#[test]
fn messages_split_into_fixed_pieces() {
    assert_eq!(split_message("abcdefg", 3), vec!["abc", "def", "g"]);
    assert_eq!(split_message("abc", 3), vec!["abc"]);
    assert!(split_message("", 3).is_empty());
    assert_eq!(split_message("ééé", 2), vec!["éé", "é"]);
}

#[test]
fn roles_are_written_in_bold_letters() {
    assert_eq!(convert_ascii("User", '𝐀'), " 𝐔 𝐒 𝐄 𝐑 ");
    assert_eq!(convert_ascii("", '𝐀'), " ");
    assert_eq!(convert_ascii("ab", 'x'), " x y ");
}

#[test]
fn placeholders_are_drawn_from_their_alphabets() {
    for _ in 0..20 {
        let e = EchoBurn::generate_placeholder();
        assert_eq!(e.chars().count(), 1);
        assert!(ECHO_PLACEHOLDERS.contains(e.as_str()));
        let b = BufferBurn::generate_placeholder();
        assert_eq!(b.chars().count(), 1);
        assert!(BUFFER_PLACEHOLDERS.contains(b.as_str()));
    }
}

#[test]
fn conversation_file_lists_roles_and_content() {
    let long: String = "x".repeat(150);
    let messages = vec![
        ("system".to_string(), "hi".to_string()),
        ("user".to_string(), long.clone()),
    ];
    let text = conversation_file_text(&messages).unwrap();
    let expected = format!(
        "# {}\n\nhi\n# {}\n\n{}\n{}\n",
        convert_ascii("system", '𝐀'),
        convert_ascii("user", '𝐀'),
        &long[..100],
        &long[100..]
    );
    assert_eq!(text, expected);
}

#[test]
fn conversation_file_refuses_roles_before_a() {
    let messages = vec![("role 1".to_string(), "x".to_string())];
    assert_eq!(conversation_file_text(&messages), None);
}

#[test]
fn burns_write_their_marks() {
    let r = Range {
        start: Position { line: 1, character: 4 },
        end: Position { line: 1, character: 5 },
    };
    let echo = EchoBurn { content: "⚑".to_string(), hover_contents: "h".to_string(), range: r };
    let e = echo.workspace_edit();
    assert_eq!(e.range, r);
    assert_eq!(e.new_text, "⚑");
    let buffer = BufferBurn {
        content: "∀".to_string(),
        uri: "file:///a".to_string(),
        diagnostic_ranges: vec![r],
        hover_contents: "h".to_string(),
    };
    assert_eq!(buffer.range(), r);
    let (label, edit) = buffer.workspace_edit();
    assert_eq!(label, "Insert rune: ∀");
    assert_eq!(edit.new_text, "∀");
    assert_eq!(edit.range, r);
}

#[test]
fn placeholder_pick_by_index() {
    assert_eq!(espx_ls::burns::char_of_index(ECHO_PLACEHOLDERS, 0), "Ȣ");
    assert_eq!(espx_ls::burns::char_of_index(ECHO_PLACEHOLDERS, 25), "➪");
    assert_eq!(espx_ls::burns::char_of_index(BUFFER_PLACEHOLDERS, 1), "∁");
}
