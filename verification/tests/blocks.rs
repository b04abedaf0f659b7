use espx_ls::blocks::{
    block_params_from, BlockIdError, DBBlock, DBBlockID, DBBlockParams, LINES_PER_BLOCK,
};
use espx_ls::lexer::{ParsedComment, Position, Range, Token};
use espx_ls::query::{DatabaseError, OneOf, Thing};

#[test]
fn block_id_encoding_decoding() {
    let test_doc_1_uri = "test_doc_1.rs".to_string();
    let id = DBBlockID::from_uri_and_index(&test_doc_1_uri, 0);
    let (uri, idx): (String, usize) = id.try_into_uri_and_index().unwrap();

    assert_eq!(uri, test_doc_1_uri);
    assert_eq!(0, idx);
}

#[test]
fn block_id_is_index_then_base64_address() {
    let id = DBBlockID::from_uri_and_index("test_doc_1.rs", 7);
    assert_eq!(id.0, "7dGVzdF9kb2NfMS5ycw");
    let long = DBBlockID::from_uri_and_index("file:///a.rs", 12);
    assert_eq!(long.0, "12ZmlsZTovLy9hLnJz");
}

#[test]
fn block_id_with_two_digit_index_is_read_by_its_first_digit() {
    let long = DBBlockID::from_uri_and_index("file:///a.rs", 12);
    // The rest after the first digit is no longer the address's base64 text.
    assert!(long.try_into_uri_and_index().is_err());
}

#[test]
fn block_id_read_errors() {
    assert_eq!(
        DBBlockID("xZmlsZTovLy9hLnJz".to_string()).try_into_uri_and_index(),
        Err(BlockIdError::Index)
    );
    assert_eq!(
        DBBlockID("3!!".to_string()).try_into_uri_and_index(),
        Err(BlockIdError::Encoding)
    );
    // "a b" is not a URI: a space is not allowed.
    assert_eq!(
        DBBlockID("0YSBi".to_string()).try_into_uri_and_index(),
        Err(BlockIdError::Uri)
    );
}

fn pos(line: u32, character: u32) -> Position {
    Position { line, character }
}

#[test]
fn blocks_take_the_code_outside_comments() {
    let tokens = vec![
        Token::Block("a\nb\n".to_string()),
        Token::CommentStr,
        Token::Comment(ParsedComment {
            content: " note".to_string(),
            range: Range { start: pos(2, 2), end: pos(2, 7) },
        }),
        Token::Block("c\n".to_string()),
        Token::End,
    ];
    let out = block_params_from(&tokens, "file:///a.rs");
    assert_eq!(out, vec![DBBlockParams::new("file:///a.rs", 0, Some("a\nb\nc".to_string()))]);
    assert_eq!(out[0].id.0, "0ZmlsZTovLy9hLnJz");
}

#[test]
fn blocks_are_cut_every_twenty_five_lines() {
    let text: String = (0..30).map(|i| format!("x{i}\n")).collect();
    let out = block_params_from(&vec![Token::Block(text), Token::End], "u");
    assert_eq!(out.len(), 2);
    let first: Vec<String> = (0..25).map(|i| format!("x{i}")).collect();
    let second: Vec<String> = (25..30).map(|i| format!("x{i}")).collect();
    assert_eq!(out[0].content, Some(first.join("\n")));
    assert_eq!(out[1].content, Some(second.join("\n")));
}

#[test]
fn blocks_stop_at_the_first_blank_group() {
    let mut text = String::new();
    for _ in 0..25 {
        text.push_str("  \n");
    }
    text.push_str("late\n");
    let out = block_params_from(&vec![Token::Block(text)], "u");
    assert!(out.is_empty());
}

fn block(emb: Option<&str>) -> DBBlock {
    DBBlock {
        id: Thing { tb: "blocks".to_string(), id: "b1".to_string() },
        uri: "u".to_string(),
        content: "x".to_string(),
        content_embedding: emb.map(|e| e.to_string()),
    }
}

#[test]
fn block_content_statements() {
    assert_eq!(
        DBBlock::content(OneOf::Left(&block(None))).unwrap(),
        "CONTENT {\n                uri: \"u\",\n                content: \"x\",\n                \n                }"
    );
    let p = DBBlockParams::new("u", 1, None);
    assert_eq!(DBBlock::content(OneOf::Right(&p)).unwrap(), "CONTENT { uri: \"u\" }");
}

#[test]
fn upsert_needs_uri_and_content() {
    let p = DBBlockParams::new("u", 1, Some("x".to_string()));
    assert_eq!(
        DBBlock::upsert(&p).unwrap(),
        "UPSERT blocks:1dQ CONTENT { uri: \"u\" ,content: \"x\" };"
    );
    let q = DBBlockParams::new("u", 1, None);
    assert!(matches!(DBBlock::upsert(&q), Err(DatabaseError::DbStruct(_))));
}

#[test]
fn correctly_parses_block() {
    let test_doc_1_uri = "test_doc_1.rs".to_string();
        let input = r#" 
// Comment without any command

// @_hey
fn main() {
    let mut raw = String::new();
    io::stdin()
        .read_to_string(&mut raw)
        .expect("failed to read io");
}

// +_
struct ToBePushed;

fn again() {
    let mut raw = String::new();
    io::stdin()
        .read_to_string(&mut raw)
        .expect("failed to read io");
}

fn again_again() {
    let mut raw = String::new();
    io::stdin()
        .read_to_string(&mut raw)
        .expect("failed to read io");
}

fn again_again_again() {
    let mut raw = String::new();
    io::stdin()
        .read_to_string(&mut raw)
        .expect("failed to read io");
}"#
        .to_string();

    let mut lexer = espx_ls::lexer::Lexer::new(&input, "rs");
    let tokens = lexer.lex_input().unwrap();

        let first_chunk_content = Some(String::from(
            r#" 

fn main() {
    let mut raw = String::new();
    io::stdin()
        .read_to_string(&mut raw)
        .expect("failed to read io");
}

struct ToBePushed;

fn again() {
    let mut raw = String::new();
    io::stdin()
        .read_to_string(&mut raw)
        .expect("failed to read io");
}

fn again_again() {
    let mut raw = String::new();
    io::stdin()
        .read_to_string(&mut raw)
        .expect("failed to read io");
}
"#,
        ));
        let second_chunk_content = Some(String::from(
            r#"fn again_again_again() {
    let mut raw = String::new();
    io::stdin()
        .read_to_string(&mut raw)
        .expect("failed to read io");
}"#,
        ));
        let expected = vec![
            DBBlockParams::new(&test_doc_1_uri, 0, first_chunk_content),
            DBBlockParams::new(&test_doc_1_uri, 1, second_chunk_content),
        ];

        let out = block_params_from(&tokens, &test_doc_1_uri);

        for (i, val) in out.iter().enumerate() {
            if i == 0 {
                assert_eq!(
                    val.content.clone().unwrap().lines().count(),
                    LINES_PER_BLOCK - 1
                );
            }
            if !expected.contains(&val) {
                panic!(
                    "expected does not contain values:\nEXPECTED: {expected:#?}\nVALUE: {val:#?}"
                )
            }
        }
}

#[test]
fn parsed_blocks_match_the_expected_two() {
    let test_doc_1_uri = "test_doc_1.rs".to_string();
        let input = r#" 
// Comment without any command

// @_hey
fn main() {
    let mut raw = String::new();
    io::stdin()
        .read_to_string(&mut raw)
        .expect("failed to read io");
}

// +_
struct ToBePushed;

fn again() {
    let mut raw = String::new();
    io::stdin()
        .read_to_string(&mut raw)
        .expect("failed to read io");
}

fn again_again() {
    let mut raw = String::new();
    io::stdin()
        .read_to_string(&mut raw)
        .expect("failed to read io");
}

fn again_again_again() {
    let mut raw = String::new();
    io::stdin()
        .read_to_string(&mut raw)
        .expect("failed to read io");
}"#
        .to_string();

    let mut lexer = espx_ls::lexer::Lexer::new(&input, "rs");
    let tokens = lexer.lex_input().unwrap();

        let first_chunk_content = Some(String::from(
            r#" 

fn main() {
    let mut raw = String::new();
    io::stdin()
        .read_to_string(&mut raw)
        .expect("failed to read io");
}

struct ToBePushed;

fn again() {
    let mut raw = String::new();
    io::stdin()
        .read_to_string(&mut raw)
        .expect("failed to read io");
}

fn again_again() {
    let mut raw = String::new();
    io::stdin()
        .read_to_string(&mut raw)
        .expect("failed to read io");
}
"#,
        ));
        let second_chunk_content = Some(String::from(
            r#"fn again_again_again() {
    let mut raw = String::new();
    io::stdin()
        .read_to_string(&mut raw)
        .expect("failed to read io");
}"#,
        ));
        let expected = vec![
            DBBlockParams::new(&test_doc_1_uri, 0, first_chunk_content),
            DBBlockParams::new(&test_doc_1_uri, 1, second_chunk_content),
        ];

        let out = block_params_from(&tokens, &test_doc_1_uri);

        assert_eq!(out, expected);
}
