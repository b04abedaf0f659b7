use espx_ls::lexer::{Lexer, ParsedComment, Position, Range, Token};

#[test]
fn at_begginning_of_slice_works() {
    let input = "pub mod lexer;";
    let mut lexer = Lexer::new(input, "rs");

    lexer.progress_char();
    lexer.progress_char();
    lexer.progress_char();
    lexer.progress_char();

    assert!(lexer.at_beginning_of_slice("mod"));

    let input = "\n";
    let lexer = Lexer::new(input, "rs");
    assert!(lexer.at_beginning_of_slice("\n"));
}

#[test]
fn lexing_rust_comments_works() {
    let input = r#"
pub mod lexer;
use std::sync::LazyLock;

use lsp_types::Range;

use super::{CommandError, CommandResult};

// Comment
pub struct ParsedComment {
    content: String,
    range: Range,
}

/*
Multiline
comment
*/
pub struct MoreCode;
        "#;

    let mut lexer = Lexer::new(input, "rs");
    println!("created lexer: {lexer:?}");
    let tokens = lexer.lex_input().unwrap();
    let expected = vec![
        Token::Block(String::from(
            "\npub mod lexer;\nuse std::sync::LazyLock;\n\n",
        )),
        Token::Block(String::from("use lsp_types::Range;\n\n")),
        Token::Block(String::from(
            "use super::{CommandError, CommandResult};\n\n",
        )),
        Token::CommentStr,
        Token::Comment(ParsedComment {
            content: " Comment".to_string(),
            range: Range {
                start: Position {
                    line: 8,
                    character: 3,
                },
                end: Position {
                    line: 8,
                    character: 11,
                },
            },
        }),
        Token::Block(String::from(
            r#"pub struct ParsedComment {
    content: String,
    range: Range,
}

"#,
        )),
        Token::CommentStr,
        Token::Comment(ParsedComment {
            content: "\nMultiline\ncomment\n".to_string(),
            range: Range {
                start: Position {
                    line: 14,
                    character: 3,
                },
                end: Position {
                    line: 17,
                    character: 1,
                },
            },
        }),
        Token::CommentStr,
        Token::Block(String::from(
            r#"
pub struct MoreCode;
        "#,
        )),
        Token::End,
    ];

    assert_eq!(tokens, expected);
}

#[test]
fn the_first_character_is_kept_as_written() {
    let mut lexer = Lexer::new("Ab", "rs");
    let tokens = lexer.lex_input().unwrap();
    assert_eq!(tokens, vec![Token::Block("Ab".to_string()), Token::End]);
}

#[test]
fn a_slice_running_past_the_input_does_not_match() {
    let lexer = Lexer::new("/", "rs");
    assert!(!lexer.at_beginning_of_slice("//"));
    let lexer = Lexer::new("// x", "rs");
    assert!(lexer.at_beginning_of_slice("//"));
}
