use espx_ls::executor::{ArgField, CommandArgument, EspxActionExecutor, ExecuteCommandParams, ExecutorError};
use espx_ls::lexer::{Position, Range};

fn no(m: &str) -> String {
    m.to_string()
}

fn text_field(json: &str, text: &str) -> ArgField {
    ArgField {
        json: json.to_string(),
        text: Ok(text.to_string()),
        line: Err(no("invalid type: string, expected u32")),
        uri: Ok(text.to_string()),
        range: Err(no("invalid type: string, expected struct Range")),
    }
}

fn line_field(n: u32) -> ArgField {
    ArgField {
        json: n.to_string(),
        text: Err(no("invalid type: integer, expected a string")),
        line: Ok(n),
        uri: Err(no("invalid type: integer, expected a string")),
        range: Err(no("invalid type: integer, expected struct Range")),
    }
}

fn object(fields: Vec<(&str, ArgField)>) -> CommandArgument {
    CommandArgument {
        fields: Some(fields.into_iter().map(|(k, f)| (k.to_string(), f)).collect()),
    }
}

#[test]
fn prompt_command_reads_its_arguments() {
    let params = ExecuteCommandParams {
        command: "prompt_on_line".to_string(),
        arguments: vec![
            CommandArgument { fields: None },
            object(vec![
                ("uri", text_field("\"file:///a\"", "file:///a")),
                ("new_text", text_field("\"let x\"", "let x")),
                ("line", line_field(4)),
                ("prompt", text_field("\"why\"", "why")),
            ]),
        ],
    };
    assert_eq!(
        EspxActionExecutor::try_from(params),
        Ok(EspxActionExecutor::PromptOnLine {
            uri: "file:///a".to_string(),
            new_text: "let x".to_string(),
            line: 4,
            prompt: "\"why\"".to_string(),
        })
    );
}

#[test]
fn prompt_with_a_bad_line_is_an_error() {
    let params = ExecuteCommandParams {
        command: "prompt_on_line".to_string(),
        arguments: vec![object(vec![
            ("prompt", text_field("\"why\"", "why")),
            ("line", text_field("\"four\"", "four")),
        ])],
    };
    assert_eq!(
        EspxActionExecutor::try_from(params),
        Err(ExecutorError::Json(no("invalid type: string, expected u32")))
    );
}

#[test]
fn look_command_and_unknown_commands() {
    let r = Range {
        start: Position { line: 1, character: 0 },
        end: Position { line: 2, character: 0 },
    };
    let range_field = ArgField {
        json: "{}".to_string(),
        text: Err(no("x")),
        line: Err(no("x")),
        uri: Err(no("x")),
        range: Ok(r),
    };
    let params = ExecuteCommandParams {
        command: "look_at_me".to_string(),
        arguments: vec![object(vec![("uri", text_field("\"u\"", "u")), ("range", range_field)])],
    };
    assert_eq!(
        EspxActionExecutor::try_from(params),
        Ok(EspxActionExecutor::LookAtMe { uri: "u".to_string(), range: r })
    );
    let unknown = ExecuteCommandParams { command: "other".to_string(), arguments: vec![] };
    assert_eq!(EspxActionExecutor::try_from(unknown), Err(ExecutorError::NoExecutor));
    let missing = ExecuteCommandParams { command: "prompt_on_line".to_string(), arguments: vec![] };
    assert_eq!(EspxActionExecutor::try_from(missing), Err(ExecutorError::NoExecutor));
}

#[test]
fn look_without_address_ignores_a_bad_range() {
    let bad_range = ArgField {
        json: "1".to_string(),
        text: Err(no("x")),
        line: Ok(1),
        uri: Err(no("x")),
        range: Err(no("invalid type: integer, expected struct Range")),
    };
    let params = ExecuteCommandParams {
        command: "look_at_me".to_string(),
        arguments: vec![object(vec![("range", bad_range)])],
    };
    assert!(espx_ls::executor::look_arguments_read(&params.arguments));
    assert_eq!(EspxActionExecutor::try_from(params), Err(ExecutorError::NoExecutor));
}

#[test]
fn fields_are_read_from_their_json_text() {
    let s = ArgField::from_json("\"abc\"");
    assert_eq!(s.json, "\"abc\"");
    assert_eq!(s.text, Ok("abc".to_string()));
    assert!(s.line.is_err());
    assert!(s.range.is_err());
    assert!(s.uri.is_ok());

    let l = ArgField::from_json("7");
    assert_eq!(l.line, Ok(7));
    assert!(l.text.is_err());
    assert!(l.uri.is_err());

    let u = ArgField::from_json("\"file:///tmp/a.rs\"");
    assert_eq!(u.uri, Ok("file:///tmp/a.rs".to_string()));
    let bad = ArgField::from_json("\"a b\"");
    assert!(bad.uri.unwrap_err().contains("unexpected character"));

    let r = ArgField::from_json(
        "{\"start\":{\"line\":1,\"character\":2},\"end\":{\"line\":3,\"character\":4}}",
    );
    assert_eq!(
        r.range,
        Ok(Range {
            start: Position { line: 1, character: 2 },
            end: Position { line: 3, character: 4 },
        })
    );
}

#[test]
fn a_command_read_from_json_fields_builds_its_action() {
    let params = ExecuteCommandParams {
        command: "prompt_on_line".to_string(),
        arguments: vec![object(vec![
            ("uri", ArgField::from_json("\"file:///a\"")),
            ("new_text", ArgField::from_json("\"let x\"")),
            ("line", ArgField::from_json("4")),
            ("prompt", ArgField::from_json("\"why\"")),
        ])],
    };
    assert_eq!(
        EspxActionExecutor::try_from(params),
        Ok(EspxActionExecutor::PromptOnLine {
            uri: "file:///a".to_string(),
            new_text: "let x".to_string(),
            line: 4,
            prompt: "\"why\"".to_string(),
        })
    );
}
