use espx_ls::actions::EspxAction;
use espx_ls::code_actions::EspxActionBuilder;
use espx_ls::lexer::{Position, Range};

fn prompt_builder() -> EspxActionBuilder {
    EspxActionBuilder::PromptOnLine {
        uri: "file:///tmp/a.rs".to_string(),
        new_text: "let x = 1;".to_string(),
        line: 7,
        prompt: "say \"hi\"".to_string(),
    }
}

fn pair(k: &str, v: &str) -> (String, String) {
    (k.to_string(), v.to_string())
}

#[test]
fn prompt_command_carries_its_fields_in_key_order() {
    let b = prompt_builder();
    assert_eq!(b.builder(), EspxAction::PromptOnLine);
    let c = b.command();
    assert_eq!(c.title, "prompt_on_line");
    assert_eq!(c.command, "prompt_on_line");
    assert_eq!(
        c.arguments,
        Some(vec![vec![
            pair("line", "7"),
            pair("new_text", "\"let x = 1;\""),
            pair("prompt", "\"say \\\"hi\\\"\""),
            pair("uri", "\"file:///tmp/a.rs\""),
        ]])
    );
}

#[test]
fn look_command_carries_the_address() {
    let b = EspxActionBuilder::LookAtMe { uri: "file:///tmp/b.rs".to_string() };
    assert_eq!(b.builder(), EspxAction::LookAtMe);
    let c = b.command();
    assert_eq!(c.title, "look_at_me");
    assert_eq!(c.command, "look_at_me");
    assert_eq!(c.arguments, Some(vec![vec![pair("uri", "\"file:///tmp/b.rs\"")]]));
    let a = b.code_action();
    assert_eq!(a.title, "Look At Me");
    assert_eq!(a.command, Some(c));
    assert_eq!(a.edit, None);
}

#[test]
fn prompt_code_action_replaces_its_line() {
    let b = prompt_builder();
    let a = b.code_action();
    assert_eq!(a.title, "[say \"hi\"] : 7");
    assert_eq!(a.command, Some(b.command()));
    let (uri, edit) = a.edit.unwrap();
    assert_eq!(uri, "file:///tmp/a.rs");
    assert_eq!(
        edit.range,
        Range {
            start: Position { line: 7, character: 0 },
            end: Position { line: 8, character: 0 },
        }
    );
    assert_eq!(edit.new_text, "let x = 1;\n");
}
