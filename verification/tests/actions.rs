use espx_ls::action_config::UserActionConfig;
use espx_ls::actions::{ActionBurn, ActionType, EspxAction, EspxActionBuilder};
use espx_ls::lexer::{Position, Range};

#[test]
fn code_actions_and_their_commands() {
    assert_eq!(EspxAction::all_variants(), vec![EspxAction::LookAtMe, EspxAction::PromptOnLine]);
    assert_eq!(EspxAction::LookAtMe.command_id(), "look_at_me");
    assert_eq!(EspxAction::PromptOnLine.command_id(), "prompt_on_line");
}

#[test]
fn prompt_action_title_and_edit() {
    let b = EspxActionBuilder::PromptOnLine {
        uri: "file:///a".to_string(),
        new_text: "let x = 1;".to_string(),
        line: 41,
        prompt: "explain".to_string(),
    };
    assert_eq!(b.builder(), EspxAction::PromptOnLine);
    assert_eq!(b.title(), "[explain] : 41");
    let e = b.edit().unwrap();
    assert_eq!(e.range.start, Position { line: 41, character: 0 });
    assert_eq!(e.range.end, Position { line: 42, character: 0 });
    assert_eq!(e.new_text, "let x = 1;\n");
}

#[test]
fn look_action_has_no_edit() {
    let b = EspxActionBuilder::LookAtMe { uri: "file:///a".to_string() };
    assert_eq!(b.builder(), EspxAction::LookAtMe);
    assert_eq!(b.title(), "Look At Me");
    assert!(b.edit().is_none());
}

#[test]
fn triggers_come_from_the_configuration() {
    let cfg = UserActionConfig::default();
    assert_eq!(
        ActionType::all_variants(),
        vec![ActionType::QuickPrompt, ActionType::RagPrompt, ActionType::WalkProject]
    );
    assert_eq!(ActionType::QuickPrompt.trigger_string(&cfg), "## ");
    assert_eq!(ActionType::RagPrompt.trigger_string(&cfg), "$$ ");
    assert_eq!(ActionType::WalkProject.trigger_string(&cfg), "@@");
    assert_eq!(ActionType::WalkProject.doing_action_title(), "Walking Project");
    assert_eq!(ActionType::QuickPrompt.doing_action_title(), "Quick Prompting Model");
    assert_eq!(ActionType::RagPrompt.doing_action_title(), "RAG Prompting Model");
}

#[test]
fn done_action_is_removed_through_one_past_its_end() {
    let burn = ActionBurn {
        typ: ActionType::QuickPrompt,
        range: Range {
            start: Position { line: 3, character: 7 },
            end: Position { line: 3, character: 20 },
        },
        user_input: Some("why".to_string()),
        replacement_text: "let a = ".to_string(),
    };
    let e = burn.workspace_edit();
    assert_eq!(e.range.start, Position { line: 3, character: 0 });
    assert_eq!(e.range.end, Position { line: 3, character: 21 });
    assert_eq!(e.new_text, "let a = ");
}

#[test]
fn parse_for_actions_returns_actions_correctly() {
    let input = r#"
        #$ Hello
        Blah blah blah
        this is not an action
        @@
        more stuff that isn't an action
    "#;
    let config = UserActionConfig { quick_prompt: "#$".to_string(), ..UserActionConfig::default() };
    let actions = espx_ls::actions::parse_for_actions(input, &config);
    assert_eq!(2, actions.len());

    let expected_start = Position { line: 1, character: 11 };
    let expected_end = Position { line: 1, character: 16 };
    assert_eq!(actions[0].range, Range { start: expected_start, end: expected_end });

    let expected_start = Position { line: 4, character: 8 };
    let expected_end = Position { line: 4, character: 10 };
    assert_eq!(actions[1].range, Range { start: expected_start, end: expected_end });
}

#[test]
fn parsed_actions_carry_their_prompt_and_text_before() {
    let config = UserActionConfig::default();
    let text = "let a = 1; ## what is a\nnothing\n$$ find it\nx @@ here\n";
    let actions = espx_ls::actions::parse_for_actions(text, &config);
    assert_eq!(actions.len(), 3);
    assert_eq!(actions[0].typ, ActionType::QuickPrompt);
    assert_eq!(actions[0].replacement_text, "let a = 1; ");
    assert_eq!(actions[0].user_input, Some("what is a".to_string()));
    assert_eq!(actions[1].typ, ActionType::RagPrompt);
    assert_eq!(actions[1].range.start, Position { line: 2, character: 3 });
    assert_eq!(actions[2].typ, ActionType::WalkProject);
    assert_eq!(actions[2].user_input, None);
    assert_eq!(actions[2].range.start, Position { line: 3, character: 2 });
    assert_eq!(actions[2].range.end, Position { line: 3, character: 9 });
    assert_eq!(
        espx_ls::actions::get_prompt_on_line("a ## b ## c", "## "),
        Some(("a ".to_string(), "b ## c".to_string()))
    );
    assert_eq!(espx_ls::actions::get_prompt_on_line("abc", "## "), None);
}
