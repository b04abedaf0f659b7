use espx_ls::actions::{ActionBurn, ActionType};
use espx_ls::burn_cache::{Burn, BurnCache, BurnError, InBufferBurn};
use espx_ls::burns::EchoBurn;
use espx_ls::lexer::{Position, Range};

fn range(line: u32, start: u32, end: u32) -> Range {
    Range {
        start: Position { line, character: start },
        end: Position { line, character: end },
    }
}

fn echo(content: &str, line: u32) -> Burn {
    EchoBurn {
        content: content.to_string(),
        hover_contents: format!("This is test content for {}", content),
        range: range(line, 1, 3),
    }
    .into()
}

fn mock_burns() -> Vec<Burn> {
    vec![
        echo("@", 1),
        echo("&", 2),
        echo("%", 3),
        ActionBurn {
            typ: ActionType::QuickPrompt,
            range: range(4, 1, 5),
            user_input: Some("hey".to_string()),
            replacement_text: String::new(),
        }
        .into(),
    ]
}

fn test_burn_cache() -> BurnCache {
    let mut cache = BurnCache::default();
    for burn in mock_burns() {
        let url = if burn.range().start.line <= 2 {
            "file:///test/0"
        } else {
            "file:///test/1"
        };
        cache
            .save_burn(InBufferBurn { url: url.to_string(), burn })
            .unwrap();
    }
    cache
}

fn at(line: u32, character: u32) -> Position {
    Position { line, character }
}

#[test]
fn get_burn_by_position_works() {
    let cache = test_burn_cache();
    let test_url0 = "file:///test/0";
    let test_url1 = "file:///test/1";

    assert_eq!(
        "@",
        cache
            .get_burn_by_position(test_url0, at(1, 2))
            .unwrap()
            .burn
            .echo_placeholder()
            .unwrap()
            .as_str()
    );
    assert_eq!(
        "&",
        cache
            .get_burn_by_position(test_url0, at(2, 2))
            .unwrap()
            .burn
            .echo_placeholder()
            .unwrap()
            .as_str()
    );
    assert_eq!(
        "%",
        cache
            .get_burn_by_position(test_url1, at(3, 2))
            .unwrap()
            .burn
            .echo_placeholder()
            .unwrap()
            .as_str()
    );
    if let Burn::Action(_) = &cache.get_burn_by_position(test_url1, at(4, 2)).unwrap().burn {
    } else {
        assert!(false)
    }
}

#[test]
fn a_position_outside_the_burn_is_an_error() {
    let cache = test_burn_cache();
    assert_eq!(
        cache.get_burn_by_position("file:///test/0", at(1, 4)),
        Err(BurnError::Undefined(
            "Burn on document on line, but char position is wrong".to_string()
        ))
    );
}

#[test]
fn a_line_or_document_without_burns_is_an_error() {
    let cache = test_burn_cache();
    let none = Err(BurnError::Undefined("No burns on given document".to_string()));
    assert_eq!(cache.get_burn_by_position("file:///test/0", at(7, 2)), none);
    assert_eq!(cache.get_burn_by_position("file:///other", at(1, 2)), none);
}

#[test]
fn saving_on_a_taken_line_replaces_the_burn() {
    let mut cache = test_burn_cache();
    cache
        .save_burn(InBufferBurn { url: "file:///test/0".to_string(), burn: echo("!", 1) })
        .unwrap();
    let found = cache.get_burn_by_position("file:///test/0", at(1, 1)).unwrap();
    assert_eq!(found.burn.echo_placeholder(), Some("!".to_string()));
    assert_eq!(
        found.burn.hover_contents(),
        Some("This is test content for !".to_string())
    );
}

#[test]
fn all_echos_on_doc_skips_actions() {
    let cache = test_burn_cache();
    let echos = cache.all_echos_on_doc("file:///test/1").unwrap();
    assert_eq!(echos.len(), 1);
    assert_eq!(echos[0].burn.echo_placeholder(), Some("%".to_string()));
    let both = cache.all_echos_on_doc("file:///test/0").unwrap();
    let marks: Vec<String> = both
        .iter()
        .map(|b| b.burn.echo_placeholder().unwrap())
        .collect();
    assert_eq!(marks, vec!["@".to_string(), "&".to_string()]);
    assert!(cache.all_echos_on_doc("file:///missing").is_none());
}

#[test]
fn an_action_has_no_hover_or_placeholder() {
    let burns = mock_burns();
    assert_eq!(burns[3].hover_contents(), None);
    assert_eq!(burns[3].echo_placeholder(), None);
    assert_eq!(burns[3].range(), range(4, 1, 5));
}
