use espx_ls::burns::BufferBurn;
use espx_ls::lexer::{Position, Range};
use espx_ls::runes::{CacheError, GlobalRunes};

fn burn(line: u32, from: u32, to: u32, hover: &str) -> BufferBurn {
    BufferBurn {
        content: "∀".to_string(),
        uri: "file:///test/0".to_string(),
        diagnostic_ranges: vec![Range {
            start: Position { line, character: from },
            end: Position { line, character: to },
        }],
        hover_contents: hover.to_string(),
    }
}

#[test]
fn saved_burns_are_found_by_position() {
    let mut runes = GlobalRunes::default();
    runes.save_burn("file:///test/0", burn(1, 0, 3, "@")).unwrap();
    runes.save_burn("file:///test/0", burn(2, 1, 2, "&")).unwrap();
    runes.save_burn("file:///test/1", burn(3, 2, 2, "%")).unwrap();
    let at = |line, character| Position { line, character };
    assert_eq!(runes.get_burn_by_position("file:///test/0", at(1, 2)), Ok("@".to_string()));
    assert_eq!(runes.get_burn_by_position("file:///test/0", at(2, 2)), Ok("&".to_string()));
    assert_eq!(runes.get_burn_by_position("file:///test/1", at(3, 2)), Ok("%".to_string()));
    assert_eq!(
        runes.get_burn_by_position("file:///test/0", at(2, 3)),
        Err(CacheError::NotPresent)
    );
    assert_eq!(
        runes.get_burn_by_position("file:///test/0", at(9, 0)),
        Err(CacheError::Undefined("No burns on line: 9".to_string()))
    );
    assert_eq!(
        runes.get_burn_by_position("file:///test/9", at(1, 2)),
        Err(CacheError::NotPresent)
    );
}

#[test]
fn first_covering_burn_on_a_line_wins() {
    let mut runes = GlobalRunes::default();
    runes.save_burn("u", burn(4, 0, 10, "first")).unwrap();
    runes.save_burn("u", burn(4, 5, 6, "second")).unwrap();
    assert_eq!(
        runes.get_burn_by_position("u", Position { line: 4, character: 5 }),
        Ok("first".to_string())
    );
}

#[test]
fn all_burns_of_a_document() {
    let mut runes = GlobalRunes::default();
    assert!(matches!(runes.all_burns_on_doc("u"), Err(CacheError::NotPresent)));
    runes.save_burn("u", burn(4, 0, 1, "a")).unwrap();
    runes.save_burn("u", burn(2, 0, 1, "b")).unwrap();
    runes.save_burn("u", burn(4, 2, 3, "c")).unwrap();
    runes.save_burn("v", burn(4, 2, 3, "d")).unwrap();
    let hovers: Vec<String> = runes
        .all_burns_on_doc("u")
        .unwrap()
        .iter()
        .map(|b| b.hover_contents.clone())
        .collect();
    assert_eq!(hovers, vec!["a", "c", "b"]);
}
