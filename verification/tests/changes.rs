use espx_ls::changes::ChangesLookup;

fn c(line: usize, char_idx: usize, ch: char) -> ChangesLookup {
    ChangesLookup { line, char_idx, char: ch }
}

#[test]
fn changes_grouped_by_line_last_first() {
    let m = ChangesLookup::to_line_map(vec![c(2, 0, 'a'), c(1, 5, 'x'), c(2, 1, 'b'), c(2, 2, 'c')]);
    assert_eq!(m.len(), 2);
    assert_eq!(m.get(&2), Some(&vec![(2, 'c'), (1, 'b'), (0, 'a')]));
    assert_eq!(m.get(&1), Some(&vec![(5, 'x')]));
    assert!(m.get(&0).is_none());
}

#[test]
fn no_changes_no_lines() {
    assert!(ChangesLookup::to_line_map(vec![]).is_empty());
}
