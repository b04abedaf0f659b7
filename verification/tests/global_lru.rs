use espx_ls::global_lru::GlobalLRU;
use espx_ls::runes::CacheError;

#[test]
fn listener_is_told_every_fifth_update() {
    let mut g = GlobalLRU::default();
    for i in 0..4 {
        g.update_doc("text", format!("file:///{i}")).unwrap();
        assert!(!g.listener_update);
    }
    g.update_doc("text", "file:///4".to_string()).unwrap();
    assert!(g.listener_update);
    assert_eq!(g.updates_counter, 0);
    // While the listener has not taken its update, updates only count up.
    g.update_doc("more", "file:///4".to_string()).unwrap();
    assert!(g.listener_update);
    assert_eq!(g.updates_counter, 1);
}

#[test]
fn cached_documents_are_read_back() {
    let mut g = GlobalLRU::default();
    g.update_doc("hello", "file:///a".to_string()).unwrap();
    assert_eq!(g.get_doc(&"file:///a".to_string()), Ok("hello".to_string()));
    assert_eq!(g.get_doc(&"file:///b".to_string()), Err(CacheError::NotPresent));
    assert!(!g.docs_at_capacity());
}
