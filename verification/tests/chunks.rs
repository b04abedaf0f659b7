use espx_ls::chunks::{chunk_text, get_chunk_ref_by_line, DBChunk, DBChunkParams};
use espx_ls::doc_chunks;
use espx_ls::query::{DatabaseError, OneOf, Thing};

fn hundred_lines() -> String {
    (0..100).map(|i| format!("l{i}")).collect::<Vec<_>>().join("\n")
}

fn joined(lo: usize, hi: usize) -> String {
    (lo..=hi).map(|i| format!("l{i}")).collect::<Vec<_>>().join("\n")
}

#[test]
fn chunks_grow_apart_and_overlap() {
    let chunks = chunk_text(&hundred_lines());
    let ranges: Vec<(u32, u32)> = chunks.iter().map(|c| c.0).collect();
    assert_eq!(ranges, vec![(0, 20), (21, 41), (43, 84), (66, 99), (90, 99)]);
    assert_eq!(chunks[0].1, joined(0, 20));
    assert_eq!(chunks[2].1, joined(43, 84));
    assert_eq!(chunks[4].1, joined(90, 99));
}

#[test]
fn usize_chunks_match_u32_chunks() {
    let a = chunk_text(&hundred_lines());
    let b = doc_chunks::chunk_text(&hundred_lines());
    assert_eq!(a.len(), b.len());
    for (x, y) in a.iter().zip(b.iter()) {
        assert_eq!((x.0 .0 as usize, x.0 .1 as usize), y.0);
        assert_eq!(x.1, y.1);
    }
}

#[test]
fn short_and_empty_documents() {
    assert_eq!(chunk_text("a\r\nb\n"), vec![((0, 1), "a\nb".to_string())]);
    assert!(chunk_text("").is_empty());
}

fn chunk(range: (u32, u32), emb: Option<&str>) -> DBChunk {
    DBChunk {
        id: Thing { tb: "doc_chunks".to_string(), id: "x".to_string() },
        uri: "file:///a.rs".to_string(),
        content: "fn main() {}".to_string(),
        content_embedding: emb.map(|e| e.to_string()),
        range,
    }
}

#[test]
fn whole_chunk_content_statement() {
    let c = chunk((3, 12), None);
    let expected = "CONTENT {\n                    uri: \"file:///a.rs\",\n                    content: \"fn main() {}\",\n                    range: [3,12],\n                    \n                }";
    assert_eq!(DBChunk::content(OneOf::Left(&c)).unwrap(), expected);
    let e = chunk((0, 0), Some("[0.5]"));
    let expected = "CONTENT {\n                    uri: \"file:///a.rs\",\n                    content: \"fn main() {}\",\n                    range: [0,0],\n                    content_embedding: [0.5],\n                }";
    assert_eq!(DBChunk::content(OneOf::Left(&e)).unwrap(), expected);
}

#[test]
fn partial_chunk_content_statement() {
    let p = DBChunkParams {
        uri: None,
        content: Some("x".to_string()),
        content_embedding: None,
        range: Some((1, 2)),
    };
    assert_eq!(
        DBChunk::content(OneOf::Right(&p)).unwrap(),
        "CONTENT { content: \"x\" ,range: [1,2] }"
    );
    let none = DBChunkParams { uri: None, content: None, content_embedding: None, range: None };
    assert_eq!(DBChunk::content(OneOf::Right(&none)).unwrap(), "CONTENT {  }");
}

#[test]
fn create_needs_uri_content_and_range() {
    let p = DBChunkParams {
        uri: Some("u".to_string()),
        content: Some("c".to_string()),
        content_embedding: None,
        range: Some((0, 4)),
    };
    assert_eq!(
        DBChunk::create(p).unwrap(),
        "CREATE doc_chunks CONTENT { uri: \"u\" ,content: \"c\" ,range: [0,4] };"
    );
    let missing = DBChunkParams {
        uri: Some("u".to_string()),
        content: None,
        content_embedding: None,
        range: Some((0, 4)),
    };
    assert_eq!(
        DBChunk::create(missing),
        Err(DatabaseError::DbStruct(
            "All fields need to be Some for a create statement".to_string()
        ))
    );
}

#[test]
fn chunk_framed_for_a_prompt() {
    let c = chunk((3, 12), None);
    assert_eq!(
        c.to_string(),
        "\n        [ START OF CHUNK IN RANGE: (3, 12) ]\n\n        fn main() {}\n\n        [ END OF CHUNK IN RANGE: (3, 12) ]\n\n        "
    );
}

#[test]
fn chunk_found_by_first_or_last_line() {
    let v = vec![chunk((0, 20), None), chunk((21, 41), None), chunk((41, 50), None)];
    assert_eq!(get_chunk_ref_by_line(&v, 21).map(|c| c.range), Some((21, 41)));
    assert_eq!(get_chunk_ref_by_line(&v, 41).map(|c| c.range), Some((21, 41)));
    assert_eq!(get_chunk_ref_by_line(&v, 50).map(|c| c.range), Some((41, 50)));
    assert!(get_chunk_ref_by_line(&v, 30).is_none());
}

#[test]
fn params_from_text_follow_the_chunks() {
    let ps = DBChunkParams::from_text("file:///d", &hundred_lines());
    assert_eq!(ps.len(), 5);
    assert_eq!(ps[1].range, Some((21, 41)));
    assert_eq!(ps[1].content, Some(joined(21, 41)));
    assert_eq!(ps[1].uri, Some("file:///d".to_string()));
    assert_eq!(ps[1].content_embedding, None);
}
