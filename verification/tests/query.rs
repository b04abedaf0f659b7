use espx_ls::query::{
    delete, merge, select, update, DatabaseError, FieldQuery, IntoOneOf, OneOf, QueryBuilder,
    Thing,
};

fn thing() -> Thing {
    Thing { tb: "blocks".to_string(), id: "abc".to_string() }
}

#[test]
fn transaction_wraps_pushed_statements() {
    let mut q = QueryBuilder::begin();
    q.push("SELECT * FROM t;");
    q.push("DELETE t:1;");
    assert_eq!(q.end(), "BEGIN TRANSACTION; SELECT * FROM t; DELETE t:1; COMMIT TRANSACTION;");
}

#[test]
fn empty_transaction_still_commits() {
    assert_eq!(QueryBuilder::begin().end(), "BEGIN TRANSACTION; COMMIT TRANSACTION;");
}

#[test]
fn select_by_field_value_quotes_the_value() {
    let fq = FieldQuery::new("uri", Some("file:///a"));
    let q = select("doc_chunks", Some(OneOf::Right(&fq)), None).unwrap();
    assert_eq!(q, "SELECT * FROM doc_chunks WHERE uri = \"file:///a\";");
}

#[test]
fn select_by_id_and_whole_table() {
    let t = thing();
    assert_eq!(
        select("blocks", Some(Thing::one_of(&t)), Some("content")).unwrap(),
        "SELECT content FROM blocks:abc;"
    );
    assert_eq!(select("blocks", None, None).unwrap(), "SELECT * FROM blocks;");
}

#[test]
fn field_query_for_no_value_matches_null() {
    let fq = FieldQuery::new("content_embedding", None);
    assert_eq!(
        delete("blocks", FieldQuery::one_of(&fq)).unwrap(),
        "DELETE blocks WHERE content_embedding = null;"
    );
}

#[test]
fn field_query_escapes_quotes() {
    let fq = FieldQuery::new("content", Some("a\"b"));
    assert_eq!(
        delete("blocks", OneOf::Right(&fq)).unwrap(),
        "DELETE blocks WHERE content = \"a\\\"b\";"
    );
}

#[test]
fn delete_by_id() {
    let t = thing();
    assert_eq!(delete("blocks", OneOf::Left(&t)).unwrap(), "DELETE blocks:abc;");
}

#[test]
fn merge_strips_the_content_keyword() {
    assert_eq!(merge("CONTENT { a: 1 }").unwrap(), "MERGE  { a: 1 }");
    assert_eq!(merge("CONTENTCONTENT {}").unwrap(), "MERGE  {}");
}

#[test]
fn merge_refuses_text_without_content() {
    assert_eq!(
        merge("{ a: 1 }"),
        Err(DatabaseError::Undefined("invalid content statement: { a: 1 }".to_string()))
    );
}

#[test]
fn update_by_id_and_by_field() {
    let t = thing();
    assert_eq!(
        update("blocks", OneOf::Left(&t), "CONTENT {x}").unwrap(),
        "UPDATE blocks:abc MERGE  {x};"
    );
    let fq = FieldQuery::new("uri", Some("u"));
    assert_eq!(
        update("blocks", OneOf::Right(&fq), "CONTENT {x}").unwrap(),
        "UPDATE blocks MERGE  {x} WHERE uri = \"u\";"
    );
    assert!(matches!(
        update("blocks", OneOf::Left(&t), "{x}"),
        Err(DatabaseError::Undefined(_))
    ));
}

#[test]
fn field_query_escapes_control_characters() {
    let fq = FieldQuery::new("c", Some("a\u{1}\n\\"));
    assert_eq!(
        delete("t", OneOf::Right(&fq)).unwrap(),
        "DELETE t WHERE c = \"a\\u0001\\n\\\\\";"
    );
}
