use espx_ls::memories::{AgentID, AgentIdError};

#[test]
fn document_ids_hold_the_encoded_address() {
    let id = AgentID::from_uri("file:///a.rs");
    assert_eq!(id, AgentID::EncodedUri("ZmlsZTovLy9hLnJz".to_string()));
    assert_eq!(id.to_string(), "ZmlsZTovLy9hLnJz");
    assert_eq!(id.decode_uri(), Ok(Some("file:///a.rs".to_string())));
}

#[test]
fn scope_ids_hold_their_character() {
    let id = AgentID::from_char(&'b');
    assert_eq!(id.to_string(), "b");
    assert_eq!(id.decode_uri(), Ok(None));
    assert_eq!(AgentID::from_id_text("b"), AgentID::Char('b'));
    assert_eq!(AgentID::from_id_text("bc"), AgentID::EncodedUri("bc".to_string()));
}

#[test]
fn unreadable_ids() {
    assert_eq!(
        AgentID::EncodedUri("!!".to_string()).decode_uri(),
        Err(AgentIdError::Encoding)
    );
    assert_eq!(AgentID::EncodedUri("YSBi".to_string()).decode_uri(), Err(AgentIdError::Uri));
}
