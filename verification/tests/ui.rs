use espx_ls::ui::{BufferOpChannelStatus, HomeSectionState, UiSectionSelection};

#[test]
fn sections_in_order_with_names() {
    let all = UiSectionSelection::all_variants();
    let names: Vec<&str> = all.iter().map(|s| s.as_ref()).collect();
    assert_eq!(names, vec!["Home", "Agents", "Documents", "Database"]);
    assert_eq!(UiSectionSelection::default(), UiSectionSelection::Home);
    assert!(UiSectionSelection::Home < UiSectionSelection::Database);
    assert_eq!(HomeSectionState::default(), HomeSectionState);
}

#[test]
fn channel_status_of_an_operation() {
    let s: BufferOpChannelStatus<u8> = BufferOpChannelStatus::from_operation(3);
    assert_eq!(s, BufferOpChannelStatus::Working(3));
    assert_ne!(s, BufferOpChannelStatus::Finished);
}
