use espx_ls::comment_str::get_comment_string_info;

#[test]
fn diff_idx_works() {
    let info = get_comment_string_info("rs").unwrap();
    assert_eq!(info.difference_idx(), Some(1));
}

#[test]
fn line_only_languages_have_no_block_delimiters() {
    let info = get_comment_string_info("py").unwrap();
    assert_eq!(info.singleline(), "#");
    assert_eq!(info.multiline_start(), None);
    assert_eq!(info.multiline_end(), None);
    assert_eq!(info.difference_idx(), None);
}

#[test]
fn lua_block_comments_differ_after_two_chars() {
    let info = get_comment_string_info("lua").unwrap();
    assert_eq!(info.singleline(), "--");
    assert_eq!(info.multiline_start(), Some("--[["));
    assert_eq!(info.multiline_end(), Some("]]"));
    assert_eq!(info.difference_idx(), None);
}

#[test]
fn unknown_extension_is_an_error() {
    match get_comment_string_info("txt") {
        Err(espx_ls::commands::CommandError::UnhandledLanguageExtension(ext)) => {
            assert_eq!(ext, "txt")
        }
        _ => panic!("expected an unhandled extension error"),
    }
}
