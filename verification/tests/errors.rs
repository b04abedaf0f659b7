use espx_ls::commands::{CommandError, CommandParseError};
use espx_ls::errors::error_chain_fmt;

#[test]
fn error_chain_lists_causes_nearest_first() {
    assert_eq!(error_chain_fmt("top", &[]), "top\n\n");
    assert_eq!(
        error_chain_fmt("top", &["mid".to_string(), "root".to_string()]),
        "top\n\nCaused by:\n\tmid\nCaused by:\n\troot\n"
    );
}

#[test]
fn command_errors_as_shown() {
    assert_eq!(CommandError::RegistryFull.message(), "Registry Full");
    assert_eq!(
        CommandError::UnhandledLanguageExtension("zz".to_string()).message(),
        "Unhandled Languge Extension: zz"
    );
    assert_eq!(CommandError::Undefined("boom".to_string()).message(), "boom");
    assert_eq!(
        CommandError::ParseFromComment(CommandParseError::NoScope(7)).message(),
        "No command could be parsed from NoScope(7)"
    );
    assert_eq!(CommandParseError::NoCommand(42).message(), "No Command with id: 42");
    assert_eq!(CommandParseError::NoScope(0).message(), "No Scope with id: 0");
    assert_eq!(CommandParseError::AllWhitespace.message(), "All Whitespace");
    assert_eq!(CommandParseError::NoScopeCharacter.message(), "No Scope Character");
    assert_eq!(CommandParseError::AllWhitespace.debug_text(), "AllWhitespace");
}
