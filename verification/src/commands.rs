//! Commands written into comments, and the errors of reading them.

use vstd::prelude::*;

use crate::text::{join_str, decimal, decimal_string};

verus! {

pub type CommandResult<T> = Result<T, CommandError>;

/// Failures while turning comments into commands.
#[derive(Debug)]
pub enum CommandError {
    /// An error with no variant of its own, kept as its message.
    Undefined(String),
    ParseFromComment(CommandParseError),
    RegistryFull,
    UnhandledLanguageExtension(String),
}

#[derive(Debug)]
pub enum CommandParseError {
    NoCommand(u8),
    NoScope(u8),
    AllWhitespace,
    NoScopeCharacter,
}

impl CommandParseError {
    /// The error as `Display` shows it.
    pub fn message(&self) -> (s: String)
        ensures
            s@ == match self {
                CommandParseError::NoCommand(id) => "No Command with id: "@ + decimal(*id as nat),
                CommandParseError::NoScope(id) => "No Scope with id: "@ + decimal(*id as nat),
                CommandParseError::AllWhitespace => "All Whitespace"@,
                CommandParseError::NoScopeCharacter => "No Scope Character"@,
            },
    {
        match self {
            CommandParseError::NoCommand(id) => join_str(
                "No Command with id: ",
                decimal_string(*id as usize).as_str(),
            ),
            CommandParseError::NoScope(id) => join_str(
                "No Scope with id: ",
                decimal_string(*id as usize).as_str(),
            ),
            CommandParseError::AllWhitespace => "All Whitespace".to_owned(),
            CommandParseError::NoScopeCharacter => "No Scope Character".to_owned(),
        }
    }

    /// The error as `Debug` writes it: the variant's name and its id.
    pub fn debug_text(&self) -> (s: String)
        ensures
            s@ == match self {
                CommandParseError::NoCommand(id) => "NoCommand("@ + decimal(*id as nat) + ")"@,
                CommandParseError::NoScope(id) => "NoScope("@ + decimal(*id as nat) + ")"@,
                CommandParseError::AllWhitespace => "AllWhitespace"@,
                CommandParseError::NoScopeCharacter => "NoScopeCharacter"@,
            },
    {
        match self {
            CommandParseError::NoCommand(id) => {
                let t = join_str("NoCommand(", decimal_string(*id as usize).as_str());
                join_str(t.as_str(), ")")
            },
            CommandParseError::NoScope(id) => {
                let t = join_str("NoScope(", decimal_string(*id as usize).as_str());
                join_str(t.as_str(), ")")
            },
            CommandParseError::AllWhitespace => "AllWhitespace".to_owned(),
            CommandParseError::NoScopeCharacter => "NoScopeCharacter".to_owned(),
        }
    }
}

impl CommandError {
    /// The error as `Display` shows it.
    pub fn message(&self) -> (s: String)
        ensures
            s@ == match self {
                CommandError::Undefined(m) => m@,
                CommandError::RegistryFull => "Registry Full"@,
                CommandError::UnhandledLanguageExtension(ext) => "Unhandled Languge Extension: "@
                    + ext@,
                CommandError::ParseFromComment(e) => "No command could be parsed from "@
                    + parse_error_debug(*e),
            },
    {
        match self {
            CommandError::Undefined(m) => m.as_str().to_owned(),
            CommandError::RegistryFull => "Registry Full".to_owned(),
            CommandError::UnhandledLanguageExtension(ext) => join_str(
                "Unhandled Languge Extension: ",
                ext.as_str(),
            ),
            CommandError::ParseFromComment(e) => join_str(
                "No command could be parsed from ",
                e.debug_text().as_str(),
            ),
        }
    }
}

pub open spec fn parse_error_debug(e: CommandParseError) -> Seq<char> {
    match e {
        CommandParseError::NoCommand(id) => "NoCommand("@ + decimal(id as nat) + ")"@,
        CommandParseError::NoScope(id) => "NoScope("@ + decimal(id as nat) + ")"@,
        CommandParseError::AllWhitespace => "AllWhitespace"@,
        CommandParseError::NoScopeCharacter => "NoScopeCharacter"@,
    }
}

pub enum Command {
    Push,
    Prompt,
}

impl Command {
    pub const PUSH_CHAR: char = '@';
    pub const PROMPT_CHAR: char = '>';
}

} // verus!
