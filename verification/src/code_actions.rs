//! The code actions offered to the editor: each names the command that
//! carries it out, with the command's arguments as one JSON object.

use vstd::prelude::*;

use crate::actions::{command_id_text, EspxAction, TextEdit};
use crate::chunks::json_of_str;
use crate::lexer::{Position, Range};
use crate::query::json_string_text;
use crate::text::{clone_string, decimal, decimal_string, join_str};

verus! {

/// A code action ready to be offered, with what its command needs.
#[derive(Debug, Clone, PartialEq, Eq)]
pub enum EspxActionBuilder {
    /// Prompt the model with `prompt`, written on `line` of the document at
    /// `uri` after `new_text`.
    PromptOnLine { uri: String, new_text: String, line: u32, prompt: String },
    /// Look at the document at `uri`.
    LookAtMe { uri: String },
}

/// A command for the editor to send back: its title, its id and its
/// arguments. Each argument is a JSON object, given as its fields in key
/// order, each with its value as JSON text.
#[derive(Debug, Clone, PartialEq, Eq)]
pub struct Command {
    pub title: String,
    pub command: String,
    pub arguments: Option<Vec<Vec<(String, String)>>>,
}

/// A code action: its title, its command, and the edit it makes to a
/// document (the document's address and the edit).
#[derive(Debug, Clone, PartialEq, Eq)]
pub struct CodeAction {
    pub title: String,
    pub command: Option<Command>,
    pub edit: Option<(String, TextEdit)>,
}

/// A JSON object's fields as plain values.
pub open spec fn fields_view(fs: Seq<(String, String)>) -> Seq<(Seq<char>, Seq<char>)> {
    fs.map_values(|f: (String, String)| (f.0@, f.1@))
}

/// The action a builder offers.
pub open spec fn builder_action(b: EspxActionBuilder) -> EspxAction {
    match b {
        EspxActionBuilder::PromptOnLine { .. } => EspxAction::PromptOnLine,
        EspxActionBuilder::LookAtMe { .. } => EspxAction::LookAtMe,
    }
}

/// The fields of the command's argument, in key order.
pub open spec fn argument_fields(b: EspxActionBuilder) -> Seq<(Seq<char>, Seq<char>)> {
    match b {
        EspxActionBuilder::PromptOnLine { uri, new_text, line, prompt } => seq![
            ("line"@, decimal(line as nat)),
            ("new_text"@, json_string_text(new_text@)),
            ("prompt"@, json_string_text(prompt@)),
            ("uri"@, json_string_text(uri@)),
        ],
        EspxActionBuilder::LookAtMe { uri } => seq![("uri"@, json_string_text(uri@))],
    }
}

/// Whether `c` is the command of `b`: titled and named by the action's
/// command id, with one argument holding the builder's fields.
pub open spec fn is_command_of(c: Command, b: EspxActionBuilder) -> bool {
    &&& c.title@ == command_id_text(builder_action(b))
    &&& c.command@ == command_id_text(builder_action(b))
    &&& c.arguments matches Some(args) && args@.len() == 1 && fields_view(args@[0]@)
        == argument_fields(b)
}

/// A field of an argument object.
fn field(key: &str, json: String) -> (f: (String, String))
    ensures
        f.0@ == key@,
        f.1@ == json@,
{
    (key.to_owned(), json)
}

impl EspxActionBuilder {
    /// The action this builder offers.
    pub fn builder(&self) -> (a: EspxAction)
        ensures
            a == builder_action(*self),
    {
        match self {
            EspxActionBuilder::LookAtMe { .. } => EspxAction::LookAtMe,
            EspxActionBuilder::PromptOnLine { .. } => EspxAction::PromptOnLine,
        }
    }

    /// The arguments of the command: one object with the builder's fields.
    pub fn command_args(&self) -> (r: Option<Vec<Vec<(String, String)>>>)
        ensures
            r matches Some(args) && args@.len() == 1 && fields_view(args@[0]@) == argument_fields(
                *self,
            ),
    {
        let fields = match self {
            EspxActionBuilder::LookAtMe { uri } => {
                let v = vec![field("uri", json_of_str(uri.as_str()))];
                assert(fields_view(v@) =~= argument_fields(*self));
                v
            },
            EspxActionBuilder::PromptOnLine { uri, new_text, line, prompt } => {
                let v = vec![
                    field("line", decimal_string(*line as usize)),
                    field("new_text", json_of_str(new_text.as_str())),
                    field("prompt", json_of_str(prompt.as_str())),
                    field("uri", json_of_str(uri.as_str())),
                ];
                assert(fields_view(v@) =~= argument_fields(*self));
                v
            },
        };
        let args = vec![fields];
        Some(args)
    }

    /// The command that carries out the action.
    pub fn command(&self) -> (c: Command)
        ensures
            is_command_of(c, *self),
    {
        Command {
            title: self.builder().command_id(),
            command: self.builder().command_id(),
            arguments: self.command_args(),
        }
    }
}

/// The title of a prompt's code action: the prompt in brackets, then the
/// line.
pub open spec fn prompt_title(prompt: Seq<char>, line: u32) -> Seq<char> {
    "["@ + prompt + "] : "@ + decimal(line as nat)
}

/// Whether `a` is the code action of `b`. A prompt's action replaces its
/// whole line with the text before the prompt and a line feed; a look's
/// action makes no edit.
pub open spec fn is_code_action_of(a: CodeAction, b: EspxActionBuilder) -> bool {
    &&& a.command matches Some(c) && is_command_of(c, b)
    &&& match b {
        EspxActionBuilder::PromptOnLine { uri, new_text, line, prompt } => {
            &&& a.title@ == prompt_title(prompt@, line)
            &&& a.edit matches Some(e) && e.0@ == uri@ && e.1.range == (Range {
                start: Position { line, character: 0 },
                end: Position { line: (line + 1) as u32, character: 0 },
            }) && e.1.new_text@ == new_text@ + "\n"@
        },
        EspxActionBuilder::LookAtMe { .. } => {
            &&& a.title@ == "Look At Me"@
            &&& a.edit is None
        },
    }
}

/// Whether the builder's action can be offered: a prompt's line has a next
/// line number.
pub open spec fn offerable(b: EspxActionBuilder) -> bool {
    b matches EspxActionBuilder::PromptOnLine { line, .. } ==> line < u32::MAX
}

impl EspxActionBuilder {
    /// The code action offered to the editor.
    pub fn code_action(&self) -> (a: CodeAction)
        requires
            offerable(*self),
        ensures
            is_code_action_of(a, *self),
    {
        let command = Some(self.command());
        match self {
            EspxActionBuilder::PromptOnLine { uri, new_text, line, prompt } => {
                let head = join_str("[", prompt.as_str());
                let head = join_str(head.as_str(), "] : ");
                let title = join_str(head.as_str(), decimal_string(*line as usize).as_str());
                let range = Range {
                    end: Position { line: *line + 1, character: 0 },
                    start: Position { line: *line, character: 0 },
                };
                let edit = TextEdit { range, new_text: join_str(new_text.as_str(), "\n") };
                CodeAction { title, command, edit: Some((clone_string(uri), edit)) }
            },
            EspxActionBuilder::LookAtMe { .. } => {
                CodeAction { title: "Look At Me".to_owned(), command, edit: None }
            },
        }
    }
}

} // verus!
