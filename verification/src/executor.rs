//! Reading the command the editor asks to execute into the action to carry
//! out.
//!
//! The command's arguments arrive as JSON values. Each argument is held here
//! as its fields, if it is an object, and each field as its JSON text and
//! the readings the command needs of it, parsed from that text: as a string,
//! a line number, an address or a range, each with the parser's message where
//! the value is not one.

use vstd::prelude::*;

use crate::actions::{command_id_text, EspxAction};
use crate::lexer::{Position, Range};
use crate::text::utf8_len;
use crate::text::{clone_string, str_eq};

verus! {

/// A field of an argument object: its JSON text and its readings.
#[derive(Debug, PartialEq, Eq)]
pub struct ArgField {
    pub json: String,
    pub text: Result<String, String>,
    pub line: Result<u32, String>,
    pub uri: Result<String, String>,
    pub range: Result<Range, String>,
}

/// What `serde_json::from_str::<String>` gives for a JSON text: the string it
/// holds, or the parser's message.
pub uninterp spec fn json_as_string(json: Seq<char>) -> Result<Seq<char>, Seq<char>>;

/// What `serde_json::from_str::<u32>` gives for a JSON text.
pub uninterp spec fn json_as_line(json: Seq<char>) -> Result<u32, Seq<char>>;

/// What `serde_json::from_str::<lsp_types::Uri>` gives for a JSON text: the
/// address's text, or the parser's message.
pub uninterp spec fn json_as_uri(json: Seq<char>) -> Result<Seq<char>, Seq<char>>;

/// What `serde_json::from_str::<lsp_types::Range>` gives for a JSON text.
pub uninterp spec fn json_as_range(json: Seq<char>) -> Result<Range, Seq<char>>;

/// `serde_json::from_str::<String>(json)`, its error kept as its message.
#[verifier::external_body]
fn read_json_string(json: &str) -> (r: Result<String, String>)
    ensures
        text_view(r) == json_as_string(json@),
{
    match serde_json::from_str::<String>(json) {
        Ok(s) => Ok(s),
        Err(e) => Err(e.to_string()),
    }
}

/// `serde_json::from_str::<u32>(json)`, its error kept as its message.
#[verifier::external_body]
fn read_json_line(json: &str) -> (r: Result<u32, String>)
    ensures
        err_view(r) == json_as_line(json@),
{
    match serde_json::from_str::<u32>(json) {
        Ok(l) => Ok(l),
        Err(e) => Err(e.to_string()),
    }
}

/// `serde_json::from_str::<lsp_types::Uri>(json)`, the address taken as its
/// text and the error kept as its message. The address is parsed from the
/// string the text holds, which `fluent_uri` refuses with a panic when its
/// capacity exceeds `i32::MAX`; that string is allocated to the length of its
/// contents, which is at most that of the JSON text.
#[verifier::external_body]
fn read_json_uri(json: &str) -> (r: Result<String, String>)
    requires
        utf8_len(json@) <= i32::MAX,
    ensures
        text_view(r) == json_as_uri(json@),
{
    match serde_json::from_str::<lsp_types::Uri>(json) {
        Ok(u) => Ok(u.as_str().to_owned()),
        Err(e) => Err(e.to_string()),
    }
}

/// `serde_json::from_str::<lsp_types::Range>(json)`, the range taken field by
/// field and the error kept as its message.
#[verifier::external_body]
fn read_json_range(json: &str) -> (r: Result<Range, String>)
    ensures
        err_view(r) == json_as_range(json@),
{
    match serde_json::from_str::<lsp_types::Range>(json) {
        Ok(g) => Ok(Range {
            start: Position { line: g.start.line, character: g.start.character },
            end: Position { line: g.end.line, character: g.end.character },
        }),
        Err(e) => Err(e.to_string()),
    }
}

impl ArgField {
    /// The field whose value has the JSON text `json`, with its readings as a
    /// string, a line number, an address and a range.
    pub fn from_json(json: &str) -> (f: ArgField)
        requires
            utf8_len(json@) <= i32::MAX,
        ensures
            field_view(f) == (FieldView {
                json: json@,
                text: json_as_string(json@),
                line: json_as_line(json@),
                uri: json_as_uri(json@),
                range: json_as_range(json@),
            }),
    {
        ArgField {
            json: json.to_owned(),
            text: read_json_string(json),
            line: read_json_line(json),
            uri: read_json_uri(json),
            range: read_json_range(json),
        }
    }
}

/// An argument of a command: its fields when it is a JSON object.
#[derive(Debug, PartialEq, Eq)]
pub struct CommandArgument {
    pub fields: Option<Vec<(String, ArgField)>>,
}

/// A command to execute: its name and arguments.
#[derive(Debug, PartialEq, Eq)]
pub struct ExecuteCommandParams {
    pub command: String,
    pub arguments: Vec<CommandArgument>,
}

/// An action ready to be carried out.
#[derive(Debug, Clone, PartialEq, Eq)]
pub enum EspxActionExecutor {
    PromptOnLine { uri: String, new_text: String, line: u32, prompt: String },
    LookAtMe { uri: String, range: Range },
}

/// Why no action could be read.
#[derive(Debug, Clone, PartialEq, Eq)]
pub enum ExecutorError {
    /// A field did not hold the value the action needs; the message says why.
    Json(String),
    /// The command is unknown, or an argument it needs is missing.
    NoExecutor,
}

/// A field's JSON text and readings, as plain values.
pub struct FieldView {
    pub json: Seq<char>,
    pub text: Result<Seq<char>, Seq<char>>,
    pub line: Result<u32, Seq<char>>,
    pub uri: Result<Seq<char>, Seq<char>>,
    pub range: Result<Range, Seq<char>>,
}

pub open spec fn text_view(r: Result<String, String>) -> Result<Seq<char>, Seq<char>> {
    match r {
        Ok(t) => Ok(t@),
        Err(m) => Err(m@),
    }
}

pub open spec fn err_view<T>(r: Result<T, String>) -> Result<T, Seq<char>> {
    match r {
        Ok(t) => Ok(t),
        Err(m) => Err(m@),
    }
}

pub open spec fn field_view(f: ArgField) -> FieldView {
    FieldView {
        json: f.json@,
        text: text_view(f.text),
        line: err_view(f.line),
        uri: text_view(f.uri),
        range: err_view(f.range),
    }
}

/// An action as plain values.
pub enum ExecutorView {
    PromptOnLine { uri: Seq<char>, new_text: Seq<char>, line: u32, prompt: Seq<char> },
    LookAtMe { uri: Seq<char>, range: Range },
}

/// A reading's outcome as plain values.
pub enum ErrorView {
    Json(Seq<char>),
    NoExecutor,
}

pub open spec fn outcome_view(r: Result<EspxActionExecutor, ExecutorError>) -> Result<
    ExecutorView,
    ErrorView,
> {
    match r {
        Ok(EspxActionExecutor::PromptOnLine { uri, new_text, line, prompt }) => Ok(
            ExecutorView::PromptOnLine { uri: uri@, new_text: new_text@, line, prompt: prompt@ },
        ),
        Ok(EspxActionExecutor::LookAtMe { uri, range }) => Ok(
            ExecutorView::LookAtMe { uri: uri@, range },
        ),
        Err(ExecutorError::Json(m)) => Err(ErrorView::Json(m@)),
        Err(ExecutorError::NoExecutor) => Err(ErrorView::NoExecutor),
    }
}

/// The field `key` of `fs`, the first one where keys repeat.
pub open spec fn field_in(fs: Seq<(String, ArgField)>, key: Seq<char>) -> Option<FieldView>
    decreases fs.len(),
{
    if fs.len() == 0 {
        None
    } else if fs[0].0@ == key {
        Some(field_view(fs[0].1))
    } else {
        field_in(fs.drop_first(), key)
    }
}

/// The field `key` of `arg`, if it is an object with one.
pub open spec fn field_of(arg: CommandArgument, key: Seq<char>) -> Option<FieldView> {
    match arg.fields {
        None => None,
        Some(fs) => field_in(fs@, key),
    }
}

/// The field `key` of the first object argument that has one.
pub open spec fn first_field(args: Seq<CommandArgument>, key: Seq<char>) -> Option<FieldView>
    decreases args.len(),
{
    if args.len() == 0 {
        None
    } else {
        match field_of(args[0], key) {
            Some(f) => Some(f),
            None => first_field(args.drop_first(), key),
        }
    }
}

/// What reading a prompt command gives, once its command name matched:
/// `None` where an argument is missing.
pub open spec fn read_prompt(args: Seq<CommandArgument>) -> Option<Result<ExecutorView, ErrorView>> {
    match first_field(args, "prompt"@) {
        None => None,
        Some(p) => match first_field(args, "line"@) {
            None => None,
            Some(l) => match l.line {
                Err(m) => Some(Err(ErrorView::Json(m))),
                Ok(line) => match first_field(args, "new_text"@) {
                    None => None,
                    Some(t) => match t.text {
                        Err(m) => Some(Err(ErrorView::Json(m))),
                        Ok(new_text) => match first_field(args, "uri"@) {
                            None => None,
                            Some(u) => match u.uri {
                                Err(m) => Some(Err(ErrorView::Json(m))),
                                Ok(uri) => Some(
                                    Ok(
                                        ExecutorView::PromptOnLine {
                                            uri,
                                            new_text,
                                            line,
                                            prompt: p.json,
                                        },
                                    ),
                                ),
                            },
                        },
                    },
                },
            },
        },
    }
}

/// What reading a look command gives, once its command name matched: `None`
/// where an argument is missing.
pub open spec fn read_look(args: Seq<CommandArgument>) -> Option<ExecutorView> {
    match first_field(args, "uri"@) {
        None => None,
        Some(u) => match first_field(args, "range"@) {
            None => None,
            Some(r) => match (u.uri, r.range) {
                (Ok(uri), Ok(range)) => Some(ExecutorView::LookAtMe { uri, range }),
                _ => None,
            },
        },
    }
}

/// Whether the look command's address, where given, reads as an address,
/// and then its range, where given, reads as a range. The range is not read
/// without an address.
pub open spec fn look_fields_read(args: Seq<CommandArgument>) -> bool {
    first_field(args, "uri"@) matches Some(u) ==> (u.uri is Ok && (first_field(args, "range"@) matches Some(
        r,
    ) ==> r.range is Ok))
}

/// What the command is read into: a prompt when the command is the prompt's
/// and its arguments are all there, else a look when the command is the
/// look's and its arguments are there, else no action.
pub open spec fn read_command(command: Seq<char>, args: Seq<CommandArgument>) -> Result<
    ExecutorView,
    ErrorView,
> {
    let prompt = if command == command_id_text(EspxAction::PromptOnLine) {
        read_prompt(args)
    } else {
        None
    };
    match prompt {
        Some(r) => r,
        None => if command == command_id_text(EspxAction::LookAtMe) {
            match read_look(args) {
                Some(e) => Ok(e),
                None => Err(ErrorView::NoExecutor),
            }
        } else {
            Err(ErrorView::NoExecutor)
        },
    }
}

fn clone_text(r: &Result<String, String>) -> (c: Result<String, String>)
    ensures
        text_view(c) == text_view(*r),
{
    match r {
        Ok(t) => Ok(clone_string(t)),
        Err(m) => Err(clone_string(m)),
    }
}

fn clone_field(f: &ArgField) -> (r: ArgField)
    ensures
        field_view(r) == field_view(*f),
{
    ArgField {
        json: clone_string(&f.json),
        text: clone_text(&f.text),
        line: match &f.line {
            Ok(l) => Ok(*l),
            Err(m) => Err(clone_string(m)),
        },
        uri: clone_text(&f.uri),
        range: match &f.range {
            Ok(r) => Ok(*r),
            Err(m) => Err(clone_string(m)),
        },
    }
}

pub open spec fn opt_field_view(o: Option<ArgField>) -> Option<FieldView> {
    match o {
        Some(f) => Some(field_view(f)),
        None => None,
    }
}

fn find_in(fs: &Vec<(String, ArgField)>, key: &str) -> (r: Option<ArgField>)
    ensures
        opt_field_view(r) == field_in(fs@, key@),
{
    let mut i: usize = 0;
    assert(fs@.skip(0) =~= fs@);
    while i < fs.len()
        invariant
            i <= fs@.len(),
            field_in(fs@, key@) == field_in(fs@.skip(i as int), key@),
        decreases fs@.len() - i,
    {
        assert(fs@.skip(i as int).drop_first() =~= fs@.skip(i + 1));
        assert(fs@.skip(i as int)[0] == fs@[i as int]);
        if str_eq(fs[i].0.as_str(), key) {
            return Some(clone_field(&fs[i].1));
        }
        i = i + 1;
    }
    None
}

/// The field `key` of the first object argument that has one.
fn find_field(args: &Vec<CommandArgument>, key: &str) -> (r: Option<ArgField>)
    ensures
        opt_field_view(r) == first_field(args@, key@),
{
    let mut i: usize = 0;
    assert(args@.skip(0) =~= args@);
    while i < args.len()
        invariant
            i <= args@.len(),
            first_field(args@, key@) == first_field(args@.skip(i as int), key@),
        decreases args@.len() - i,
    {
        assert(args@.skip(i as int).drop_first() =~= args@.skip(i + 1));
        assert(args@.skip(i as int)[0] == args@[i as int]);
        let found = match &args[i].fields {
            Some(fs) => find_in(fs, key),
            None => None,
        };
        if found.is_some() {
            return found;
        }
        i = i + 1;
    }
    None
}

fn try_prompt(args: &Vec<CommandArgument>) -> (r: Option<Result<EspxActionExecutor, ExecutorError>>)
    ensures
        match (r, read_prompt(args@)) {
            (None, None) => true,
            (Some(a), Some(b)) => outcome_view(a) == b,
            _ => false,
        },
{
    let p = match find_field(args, "prompt") {
        Some(p) => p,
        None => return None,
    };
    let l = match find_field(args, "line") {
        Some(l) => l,
        None => return None,
    };
    let line = match l.line {
        Ok(line) => line,
        Err(m) => return Some(Err(ExecutorError::Json(m))),
    };
    let t = match find_field(args, "new_text") {
        Some(t) => t,
        None => return None,
    };
    let new_text = match t.text {
        Ok(new_text) => new_text,
        Err(m) => return Some(Err(ExecutorError::Json(m))),
    };
    let u = match find_field(args, "uri") {
        Some(u) => u,
        None => return None,
    };
    let uri = match u.uri {
        Ok(uri) => uri,
        Err(m) => return Some(Err(ExecutorError::Json(m))),
    };
    Some(Ok(EspxActionExecutor::PromptOnLine { uri, new_text, line, prompt: p.json }))
}

/// Whether the look command's address, where given, reads as an address,
/// and then its range, where given, reads as a range.
pub fn look_arguments_read(args: &Vec<CommandArgument>) -> (b: bool)
    ensures
        b == look_fields_read(args@),
{
    match find_field(args, "uri") {
        None => true,
        Some(u) => {
            if u.uri.is_err() {
                return false;
            }
            match find_field(args, "range") {
                Some(r) => r.range.is_ok(),
                None => true,
            }
        },
    }
}

impl EspxActionExecutor {
    /// The action the command asks for. A prompt needs its prompt, line,
    /// text and address; a look needs its address and range. A look's
    /// address, where given, must read as one, and then so must its range.
    pub fn try_from(params: ExecuteCommandParams) -> (r: Result<EspxActionExecutor, ExecutorError>)
        requires
            params.command@ == command_id_text(EspxAction::LookAtMe) ==> look_fields_read(
                params.arguments@,
            ),
        ensures
            outcome_view(r) == read_command(params.command@, params.arguments@),
    {
        let prompt_id = EspxAction::PromptOnLine.command_id();
        if str_eq(params.command.as_str(), prompt_id.as_str()) {
            if let Some(r) = try_prompt(&params.arguments) {
                return r;
            }
        }
        let look_id = EspxAction::LookAtMe.command_id();
        if str_eq(params.command.as_str(), look_id.as_str()) {
            if let Some(u) = find_field(&params.arguments, "uri") {
                if let Some(rg) = find_field(&params.arguments, "range") {
                    match (u.uri, rg.range) {
                        (Ok(uri), Ok(range)) => {
                            return Ok(EspxActionExecutor::LookAtMe { uri, range });
                        },
                        _ => {},
                    }
                }
            }
        }
        Err(ExecutorError::NoExecutor)
    }
}

} // verus!
