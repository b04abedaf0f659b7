//! Carrying out an action found in a document, and the command actions of
//! the editor: what is sent to the editor, in which order, and the mark left
//! once the answer is in.
//!
//! The work in between (asking the model, walking the project, writing to
//! the database) is done by the caller: each step takes the state and what
//! just happened, and gives the next state and what to do next.

use vstd::prelude::*;

use crate::actions::{ActionBurn, ActionType, TextEdit};
use crate::burns::EchoBurn;
use crate::lexer::{Position, Range};
use crate::text::{clone_string, decimal, decimal_string, join_str, utf8_len};

verus! {

/// The range of the mark left for an action: one character right after the
/// text that replaced the action, on the action's first line through its
/// last.
pub open spec fn echo_range(burn: ActionBurn) -> Range {
    Range {
        start: Position {
            line: burn.range.start.line,
            character: utf8_len(burn.replacement_text@) as u32,
        },
        end: Position {
            line: burn.range.end.line,
            character: (utf8_len(burn.replacement_text@) + 1) as u32,
        },
    }
}

/// The hover text of a prompt's mark: the prompt and the answer under their
/// headings, one per line.
pub open spec fn prompt_hover(prompt: Seq<char>, answer: Seq<char>) -> Seq<char> {
    "# User prompt: "@ + "\n"@ + prompt + "\n"@ + "# Assistant Response: "@ + "\n"@ + answer
}

/// The hover text of a walk's mark.
pub open spec fn walk_hover(added: nat) -> Seq<char> {
    "Finished walking project, added "@ + decimal(added) + " docs to database."@
}

/// The mark left for an answered prompt.
pub fn action_outcome(burn: &ActionBurn, response: &str, placeholder: String) -> (e: EchoBurn)
    requires
        burn.user_input is Some,
        utf8_len(burn.replacement_text@) < u32::MAX,
    ensures
        e.content == placeholder,
        e.range == echo_range(*burn),
        e.hover_contents@ == prompt_hover(burn.user_input.unwrap()@, response@),
{
    let n = burn.replacement_text.as_str().len() as u32;
    let range = Range {
        start: Position { line: burn.range.start.line, character: n },
        end: Position { line: burn.range.end.line, character: n + 1 },
    };
    let prompt = match &burn.user_input {
        Some(p) => p.as_str(),
        None => "",
    };
    let h = join_str("# User prompt: ", "\n");
    let h = join_str(h.as_str(), prompt);
    let h = join_str(h.as_str(), "\n");
    let h = join_str(h.as_str(), "# Assistant Response: ");
    let h = join_str(h.as_str(), "\n");
    let h = join_str(h.as_str(), response);
    EchoBurn { content: placeholder, hover_contents: h, range }
}

/// The mark left once the project was walked, `added` documents written.
pub fn walk_outcome(burn: &ActionBurn, added: usize, placeholder: String) -> (e: EchoBurn)
    requires
        utf8_len(burn.replacement_text@) < u32::MAX,
    ensures
        e.content == placeholder,
        e.range == echo_range(*burn),
        e.hover_contents@ == walk_hover(added as nat),
{
    let n = burn.replacement_text.as_str().len() as u32;
    let range = Range {
        start: Position { line: burn.range.start.line, character: n },
        end: Position { line: burn.range.end.line, character: n + 1 },
    };
    let h = join_str("Finished walking project, added ", decimal_string(added).as_str());
    let h = join_str(h.as_str(), " docs to database.");
    EchoBurn { content: placeholder, hover_contents: h, range }
}

/// What is sent to the editor while an action is carried out.
#[derive(Debug, Clone, PartialEq, Eq)]
pub enum ClientOp {
    WorkBegin { title: String, message: String, percentage: u32 },
    ApplyEdit(TextEdit),
    WorkReport { message: String, percentage: Option<u32> },
    WorkEnd { message: String },
    ShowInfo(String),
}

/// What to do next.
#[derive(Debug, Clone, PartialEq, Eq)]
pub enum ActionOp {
    /// Send this to the editor, then report `Sent`.
    Send(ClientOp),
    /// Bring the agent the database chunks like the prompt, where there is a
    /// database, then report `Sent`.
    RefreshSimilar,
    /// Bring the agent the cached documents and start streaming its answer,
    /// with the retrieval trigger where asked; report `StreamReady`.
    StartStream { with_updater: bool },
    /// Walk the project, reporting each document written and then the end.
    Walk,
    /// The action is done; this mark is left.
    Finish(EchoBurn),
    /// The action stops with this error; nothing more is sent.
    Fail(String),
}

/// Where an action stands.
#[derive(Debug, Clone, PartialEq, Eq)]
pub enum ActionPhase {
    Start,
    Begun,
    Edited,
    Refreshed,
    AwaitingStream,
    Streaming,
    Answered(String),
    Walking(usize),
    Walked(usize),
    Done,
    Failed,
}

/// What happened since the last step.
#[derive(Debug, Clone, PartialEq, Eq)]
pub enum ActionEvent {
    /// The last operation was carried out.
    Sent,
    /// The model's answer started streaming.
    StreamReady,
    /// More of the answer arrived; this is the answer so far.
    StreamWorking(String),
    /// The answer is complete.
    StreamFinished,
    /// The stream closed with this answer.
    StreamClosed(String),
    /// A document of the project was written, with the share of the walk
    /// done, in percent.
    WalkedDoc { path: String, percentage: u32 },
    /// The walk is over.
    WalkDone,
    /// The placeholder drawn for the mark.
    Placeholder(String),
    /// The last operation failed, with this message.
    Failed(String),
}

/// The title of the progress report that starts the action.
pub open spec fn begin_title(t: ActionType) -> Seq<char> {
    match t {
        ActionType::QuickPrompt => "Quick Prompting Model"@,
        ActionType::RagPrompt => "RAG Prompting Model"@,
        ActionType::WalkProject => "Walking Project"@,
    }
}

/// The step from `phase` on `event` for `burn`: the next phase and what to
/// do, or nothing where the event does not belong to the phase.
pub open spec fn step_spec(burn: ActionBurn, phase: ActionPhase, event: ActionEvent) -> Option<
    (ActionPhase, ActionOpView),
> {
    match (phase, event) {
        (ActionPhase::Done, _) => None,
        (ActionPhase::Failed, _) => None,
        (_, ActionEvent::Failed(m)) => Some((ActionPhase::Failed, ActionOpView::Fail { message: m@ })),
        (ActionPhase::Start, ActionEvent::Sent) => Some(
            (
                ActionPhase::Begun,
                ActionOpView::WorkBegin {
                    title: begin_title(burn.typ),
                    message: "Initializing"@,
                    percentage: 0,
                },
            ),
        ),
        (ActionPhase::Begun, ActionEvent::Sent) => Some(
            (
                ActionPhase::Edited,
                ActionOpView::ApplyEdit {
                    range: Range {
                        start: Position { line: burn.range.start.line, character: 0 },
                        end: Position {
                            line: burn.range.end.line,
                            character: (burn.range.end.character + 1) as u32,
                        },
                    },
                    new_text: burn.replacement_text@,
                },
            ),
        ),
        (ActionPhase::Edited, ActionEvent::Sent) => match burn.typ {
            ActionType::RagPrompt => Some((ActionPhase::Refreshed, ActionOpView::RefreshSimilar)),
            ActionType::QuickPrompt => Some(
                (ActionPhase::AwaitingStream, ActionOpView::StartStream { with_updater: false }),
            ),
            ActionType::WalkProject => Some((ActionPhase::Walking(0), ActionOpView::Walk)),
        },
        (ActionPhase::Refreshed, ActionEvent::Sent) => Some(
            (ActionPhase::AwaitingStream, ActionOpView::StartStream { with_updater: true }),
        ),
        (ActionPhase::AwaitingStream, ActionEvent::StreamReady) => Some(
            (
                ActionPhase::Streaming,
                ActionOpView::WorkReport {
                    message: "Got Stream Completion Handler"@,
                    percentage: None,
                },
            ),
        ),
        (ActionPhase::Streaming, ActionEvent::StreamWorking(so_far)) => Some(
            (ActionPhase::Streaming, ActionOpView::WorkReport { message: so_far@, percentage: None }),
        ),
        (ActionPhase::Streaming, ActionEvent::StreamFinished) => Some(
            (ActionPhase::Streaming, ActionOpView::WorkEnd { message: "Finished"@ }),
        ),
        (ActionPhase::Streaming, ActionEvent::StreamClosed(answer)) => Some(
            (ActionPhase::Answered(answer), ActionOpView::ShowInfo { message: answer@ }),
        ),
        (ActionPhase::Answered(answer), ActionEvent::Placeholder(p)) => Some(
            (
                ActionPhase::Done,
                ActionOpView::Finish {
                    content: p@,
                    range: echo_range(burn),
                    hover: prompt_hover(burn.user_input.unwrap()@, answer@),
                },
            ),
        ),
        (ActionPhase::Walking(n), ActionEvent::WalkedDoc { path, percentage }) => Some(
            (
                ActionPhase::Walking((n + 1) as usize),
                ActionOpView::WorkReport {
                    message: "Walking "@ + path@,
                    percentage: Some(percentage),
                },
            ),
        ),
        (ActionPhase::Walking(n), ActionEvent::WalkDone) => Some(
            (ActionPhase::Walked(n), ActionOpView::WorkEnd { message: "Finished"@ }),
        ),
        (ActionPhase::Walked(n), ActionEvent::Placeholder(p)) => Some(
            (
                ActionPhase::Done,
                ActionOpView::Finish {
                    content: p@,
                    range: echo_range(burn),
                    hover: walk_hover(n as nat),
                },
            ),
        ),
        _ => None,
    }
}

/// An operation as plain values.
pub enum ActionOpView {
    WorkBegin { title: Seq<char>, message: Seq<char>, percentage: u32 },
    ApplyEdit { range: Range, new_text: Seq<char> },
    WorkReport { message: Seq<char>, percentage: Option<u32> },
    WorkEnd { message: Seq<char> },
    ShowInfo { message: Seq<char> },
    RefreshSimilar,
    StartStream { with_updater: bool },
    Walk,
    Finish { content: Seq<char>, range: Range, hover: Seq<char> },
    Fail { message: Seq<char> },
}

pub open spec fn op_view(op: ActionOp) -> ActionOpView {
    match op {
        ActionOp::Send(ClientOp::WorkBegin { title, message, percentage }) => ActionOpView::WorkBegin {
            title: title@,
            message: message@,
            percentage,
        },
        ActionOp::Send(ClientOp::ApplyEdit(e)) => ActionOpView::ApplyEdit {
            range: e.range,
            new_text: e.new_text@,
        },
        ActionOp::Send(ClientOp::WorkReport { message, percentage }) => ActionOpView::WorkReport {
            message: message@,
            percentage,
        },
        ActionOp::Send(ClientOp::WorkEnd { message }) => ActionOpView::WorkEnd { message: message@ },
        ActionOp::Send(ClientOp::ShowInfo(m)) => ActionOpView::ShowInfo { message: m@ },
        ActionOp::RefreshSimilar => ActionOpView::RefreshSimilar,
        ActionOp::StartStream { with_updater } => ActionOpView::StartStream { with_updater },
        ActionOp::Walk => ActionOpView::Walk,
        ActionOp::Finish(e) => ActionOpView::Finish {
            content: e.content@,
            range: e.range,
            hover: e.hover_contents@,
        },
        ActionOp::Fail(m) => ActionOpView::Fail { message: m@ },
    }
}

/// Whether the action's fields allow every step: a prompt has its prompt,
/// and the edit and mark positions fit in a `u32`.
pub open spec fn runnable(burn: ActionBurn) -> bool {
    &&& burn.range.end.character < u32::MAX
    &&& utf8_len(burn.replacement_text@) < u32::MAX
    &&& burn.typ !is WalkProject ==> burn.user_input is Some
}

/// One step of carrying out `burn`. A walk's count of written documents
/// must leave room for one more, and an answer is only for a prompt.
pub fn step(burn: &ActionBurn, phase: ActionPhase, event: ActionEvent) -> (r: Option<
    (ActionPhase, ActionOp),
>)
    requires
        runnable(*burn),
        phase matches ActionPhase::Walking(n) ==> n < usize::MAX,
        phase is Answered ==> burn.user_input is Some,
    ensures
        match (r, step_spec(*burn, phase, event)) {
            (None, None) => true,
            (Some((p, op)), Some((q, v))) => p == q && op_view(op) == v,
            _ => false,
        },
{
    match (phase, event) {
        (ActionPhase::Done, _) => None,
        (ActionPhase::Failed, _) => None,
        (_, ActionEvent::Failed(m)) => Some((ActionPhase::Failed, ActionOp::Fail(m))),
        (ActionPhase::Start, ActionEvent::Sent) => Some(
            (
                ActionPhase::Begun,
                ActionOp::Send(
                    ClientOp::WorkBegin {
                        title: burn.typ.doing_action_title().to_owned(),
                        message: "Initializing".to_owned(),
                        percentage: 0,
                    },
                ),
            ),
        ),
        (ActionPhase::Begun, ActionEvent::Sent) => Some(
            (ActionPhase::Edited, ActionOp::Send(ClientOp::ApplyEdit(burn.workspace_edit()))),
        ),
        (ActionPhase::Edited, ActionEvent::Sent) => match burn.typ {
            ActionType::RagPrompt => Some((ActionPhase::Refreshed, ActionOp::RefreshSimilar)),
            ActionType::QuickPrompt => Some(
                (ActionPhase::AwaitingStream, ActionOp::StartStream { with_updater: false }),
            ),
            ActionType::WalkProject => Some((ActionPhase::Walking(0), ActionOp::Walk)),
        },
        (ActionPhase::Refreshed, ActionEvent::Sent) => Some(
            (ActionPhase::AwaitingStream, ActionOp::StartStream { with_updater: true }),
        ),
        (ActionPhase::AwaitingStream, ActionEvent::StreamReady) => Some(
            (
                ActionPhase::Streaming,
                ActionOp::Send(
                    ClientOp::WorkReport {
                        message: "Got Stream Completion Handler".to_owned(),
                        percentage: None,
                    },
                ),
            ),
        ),
        (ActionPhase::Streaming, ActionEvent::StreamWorking(so_far)) => Some(
            (
                ActionPhase::Streaming,
                ActionOp::Send(ClientOp::WorkReport { message: so_far, percentage: None }),
            ),
        ),
        (ActionPhase::Streaming, ActionEvent::StreamFinished) => Some(
            (
                ActionPhase::Streaming,
                ActionOp::Send(ClientOp::WorkEnd { message: "Finished".to_owned() }),
            ),
        ),
        (ActionPhase::Streaming, ActionEvent::StreamClosed(answer)) => {
            let shown = clone_string(&answer);
            Some((ActionPhase::Answered(answer), ActionOp::Send(ClientOp::ShowInfo(shown))))
        },
        (ActionPhase::Answered(answer), ActionEvent::Placeholder(p)) => Some(
            (ActionPhase::Done, ActionOp::Finish(action_outcome(burn, answer.as_str(), p))),
        ),
        (ActionPhase::Walking(n), ActionEvent::WalkedDoc { path, percentage }) => Some(
            (
                ActionPhase::Walking(n + 1),
                ActionOp::Send(
                    ClientOp::WorkReport {
                        message: join_str("Walking ", path.as_str()),
                        percentage: Some(percentage),
                    },
                ),
            ),
        ),
        (ActionPhase::Walking(n), ActionEvent::WalkDone) => Some(
            (
                ActionPhase::Walked(n),
                ActionOp::Send(ClientOp::WorkEnd { message: "Finished".to_owned() }),
            ),
        ),
        (ActionPhase::Walked(n), ActionEvent::Placeholder(p)) => Some(
            (ActionPhase::Done, ActionOp::Finish(walk_outcome(burn, n, p))),
        ),
        _ => None,
    }
}

/// A failed operation ends the action at once, from any phase it has not
/// already left: the action stops with the failure's message, and no event
/// after that leads to another operation.
pub proof fn lemma_failure_ends_action(
    burn: ActionBurn,
    phase: ActionPhase,
    message: Seq<char>,
    failure: String,
    later: ActionEvent,
)
    requires
        phase !is Done,
        phase !is Failed,
        failure@ == message,
    ensures
        step_spec(burn, phase, ActionEvent::Failed(failure)) matches Some((p, op)) && p
            is Failed && op == (ActionOpView::Fail { message }),
        step_spec(burn, ActionPhase::Failed, later) is None,
        step_spec(burn, ActionPhase::Done, later) is None,
{
}

/// The kind of a message shown in the editor.
#[derive(Debug, Clone, Copy, PartialEq, Eq, Structural)]
pub enum MessageKind {
    Info,
    Error,
}

/// What a prompt command shows: that the model is being prompted, then its
/// answer, or the error's text as an error.
pub fn prompt_notices(answer: Result<String, String>) -> (v: Vec<(MessageKind, String)>)
    ensures
        v@.len() == 2,
        v@[0].0 == MessageKind::Info,
        v@[0].1@ == "Prompting model..."@,
        match answer {
            Ok(a) => v@[1].0 == MessageKind::Info && v@[1].1@ == a@,
            Err(m) => v@[1].0 == MessageKind::Error && v@[1].1@ == m@,
        },
{
    let second = match answer {
        Ok(a) => (MessageKind::Info, a),
        Err(m) => (MessageKind::Error, m),
    };
    let v = vec![(MessageKind::Info, "Prompting model...".to_owned()), second];
    v
}

/// The message a look command shows before its diagnostic.
pub open spec fn looking_message() -> Seq<char> {
    "Looking at the codebase.."@
}

/// What a look command shows before its diagnostic.
pub fn look_notice() -> (r: (MessageKind, String))
    ensures
        r.0 == MessageKind::Info,
        r.1@ == looking_message(),
{
    (MessageKind::Info, "Looking at the codebase..".to_owned())
}

/// The severity of a diagnostic.
#[derive(Debug, Clone, Copy, PartialEq, Eq, Structural)]
pub enum DiagnosticSeverity {
    Hint,
}

/// A diagnostic to publish for a document.
#[derive(Debug, Clone, PartialEq, Eq)]
pub struct Diagnostic {
    pub uri: String,
    pub range: Range,
    pub severity: DiagnosticSeverity,
    pub message: String,
}

/// What a look command shows: a hint at the looked-at range carrying the
/// answer.
pub fn look_diagnostic(uri: String, range: Range, answer: String) -> (d: Diagnostic)
    ensures
        d.uri == uri,
        d.range == range,
        d.severity == DiagnosticSeverity::Hint,
        d.message == answer,
{
    Diagnostic { uri, range, severity: DiagnosticSeverity::Hint, message: answer }
}

/// Why a look command could not be carried out.
pub open spec fn no_document_message() -> Seq<char> {
    "Could not get text document"@
}

/// The document a look command reads, or the error when none is open.
pub fn look_document<T>(doc: Option<T>) -> (r: Result<T, String>)
    ensures
        match doc {
            Some(d) => r == Ok::<T, String>(d),
            None => r matches Err(m) && m@ == no_document_message(),
        },
{
    match doc {
        Some(d) => Ok(d),
        None => Err("Could not get text document".to_owned()),
    }
}

} // verus!
