use espx_ls::action_run::{
    action_outcome, look_diagnostic, look_document, prompt_notices, step, walk_outcome,
    ActionEvent, ActionOp, ActionPhase, ClientOp, DiagnosticSeverity, MessageKind,
};
use espx_ls::actions::{ActionBurn, ActionType};
use espx_ls::lexer::{Position, Range};

fn burn(typ: ActionType, input: Option<&str>) -> ActionBurn {
    ActionBurn {
        typ,
        range: Range {
            start: Position { line: 3, character: 11 },
            end: Position { line: 3, character: 16 },
        },
        user_input: input.map(|s| s.to_string()),
        replacement_text: "        ".to_string(),
    }
}

#[test]
fn answered_prompt_leaves_a_mark_after_its_text() {
    let b = burn(ActionType::QuickPrompt, Some("Hello"));
    let e = action_outcome(&b, "Hi there", "⚑".to_string());
    assert_eq!(e.content, "⚑");
    assert_eq!(e.range.start, Position { line: 3, character: 8 });
    assert_eq!(e.range.end, Position { line: 3, character: 9 });
    assert_eq!(e.hover_contents, "# User prompt: \nHello\n# Assistant Response: \nHi there");
    let w = walk_outcome(&burn(ActionType::WalkProject, None), 12, "x".to_string());
    assert_eq!(w.hover_contents, "Finished walking project, added 12 docs to database.");
}

fn run(b: &ActionBurn, events: Vec<ActionEvent>) -> Vec<ActionOp> {
    let mut phase = ActionPhase::Start;
    let mut ops = vec![];
    for e in events {
        let (p, op) = step(b, phase, e).expect("event belongs to the phase");
        phase = p;
        ops.push(op);
    }
    assert_eq!(phase, ActionPhase::Done);
    ops
}

#[test]
fn rag_prompt_runs_in_order() {
    let b = burn(ActionType::RagPrompt, Some("Hello"));
    let ops = run(
        &b,
        vec![
            ActionEvent::Sent,
            ActionEvent::Sent,
            ActionEvent::Sent,
            ActionEvent::Sent,
            ActionEvent::StreamReady,
            ActionEvent::StreamWorking("Hi".to_string()),
            ActionEvent::StreamFinished,
            ActionEvent::StreamClosed("Hi!".to_string()),
            ActionEvent::Placeholder("⚑".to_string()),
        ],
    );
    assert_eq!(
        ops[0],
        ActionOp::Send(ClientOp::WorkBegin {
            title: "RAG Prompting Model".to_string(),
            message: "Initializing".to_string(),
            percentage: 0
        })
    );
    assert!(matches!(&ops[1], ActionOp::Send(ClientOp::ApplyEdit(e)) if e.new_text == "        "));
    assert_eq!(ops[2], ActionOp::RefreshSimilar);
    assert_eq!(ops[3], ActionOp::StartStream { with_updater: true });
    assert_eq!(
        ops[4],
        ActionOp::Send(ClientOp::WorkReport {
            message: "Got Stream Completion Handler".to_string(),
            percentage: None
        })
    );
    assert_eq!(
        ops[5],
        ActionOp::Send(ClientOp::WorkReport { message: "Hi".to_string(), percentage: None })
    );
    assert_eq!(ops[6], ActionOp::Send(ClientOp::WorkEnd { message: "Finished".to_string() }));
    assert_eq!(ops[7], ActionOp::Send(ClientOp::ShowInfo("Hi!".to_string())));
    assert_eq!(ops[8], ActionOp::Finish(action_outcome(&b, "Hi!", "⚑".to_string())));
}

#[test]
fn walk_reports_each_document() {
    let b = burn(ActionType::WalkProject, None);
    let ops = run(
        &b,
        vec![
            ActionEvent::Sent,
            ActionEvent::Sent,
            ActionEvent::Sent,
            ActionEvent::WalkedDoc { path: "./a.rs".to_string(), percentage: 0 },
            ActionEvent::WalkedDoc { path: "./b.rs".to_string(), percentage: 50 },
            ActionEvent::WalkDone,
            ActionEvent::Placeholder("x".to_string()),
        ],
    );
    assert_eq!(ops[2], ActionOp::Walk);
    assert_eq!(
        ops[4],
        ActionOp::Send(ClientOp::WorkReport {
            message: "Walking ./b.rs".to_string(),
            percentage: Some(50)
        })
    );
    match &ops[6] {
        ActionOp::Finish(e) => {
            assert_eq!(e.hover_contents, "Finished walking project, added 2 docs to database.")
        },
        other => panic!("expected the mark, got {other:?}"),
    }
    assert!(step(&b, ActionPhase::Start, ActionEvent::WalkDone).is_none());
}

#[test]
fn command_notices_and_diagnostic() {
    let ok = prompt_notices(Ok("answer".to_string()));
    assert_eq!(
        ok,
        vec![
            (MessageKind::Info, "Prompting model...".to_string()),
            (MessageKind::Info, "answer".to_string())
        ]
    );
    let err = prompt_notices(Err("boom".to_string()));
    assert_eq!(err[1], (MessageKind::Error, "boom".to_string()));
    let r = Range { start: Position { line: 0, character: 0 }, end: Position { line: 1, character: 0 } };
    let d = look_diagnostic("file:///a".to_string(), r, "looks fine".to_string());
    assert_eq!(d.severity, DiagnosticSeverity::Hint);
    assert_eq!(d.range, r);
    assert_eq!(d.message, "looks fine");
    assert_eq!(look_document::<u8>(None), Err("Could not get text document".to_string()));
    assert_eq!(look_document(Some(3u8)), Ok(3));
}

#[test]
fn a_failed_send_stops_the_action() {
    let b = burn(ActionType::QuickPrompt, Some("Hello"));
    let (phase, _) = step(&b, ActionPhase::Start, ActionEvent::Sent).unwrap();
    let (phase, op) = step(&b, phase, ActionEvent::Failed("channel closed".to_string())).unwrap();
    assert_eq!(phase, ActionPhase::Failed);
    assert_eq!(op, ActionOp::Fail("channel closed".to_string()));
    assert_eq!(step(&b, ActionPhase::Failed, ActionEvent::Sent), None);
    assert_eq!(
        step(&b, ActionPhase::Failed, ActionEvent::Placeholder("x".to_string())),
        None
    );
}
