use codemoss::events::{EngineEvent, EngineType};
use codemoss::gemini_event::extract_text_from_value;
use codemoss::gemini_history::GeminiSessionMessage;
use codemoss::gemini_turn::{opening_events, spawn_failure_message, ExitReport, GeminiTurn};
use codemoss::json::Json;

fn well() -> Option<ExitReport> {
    Some(ExitReport { success: true, status: "exit status: 0".to_string() })
}

fn badly() -> Option<ExitReport> {
    Some(ExitReport { success: false, status: "exit status: 2".to_string() })
}

fn text_delta(text: &str) -> EngineEvent {
    EngineEvent::TextDelta { workspace_id: "w".to_string(), text: text.to_string() }
}

fn reasoning_delta(text: &str) -> EngineEvent {
    EngineEvent::ReasoningDelta { workspace_id: "w".to_string(), text: text.to_string() }
}

fn turn_error(error: &str) -> EngineEvent {
    EngineEvent::TurnError { workspace_id: "w".to_string(), error: error.to_string(), code: None }
}

fn reasoning_message(text: &str) -> GeminiSessionMessage {
    GeminiSessionMessage {
        id: "id".to_string(),
        role: "assistant".to_string(),
        text: text.to_string(),
        images: None,
        timestamp: None,
        kind: "reasoning".to_string(),
        tool_type: None,
        title: None,
        tool_input: None,
        tool_output: None,
    }
}

#[test]
fn turn_opens_with_a_pending_session() {
    assert_eq!(
        opening_events("w", "t"),
        vec![
            EngineEvent::SessionStarted {
                workspace_id: "w".to_string(),
                session_id: "pending".to_string(),
                engine: EngineType::Gemini,
            },
            EngineEvent::TurnStarted { workspace_id: "w".to_string(), turn_id: "t".to_string() },
        ]
    );
    assert_eq!(spawn_failure_message("no such file"), "Failed to spawn gemini: no such file");
}

#[test]
fn answer_is_put_together_from_the_lines() {
    let mut turn = GeminiTurn::new("w");
    assert!(turn.on_line("   ").is_empty());
    assert_eq!(
        turn.on_line(r#" {"type": "text", "delta": "one"} "#),
        vec![text_delta("one")]
    );
    assert_eq!(turn.on_line(r#"{"type": "message_delta", "delta": "two"}"#), vec![text_delta("two")]);
    let outcome = turn.finish(well(), "", false);
    match &outcome.events[0] {
        EngineEvent::TurnCompleted { result: Some(result), .. } => {
            assert_eq!(extract_text_from_value(result, 0).as_deref(), Some("onetwo"));
        }
        other => panic!("expected TurnCompleted, got {:?}", other),
    }
    assert_eq!(outcome.result, Ok("onetwo".to_string()));
    assert_eq!(outcome.session_id, None);
    assert!(!outcome.clears_interrupt);
    assert_eq!(
        outcome.events,
        vec![EngineEvent::TurnCompleted {
            workspace_id: "w".to_string(),
            result: Some(Json::Object(vec![(
                "text".to_string(),
                Json::Text("onetwo".to_string())
            )])),
        }]
    );
}

#[test]
fn session_is_announced_once_and_kept() {
    let mut turn = GeminiTurn::new("w");
    assert_eq!(
        turn.on_line(r#"{"type": "init", "session_id": "s1"}"#),
        vec![EngineEvent::SessionStarted {
            workspace_id: "w".to_string(),
            session_id: "s1".to_string(),
            engine: EngineType::Gemini,
        }]
    );
    assert!(turn.on_line(r#"{"type": "init", "session_id": "s2"}"#).is_empty());
    turn.on_line(r#"{"type": "text", "text": "a"}"#);
    assert_eq!(turn.finish(well(), "", false).session_id.as_deref(), Some("s1"));
    assert_eq!(turn.finish(badly(), "", false).session_id, None);
    assert_eq!(turn.recorded_session(Some("old")).as_deref(), Some("s1"));
}

#[test]
fn thoughts_on_the_side_are_not_repeated() {
    let mut turn = GeminiTurn::new("w");
    let line = r#"{"type": "text", "delta": "a", "thought": {"text": "hm"}}"#;
    assert_eq!(turn.on_line(line), vec![reasoning_delta("hm"), text_delta("a")]);
    assert_eq!(turn.on_line(line), vec![text_delta("a")]);
    assert_eq!(
        turn.on_line(r#"{"type": "thinking", "delta": "other"}"#),
        vec![reasoning_delta("other")]
    );
    assert_eq!(turn.on_line(line), vec![reasoning_delta("hm"), text_delta("a")]);
    assert_eq!(turn.recorded_session(Some("old")), None);
}

#[test]
fn recorded_reasoning_fills_in() {
    let mut turn = GeminiTurn::new("w");
    assert_eq!(turn.recorded_session(Some("old")).as_deref(), Some("old"));
    assert_eq!(turn.recorded_session(None), None);
    let messages = vec![
        reasoning_message("a"),
        reasoning_message("a"),
        reasoning_message("b"),
        reasoning_message("a"),
    ];
    assert_eq!(
        turn.on_history(&messages),
        vec![reasoning_delta("a"), reasoning_delta("b"), reasoning_delta("a")]
    );
    assert!(turn.on_history(&[reasoning_message("a")]).is_empty());
}

#[test]
fn completed_turn_brings_its_text_where_none_was_seen() {
    let mut turn = GeminiTurn::new("w");
    assert_eq!(turn.on_line(r#"{"type": "result", "response": "all"}"#).len(), 1);
    let outcome = turn.finish(well(), "", false);
    assert_eq!(outcome.result, Ok("all".to_string()));
    assert!(outcome.events.is_empty());

    let mut told = GeminiTurn::new("w");
    told.on_line(r#"{"type": "text", "text": "seen"}"#);
    told.on_line(r#"{"type": "result", "response": "all"}"#);
    assert_eq!(told.finish(well(), "", false).result, Ok("seen".to_string()));
    told.on_line(r#"{"type": "text", "text": "more"}"#);
    assert_eq!(told.finish(well(), "", false).result, Ok("seenmore".to_string()));

    let mut late = GeminiTurn::new("w");
    late.on_line(r#"{"type": "result", "status": "success"}"#);
    late.on_line(r#"{"type": "text", "text": "late"}"#);
    assert_eq!(late.finish(well(), "", false).result, Ok("late".to_string()));
}

#[test]
fn failing_process_reports_what_it_said() {
    let mut turn = GeminiTurn::new("w");
    turn.on_line("not json");
    let outcome = turn.finish(badly(), "and more\n", false);
    assert_eq!(outcome.result, Err("not json\nand more".to_string()));
    assert_eq!(outcome.events, vec![turn_error("not json\nand more")]);
    assert!(outcome.clears_interrupt);

    let quiet = GeminiTurn::new("w");
    let outcome = quiet.finish(badly(), "  ", false);
    assert_eq!(outcome.result, Err("Gemini exited with status: exit status: 2".to_string()));
}

#[test]
fn interrupted_turn_is_stopped() {
    let mut turn = GeminiTurn::new("w");
    turn.on_line(r#"{"type": "text", "text": "a"}"#);
    for exit in [None, badly()] {
        let outcome = turn.finish(exit, "noise", true);
        assert_eq!(outcome.result, Err("Session stopped.".to_string()));
        assert_eq!(outcome.events, vec![turn_error("Session stopped.")]);
        assert!(outcome.clears_interrupt);
    }
    let outcome = turn.finish(well(), "noise", true);
    assert_eq!(outcome.result, Ok("a".to_string()));
    assert!(!outcome.clears_interrupt);
    assert_eq!(turn.finish(None, "", false).result, Ok("a".to_string()));
}

#[test]
fn silent_turn_fails_with_a_diagnosis() {
    let mut turn = GeminiTurn::new("w");
    let outcome = turn.finish(well(), "", false);
    assert_eq!(
        outcome.result,
        Err("Gemini exited without a completion event or assistant output. \
             Observed event types: none."
            .to_string())
    );
    turn.on_line(r#"{"type": "zeta"}"#);
    turn.on_line(r#"{"type": "alpha"}"#);
    turn.on_line(r#"{"type": "zeta"}"#);
    turn.on_line(r#"{"type": "result"}"#);
    let outcome = turn.finish(well(), "", false);
    assert_eq!(
        outcome.result,
        Err("Gemini completed but produced no assistant output. \
             Observed event types: alpha, result, zeta."
            .to_string())
    );
    assert_eq!(outcome.events.len(), 1);
    assert_eq!(turn.finish(well(), "warning\n", false).result, Err("warning".to_string()));
}

#[test]
fn silent_turn_with_an_error_event_reports_no_second_one() {
    let mut turn = GeminiTurn::new("w");
    assert_eq!(turn.on_line(r#"{"type": "error", "message": "bad"}"#), vec![turn_error("bad")]);
    let outcome = turn.finish(well(), "", false);
    assert_eq!(outcome.result, Err("Gemini returned an error event.".to_string()));
    assert!(outcome.events.is_empty());
}

#[test]
fn tools_alone_make_a_turn() {
    let mut turn = GeminiTurn::new("w");
    turn.on_line(r#"{"type": "tool_use", "id": "t"}"#);
    let outcome = turn.finish(well(), "", false);
    assert_eq!(outcome.result, Ok(String::new()));
    assert_eq!(outcome.events.len(), 1);
}
