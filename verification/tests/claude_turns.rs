use codemoss::claude::{
    ClaudeSession, RetryPhase, RetryStep, AUTO_COMPACT_SIGNAL_SOURCE,
    RETRYABLE_PROMPT_TOO_LONG_PREFIX,
};
use codemoss::events::{EngineEvent, EngineType};
use codemoss::gemini_session::SendMessageParams;
use codemoss::json::{parse_json, Json};

fn json(text: &str) -> Json {
    match parse_json(text) {
        Some(value) => value,
        None => panic!("no JSON: {}", text),
    }
}

fn session() -> ClaudeSession {
    ClaudeSession { workspace_id: "w".to_string(), session_id: Some("known".to_string()) }
}

fn params() -> SendMessageParams {
    SendMessageParams {
        text: "hello".to_string(),
        model: Some("m".to_string()),
        access_mode: None,
        images: Some(vec!["i.png".to_string()]),
        continue_session: false,
        session_id: None,
        custom_spec_root: None,
    }
}

fn turn_error(error: &str) -> EngineEvent {
    EngineEvent::TurnError { workspace_id: "w".to_string(), error: error.to_string(), code: None }
}

#[test]
fn long_prompts_are_recognised() {
    assert!(ClaudeSession::is_prompt_too_long_error("Prompt is TOO long: 9 > 8"));
    assert!(ClaudeSession::is_prompt_too_long_error("prompt too long"));
    assert!(ClaudeSession::is_prompt_too_long_error("maximum context length is 1"));
    assert!(ClaudeSession::is_prompt_too_long_error("max context length"));
    assert!(ClaudeSession::is_prompt_too_long_error("Context length exceeded"));
    assert!(ClaudeSession::is_prompt_too_long_error("token limit exceeded"));
    assert!(!ClaudeSession::is_prompt_too_long_error("prompt is long"));
}

#[test]
fn marking_and_clearing() {
    let marked = ClaudeSession::mark_retryable_prompt_too_long_error("too long");
    assert_eq!(marked, format!("{RETRYABLE_PROMPT_TOO_LONG_PREFIX}too long"));
    assert_eq!(ClaudeSession::mark_retryable_prompt_too_long_error(&marked), marked);
    assert_eq!(
        ClaudeSession::extract_retryable_prompt_too_long_error(&marked).as_deref(),
        Some("too long")
    );
    assert_eq!(ClaudeSession::extract_retryable_prompt_too_long_error("too long"), None);
    assert_eq!(ClaudeSession::clear_retryable_prompt_too_long_marker(marked), "too long");
    assert_eq!(ClaudeSession::clear_retryable_prompt_too_long_marker("x".to_string()), "x");
}

#[test]
fn compaction_signals_are_normal() {
    let signal = ClaudeSession::normalize_compaction_signal_from_text;
    assert_eq!(signal(" Compaction Failed "), Some("compaction_failed"));
    assert_eq!(signal("auto-compact-failed"), Some("compaction_failed"));
    assert_eq!(signal("CompactFailure"), Some("compaction_failed"));
    assert_eq!(signal("compact boundary"), Some("compact_boundary"));
    assert_eq!(signal("context_compacted"), Some("compact_boundary"));
    assert_eq!(signal("compacting..."), Some("compacting"));
    assert_eq!(signal("compact"), None);
    assert_eq!(signal("  "), None);
    for own in ["compaction_failed", "compact_boundary", "compacting"] {
        assert_eq!(signal(own), Some(own));
    }
    assert!(ClaudeSession::has_compaction_system_signal(&json(r#"{"state": "Compacting"}"#)));
    assert!(!ClaudeSession::has_compaction_system_signal(&json(r#"{"other": "compacting"}"#)));
    assert!(!ClaudeSession::has_compaction_system_signal(&json(r#"{"state": 1}"#)));
}

#[test]
fn reported_signal_is_recognised() {
    let extra = vec![("reason".to_string(), Json::Text("r".to_string()))];
    let event = session().emit_compaction_signal("t", "compaction_failed", extra);
    assert_eq!(event.turn_id, "t");
    match event.event {
        EngineEvent::Raw { workspace_id, engine, data } => {
            assert_eq!(workspace_id, "w");
            assert_eq!(engine, EngineType::Claude);
            assert!(ClaudeSession::has_compaction_system_signal(&data));
            assert_eq!(data.get_str("type"), Some("system"));
            assert_eq!(data.get_str("subtype"), Some("compaction_failed"));
            assert_eq!(data.get_str("source"), Some(AUTO_COMPACT_SIGNAL_SOURCE));
            assert_eq!(data.get_str("reason"), Some("r"));
        }
        other => panic!("expected Raw, got {:?}", other),
    }
}

#[test]
fn answered_message_needs_no_retry() {
    let answer = Ok("fine".to_string());
    let step = session().auto_compact_retry(&params(), "t", RetryPhase::First, answer);
    assert!(step.events.is_empty());
    match step.step {
        RetryStep::Finish { result } => assert_eq!(result, Ok("fine".to_string())),
        other => panic!("expected Finish, got {:?}", other),
    }
    let answer = Err("other".to_string());
    let step = session().auto_compact_retry(&params(), "t", RetryPhase::First, answer);
    match step.step {
        RetryStep::Finish { result } => assert_eq!(result, Err("other".to_string())),
        other => panic!("expected Finish, got {:?}", other),
    }
}

#[test]
fn long_prompt_is_compacted_and_sent_again() {
    let long = ClaudeSession::mark_retryable_prompt_too_long_error("prompt is too long");
    let step = session().auto_compact_retry(&params(), "t", RetryPhase::First, Err(long));
    assert_eq!(step.events.len(), 1);
    assert_eq!(step.events[0].turn_id, "t");
    match &step.events[0].event {
        EngineEvent::Raw { data, .. } => assert_eq!(data.get_str("subtype"), Some("compacting")),
        other => panic!("expected Raw, got {:?}", other),
    }
    match step.step {
        RetryStep::Send { phase, params, turn_id } => {
            assert_eq!(phase, RetryPhase::Compacting);
            assert_eq!(turn_id, "t::auto-compact");
            assert_eq!(params.text, "/compact");
            assert_eq!(params.images, None);
            assert!(params.continue_session);
            assert_eq!(params.session_id.as_deref(), Some("known"));
            assert_eq!(params.model.as_deref(), Some("m"));
        }
        other => panic!("expected Send, got {:?}", other),
    }
    let mut own = params();
    own.session_id = Some("own".to_string());
    let step = session().auto_compact_retry(&own, "t", RetryPhase::Compacting, Ok(String::new()));
    assert!(step.events.is_empty());
    match step.step {
        RetryStep::Send { phase, params, turn_id } => {
            assert_eq!(phase, RetryPhase::Retrying);
            assert_eq!(turn_id, "t");
            assert_eq!(params.text, "hello");
            assert_eq!(params.images, Some(vec!["i.png".to_string()]));
            assert_eq!(params.session_id.as_deref(), Some("own"));
        }
        other => panic!("expected Send, got {:?}", other),
    }
}

#[test]
fn failed_compaction_and_failed_retry_are_reported() {
    let marked = ClaudeSession::mark_retryable_prompt_too_long_error("no room");
    let step =
        session().auto_compact_retry(&params(), "t", RetryPhase::Compacting, Err(marked.clone()));
    let message = "Prompt is too long and automatic /compact failed: no room";
    assert_eq!(step.events.len(), 2);
    match &step.events[0].event {
        EngineEvent::Raw { data, .. } => {
            assert_eq!(data.get_str("subtype"), Some("compaction_failed"));
            assert_eq!(data.get_str("reason"), Some(message));
        }
        other => panic!("expected Raw, got {:?}", other),
    }
    assert_eq!(step.events[1].event, turn_error(message));
    match step.step {
        RetryStep::Finish { result } => assert_eq!(result, Err(message.to_string())),
        other => panic!("expected Finish, got {:?}", other),
    }
    let step = session().auto_compact_retry(&params(), "t", RetryPhase::Retrying, Err(marked));
    let message = "Prompt is too long. Retried once after /compact but still failed: no room";
    assert_eq!(step.events.len(), 1);
    assert_eq!(step.events[0].event, turn_error(message));
    match step.step {
        RetryStep::Finish { result } => assert_eq!(result, Err(message.to_string())),
        other => panic!("expected Finish, got {:?}", other),
    }
    let step =
        session().auto_compact_retry(&params(), "t", RetryPhase::Retrying, Ok("ok".to_string()));
    assert!(step.events.is_empty());
}

#[test]
fn usage_is_found_in_its_places() {
    let usage = |text: &str| session().try_extract_context_window_usage("t", &json(text));
    let all = r#"{
        "context_window": {
            "context_window_size": 200,
            "current_usage": {
                "input_tokens": 3,
                "output_tokens": 4,
                "cache_creation_input_tokens": 5,
                "cache_read_input_tokens": 6
            }
        },
        "message": {"usage": {"input_tokens": 1}},
        "usage": {"input_tokens": 2}
    }"#;
    match usage(all) {
        Some(event) => assert_eq!(
            event.event,
            EngineEvent::UsageUpdate {
                workspace_id: "w".to_string(),
                input_tokens: Some(3),
                output_tokens: Some(4),
                cached_tokens: Some(11),
                model_context_window: Some(200),
            }
        ),
        None => panic!("expected usage"),
    }
    let message = r#"{
        "context_window": {"contextWindowSize": 9},
        "message": {"usage": {"inputTokens": 1, "cacheReadInputTokens": -2}},
        "usage": {"input_tokens": 2}
    }"#;
    match usage(message) {
        Some(event) => assert_eq!(
            event.event,
            EngineEvent::UsageUpdate {
                workspace_id: "w".to_string(),
                input_tokens: Some(1),
                output_tokens: None,
                cached_tokens: None,
                model_context_window: None,
            }
        ),
        None => panic!("expected usage"),
    }
    assert!(usage(r#"{"usage": {"input_tokens": 2}}"#).is_some());
    assert!(usage(r#"{"usage": {"output_tokens": 2}}"#).is_none());
    assert!(usage(r#"{"usage": {"input_tokens": 1.5}}"#).is_none());
    assert!(usage("{}").is_none());
    let (found, window) = (json(all), session().find_usage_data(&json(all)).1);
    assert_eq!(session().find_usage_data(&found).0.map(|u| u.is_null()), Some(false));
    assert_eq!(window, Some(200));
}

#[test]
fn cached_tokens_that_do_not_fit_are_told_apart() {
    let huge = json(
        r#"{
            "usage": {
                "cache_creation_tokens": 9223372036854775807,
                "cache_read_tokens": 1,
                "input_tokens": 1
            }
        }"#,
    );
    assert!(!session().cached_tokens_fit(&huge));
    assert!(session().checked_context_window_usage("t", &huge).is_none());
    let plain = json(r#"{"usage": {"input_tokens": 1}}"#);
    assert!(session().cached_tokens_fit(&plain));
    assert!(matches!(session().checked_context_window_usage("t", &plain), Some(Some(_))));
    assert!(matches!(session().checked_context_window_usage("t", &json("{}")), Some(None)));
}
