use codemoss::events::EngineEvent;
use codemoss::gemini_event::{
    contains_reasoning_keyword, extract_event_text, extract_latest_thought_text,
    extract_reasoning_event_text, extract_result_error_message, extract_session_id,
    extract_text_from_value, extract_thought_entry_text, first_non_empty_str,
    is_completion_event_type, is_reasoning_event_type, is_text_like_event_type, is_truthy,
    parse_completion_event, parse_gemini_event, should_treat_message_as_reasoning,
};
use codemoss::gemini_history::{collect_latest_turn_reasoning_texts, GeminiSessionMessage};
use codemoss::json::{parse_json, Json};

fn json(text: &str) -> Json {
    match parse_json(text) {
        Some(value) => value,
        None => panic!("no JSON: {}", text),
    }
}

fn parsed(text: &str) -> Option<EngineEvent> {
    parse_gemini_event("workspace-1", &json(text))
}

fn message(id: &str, role: &str, text: &str, kind: &str) -> GeminiSessionMessage {
    GeminiSessionMessage {
        id: id.to_string(),
        role: role.to_string(),
        text: text.to_string(),
        images: None,
        timestamp: None,
        kind: kind.to_string(),
        tool_type: None,
        title: None,
        tool_input: None,
        tool_output: None,
    }
}

#[test]
fn parse_result_error_maps_to_turn_error() {
    let payload = json(
        r#"{"type": "result", "status": "error", "error": {"message": "quota exceeded"}}"#,
    );
    let parsed = parse_gemini_event("workspace-1", &payload);
    match parsed {
        Some(EngineEvent::TurnError { error, .. }) => {
            assert!(error.contains("quota exceeded"));
        }
        _ => panic!("expected TurnError"),
    }
}

#[test]
fn parse_result_success_maps_to_turn_completed() {
    let payload = json(r#"{"type": "result", "status": "success", "text": "你好"}"#);
    let parsed = parse_gemini_event("workspace-1", &payload);
    assert!(matches!(parsed, Some(EngineEvent::TurnCompleted { .. })));
}

#[test]
fn parse_reasoning_delta_alias_maps_to_reasoning_delta() {
    let payload = json(r#"{"type": "reasoning_delta", "delta": "先规划，再执行"}"#);
    let parsed = parse_gemini_event("workspace-1", &payload);
    match parsed {
        Some(EngineEvent::ReasoningDelta { text, .. }) => {
            assert_eq!(text, "先规划，再执行");
        }
        _ => panic!("expected ReasoningDelta"),
    }
}

#[test]
fn parse_thought_event_with_subject_description_maps_to_reasoning_delta() {
    let payload = json(
        r#"{"type": "thought", "subject": "读取项目结构", "description": "先检查 README 和 pom.xml"}"#,
    );
    let parsed = parse_gemini_event("workspace-1", &payload);
    match parsed {
        Some(EngineEvent::ReasoningDelta { text, .. }) => {
            assert_eq!(text, "读取项目结构: 先检查 README 和 pom.xml");
        }
        _ => panic!("expected ReasoningDelta"),
    }
}

#[test]
fn parse_reasoning_keyword_event_with_nested_thought_maps_to_reasoning_delta() {
    let payload = json(
        r#"{
            "type": "assistant_thinking_update",
            "thought": {"subject": "规划步骤", "description": "先看配置再看源码"}
        }"#,
    );
    let parsed = parse_gemini_event("workspace-1", &payload);
    match parsed {
        Some(EngineEvent::ReasoningDelta { text, .. }) => {
            assert_eq!(text, "规划步骤: 先看配置再看源码");
        }
        _ => panic!("expected ReasoningDelta"),
    }
}

#[test]
fn parse_reasoning_keyword_event_with_nested_message_thoughts_maps_to_reasoning_delta() {
    let payload = json(
        r#"{
            "type": "assistant_thinking_update",
            "message": {
                "thoughts": [
                    {
                        "subject": "读取项目结构",
                        "description": "先看 README 和 package.json"
                    }
                ]
            }
        }"#,
    );
    let parsed = parse_gemini_event("workspace-1", &payload);
    match parsed {
        Some(EngineEvent::ReasoningDelta { text, .. }) => {
            assert_eq!(text, "读取项目结构: 先看 README 和 package.json");
        }
        _ => panic!("expected ReasoningDelta"),
    }
}

#[test]
fn parse_message_with_reasoning_role_maps_to_reasoning_delta() {
    let payload = json(
        r#"{"type": "message", "role": "assistant_reasoning", "delta": "分析上下文..."}"#,
    );
    let parsed = parse_gemini_event("workspace-1", &payload);
    match parsed {
        Some(EngineEvent::ReasoningDelta { text, .. }) => {
            assert_eq!(text, "分析上下文...");
        }
        _ => panic!("expected ReasoningDelta"),
    }
}

#[test]
fn parse_message_delta_alias_maps_to_text_delta() {
    let payload = json(r#"{"type": "message_delta", "delta": "回复片段"}"#);
    let parsed = parse_gemini_event("workspace-1", &payload);
    match parsed {
        Some(EngineEvent::TextDelta { text, .. }) => {
            assert_eq!(text, "回复片段");
        }
        _ => panic!("expected TextDelta"),
    }
}

#[test]
fn parse_done_alias_maps_to_turn_completed() {
    let payload = json(r#"{"type": "done", "status": "success", "text": "完成"}"#);
    let parsed = parse_gemini_event("workspace-1", &payload);
    assert!(matches!(parsed, Some(EngineEvent::TurnCompleted { .. })));
}

#[test]
fn extract_latest_thought_text_prefers_latest_non_empty_entry() {
    let payload = json(
        r#"{
            "thoughts": [
                {"subject": "先检查上下文", "description": "确认用户意图"},
                {"subject": "再输出答案", "description": "整理最终结论"}
            ]
        }"#,
    );
    let extracted = extract_latest_thought_text(&payload);
    assert_eq!(extracted.as_deref(), Some("再输出答案: 整理最终结论"));
}

#[test]
fn extract_latest_thought_text_reads_nested_message_payload() {
    let payload = json(
        r#"{
            "type": "message",
            "message": {
                "messages": [
                    {
                        "type": "assistant",
                        "thoughts": [
                            {"subject": "先收集上下文", "description": "读取 docs 和 src 目录"},
                            {"subject": "再生成结论", "description": "整理关键变更点"}
                        ]
                    }
                ]
            }
        }"#,
    );
    let extracted = extract_latest_thought_text(&payload);
    assert_eq!(extracted.as_deref(), Some("再生成结论: 整理关键变更点"));
}

#[test]
fn collect_latest_turn_reasoning_texts_stops_at_latest_user_boundary() {
    let messages = vec![
        message("old-r1", "assistant", "旧思考", "reasoning"),
        message("old-a1", "assistant", "旧正文", "message"),
        message("u-last", "user", "新的提问", "message"),
        message("r-last-1", "assistant", "先看目录", "reasoning"),
        message("r-last-2", "assistant", "再读 README", "reasoning"),
    ];
    let collected = collect_latest_turn_reasoning_texts(&messages);
    assert_eq!(collected, vec!["先看目录".to_string(), "再读 README".to_string()]);
}

#[test]
fn recorded_reasoning_is_trimmed_and_never_blank() {
    let messages = vec![
        message("a", "assistant", "  early  ", "Reasoning"),
        message("b", "assistant", "   ", "reasoning"),
        message("c", "assistant", "plain", "message"),
    ];
    assert_eq!(collect_latest_turn_reasoning_texts(&messages), vec!["early".to_string()]);
    let closed = vec![message("a", "assistant", "x", "reasoning"), message("u", "USER", "q", "m")];
    assert!(collect_latest_turn_reasoning_texts(&closed).is_empty());
    assert!(collect_latest_turn_reasoning_texts(&[]).is_empty());
}

#[test]
fn first_candidate_with_text_is_taken_trimmed() {
    assert_eq!(first_non_empty_str(&[None, Some("  "), Some(" x "), Some("y")]), Some("x"));
    assert_eq!(first_non_empty_str(&[None, Some("\u{3000}\n")]), None);
    assert_eq!(first_non_empty_str(&[]), None);
}

#[test]
fn text_of_a_value_is_found_through_its_levels() {
    assert_eq!(extract_text_from_value(&json(r#"" hi ""#), 0).as_deref(), Some("hi"));
    assert_eq!(
        extract_text_from_value(&json(r#"["a", {"text": "b"}, 3, "  ", ["c"]]"#), 0).as_deref(),
        Some("a\nb\nc")
    );
    assert_eq!(
        extract_text_from_value(&json(r#"{"parts": [{"text": "x"}, {"text": "y"}]}"#), 0).as_deref(),
        Some("x\ny")
    );
    assert_eq!(
        extract_text_from_value(&json(r#"{"data": {"payload": {"output": {"text": "deep"}}}}"#), 0)
            .as_deref(),
        Some("deep")
    );
    assert_eq!(extract_text_from_value(&json(r#""x""#), 4).as_deref(), Some("x"));
    assert_eq!(extract_text_from_value(&json(r#""x""#), 5), None);
    assert_eq!(extract_text_from_value(&json(r#"[[[[["x"]]]]]"#), 0), None);
    assert_eq!(extract_text_from_value(&json("null"), 0), None);
    assert_eq!(extract_text_from_value(&json("12"), 0), None);
}

#[test]
fn text_of_a_thought_joins_subject_and_description() {
    assert_eq!(
        extract_thought_entry_text(&json(r#"{"title": " t ", "detail": "d"}"#)).as_deref(),
        Some("t: d")
    );
    assert_eq!(extract_thought_entry_text(&json(r#"{"subject": "s"}"#)).as_deref(), Some("s"));
    assert_eq!(extract_thought_entry_text(&json(r#"{"message": "m"}"#)).as_deref(), Some("m"));
    assert_eq!(extract_thought_entry_text(&json(r#"{"message": " "}"#)), None);
    assert_eq!(
        extract_latest_thought_text(&json(r#"{"currentThought": {"text": "now"}}"#)).as_deref(),
        Some("now")
    );
    assert_eq!(
        extract_latest_thought_text(
            &json(r#"[{"thought": {"text": "first"}}, {"thought": {"text": "last"}}, 1]"#)
        )
        .as_deref(),
        Some("last")
    );
    assert_eq!(
        extract_latest_thought_text(
            &json(r#"{"zzz": {"thought": {"text": "z"}}, "aaa": {"thought": {"text": "a"}}}"#)
        )
        .as_deref(),
        Some("a")
    );
}

#[test]
fn session_id_is_read_from_init_events_only() {
    assert_eq!(
        extract_session_id(&json(r#"{"type": "init", "session_id": " s1 "}"#)).as_deref(),
        Some("s1")
    );
    assert_eq!(
        extract_session_id(&json(r#"{"type": "init", "sessionId": "s2"}"#)).as_deref(),
        Some("s2")
    );
    assert_eq!(extract_session_id(&json(r#"{"type": "other", "session_id": "s"}"#)), None);
    assert_eq!(extract_session_id(&json(r#"{"type": "init"}"#)), None);
}

#[test]
fn words_and_types_are_recognised() {
    assert!(contains_reasoning_keyword(" Deep THINKING "));
    assert!(!contains_reasoning_keyword("assistant"));
    assert!(!contains_reasoning_keyword("  "));
    assert!(is_reasoning_event_type("Thought_Delta"));
    assert!(is_reasoning_event_type("my_reasons"));
    assert!(!is_reasoning_event_type("text"));
    assert!(is_text_like_event_type("Some_Message_Chunk"));
    assert!(is_text_like_event_type("content_delta"));
    assert!(!is_text_like_event_type("init"));
    assert!(is_completion_event_type(" Response.Completed "));
    assert!(is_completion_event_type("final"));
    assert!(!is_completion_event_type("finally"));
}

#[test]
fn flags_are_read_in_all_their_forms() {
    assert!(is_truthy(Some(&json("true"))));
    assert!(is_truthy(Some(&json("2"))));
    assert!(is_truthy(Some(&json(r#"" Yes ""#))));
    assert!(is_truthy(Some(&json(r#""on""#))));
    assert!(!is_truthy(Some(&json("0"))));
    assert!(!is_truthy(Some(&json("1.5"))));
    assert!(!is_truthy(Some(&json(r#""no""#))));
    assert!(!is_truthy(Some(&json("[]"))));
    assert!(!is_truthy(None));
    assert!(should_treat_message_as_reasoning(&json(r#"{"isThought": 1}"#), "assistant"));
    assert!(should_treat_message_as_reasoning(&json(r#"{"channel": "thinking"}"#), ""));
    assert!(!should_treat_message_as_reasoning(&json("{}"), "assistant"));
}

#[test]
fn own_messages_are_silent() {
    assert_eq!(parsed(r#"{"type": "message", "role": "User", "text": "q"}"#), None);
    assert_eq!(parsed(r#"{"type": "message", "role": "SYSTEM", "text": "q"}"#), None);
    assert_eq!(
        parsed(r#"{"type": "message", "role": "assistant", "content": [{"text": "a"}]}"#),
        Some(EngineEvent::TextDelta {
            workspace_id: "workspace-1".to_string(),
            text: "a".to_string(),
        })
    );
    assert_eq!(parsed(r#"{"type": "text", "text": "  "}"#), None);
    assert_eq!(parsed(r#"{"text": "no type"}"#), None);
    assert_eq!(parsed(r#"{"type": "init"}"#), None);
}

#[test]
fn tools_are_reported_with_their_ids() {
    assert_eq!(
        parsed(r#"{"type": "tool_use", "tool_id": "t1", "tool_name": "ls", "parameters": {"a": 1}}"#),
        Some(EngineEvent::ToolStarted {
            workspace_id: "workspace-1".to_string(),
            tool_id: "t1".to_string(),
            tool_name: "ls".to_string(),
            input: Some(json(r#"{"a": 1}"#)),
        })
    );
    assert_eq!(
        parsed(r#"{"type": "tool_use", "id": "t2"}"#),
        Some(EngineEvent::ToolStarted {
            workspace_id: "workspace-1".to_string(),
            tool_id: "t2".to_string(),
            tool_name: "tool".to_string(),
            input: None,
        })
    );
    assert_eq!(parsed(r#"{"type": "tool_use", "tool_name": "ls"}"#), None);
    assert_eq!(
        parsed(r#"{"type": "tool_result", "toolId": "t1", "status": "Failed", "output": "o"}"#),
        Some(EngineEvent::ToolCompleted {
            workspace_id: "workspace-1".to_string(),
            tool_id: "t1".to_string(),
            tool_name: None,
            output: Some(Json::Text("o".to_string())),
            error: Some("Tool execution failed".to_string()),
        })
    );
    assert_eq!(
        parsed(r#"{"type": "tool_result", "id": "t1", "error": "boom"}"#),
        Some(EngineEvent::ToolCompleted {
            workspace_id: "workspace-1".to_string(),
            tool_id: "t1".to_string(),
            tool_name: None,
            output: None,
            error: Some("boom".to_string()),
        })
    );
}

#[test]
fn errors_carry_their_message_or_the_event() {
    assert_eq!(
        parsed(r#"{"type": "error", "message": " bad "}"#),
        Some(EngineEvent::TurnError {
            workspace_id: "workspace-1".to_string(),
            error: "bad".to_string(),
            code: None,
        })
    );
    assert_eq!(
        parsed(r#"{"type": "error", "code": 7}"#),
        Some(EngineEvent::TurnError {
            workspace_id: "workspace-1".to_string(),
            error: r#"{"code":7,"type":"error"}"#.to_string(),
            code: None,
        })
    );
}

#[test]
fn results_end_the_turn() {
    let failed = |text: &str| match parse_completion_event("w", &json(text)) {
        Some(EngineEvent::TurnError { error, .. }) => error,
        other => panic!("expected TurnError, got {:?}", other),
    };
    assert_eq!(failed(r#"{"status": " Cancelled "}"#), "Gemini result status: cancelled");
    assert_eq!(failed(r#"{"error": {}}"#), "Gemini returned an error result.");
    assert_eq!(failed(r#"{"error": [], "message": "m"}"#), "m");
    assert_eq!(
        extract_result_error_message(&json(r#"{"error": "e", "message": "m"}"#)).as_deref(),
        Some("e")
    );
    match parse_completion_event("w", &json(r#"{"error": null, "response": {"text": "hi"}}"#)) {
        Some(EngineEvent::TurnCompleted { result: Some(result), .. }) => {
            assert_eq!(result.get_str("text"), Some("hi"));
            assert_eq!(
                result.get("raw"),
                Some(&json(r#"{"error": null, "response": {"text": "hi"}}"#))
            );
            assert_eq!(extract_text_from_value(&result, 0).as_deref(), Some("hi"));
        }
        other => panic!("expected TurnCompleted, got {:?}", other),
    }
    match parse_completion_event("w", &json(r#"{"n": 1}"#)) {
        Some(EngineEvent::TurnCompleted { result: Some(result), .. }) => {
            assert_eq!(result, json(r#"{"n": 1}"#));
        }
        other => panic!("expected TurnCompleted, got {:?}", other),
    }
}

#[test]
fn texts_of_events_fall_back_in_order() {
    assert_eq!(
        extract_event_text(&json(r#"{"content": {"parts": ["a", "b"]}}"#)).as_deref(),
        Some("a\nb")
    );
    assert_eq!(extract_event_text(&json(r#"{"delta": "d", "text": "t"}"#)).as_deref(), Some("d"));
    assert_eq!(extract_event_text(&json(r#"{"x": 1}"#)), None);
    assert_eq!(
        extract_reasoning_event_text(&json(r#"{"latestThought": {"text": "l"}}"#)).as_deref(),
        Some("l")
    );
    assert_eq!(extract_reasoning_event_text(&json("{}")), None);
}
