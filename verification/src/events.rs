//! The events that the engines report, and the messages that they are sent.
use crate::json;
use crate::json::{Json, JsonTree};
use crate::text;
use vstd::prelude::*;

verus! {

/// The engine that an event comes from.
#[derive(Debug, Clone, Copy, PartialEq, Eq, Structural)]
pub enum EngineType {
    Claude,
    Gemini,
}

/// A unified event of an engine's turn.
#[allow(inconsistent_fields)]
#[derive(Debug, Clone, PartialEq)]
pub enum EngineEvent {
    SessionStarted { workspace_id: String, session_id: String, engine: EngineType },
    TurnStarted { workspace_id: String, turn_id: String },
    TextDelta { workspace_id: String, text: String },
    ReasoningDelta { workspace_id: String, text: String },
    ToolStarted {
        workspace_id: String,
        tool_id: String,
        tool_name: String,
        input: Option<Json>,
    },
    ToolCompleted {
        workspace_id: String,
        tool_id: String,
        tool_name: Option<String>,
        output: Option<Json>,
        error: Option<String>,
    },
    UsageUpdate {
        workspace_id: String,
        input_tokens: Option<i64>,
        output_tokens: Option<i64>,
        cached_tokens: Option<i64>,
        model_context_window: Option<i64>,
    },
    TurnCompleted { workspace_id: String, result: Option<Json> },
    TurnError { workspace_id: String, error: String, code: Option<String> },
    Raw { workspace_id: String, engine: EngineType, data: Json },
}

/// What an event holds.
#[allow(inconsistent_fields)]
pub enum EventView {
    SessionStarted { workspace_id: Seq<char>, session_id: Seq<char>, engine: EngineType },
    TurnStarted { workspace_id: Seq<char>, turn_id: Seq<char> },
    TextDelta { workspace_id: Seq<char>, text: Seq<char> },
    ReasoningDelta { workspace_id: Seq<char>, text: Seq<char> },
    ToolStarted {
        workspace_id: Seq<char>,
        tool_id: Seq<char>,
        tool_name: Seq<char>,
        input: Option<JsonTree>,
    },
    ToolCompleted {
        workspace_id: Seq<char>,
        tool_id: Seq<char>,
        tool_name: Option<Seq<char>>,
        output: Option<JsonTree>,
        error: Option<Seq<char>>,
    },
    UsageUpdate {
        workspace_id: Seq<char>,
        input_tokens: Option<i64>,
        output_tokens: Option<i64>,
        cached_tokens: Option<i64>,
        model_context_window: Option<i64>,
    },
    TurnCompleted { workspace_id: Seq<char>, result: Option<JsonTree> },
    TurnError { workspace_id: Seq<char>, error: Seq<char>, code: Option<Seq<char>> },
    Raw { workspace_id: Seq<char>, engine: EngineType, data: JsonTree },
}

impl View for EngineEvent {
    type V = EventView;

    open spec fn view(&self) -> EventView {
        match *self {
            EngineEvent::SessionStarted { workspace_id, session_id, engine } =>
                EventView::SessionStarted {
                workspace_id: workspace_id@,
                session_id: session_id@,
                engine,
            },
            EngineEvent::TurnStarted { workspace_id, turn_id } => EventView::TurnStarted {
                workspace_id: workspace_id@,
                turn_id: turn_id@,
            },
            EngineEvent::TextDelta { workspace_id, text } => EventView::TextDelta {
                workspace_id: workspace_id@,
                text: text@,
            },
            EngineEvent::ReasoningDelta { workspace_id, text } => EventView::ReasoningDelta {
                workspace_id: workspace_id@,
                text: text@,
            },
            EngineEvent::ToolStarted { workspace_id, tool_id, tool_name, input } =>
                EventView::ToolStarted {
                workspace_id: workspace_id@,
                tool_id: tool_id@,
                tool_name: tool_name@,
                input: json::opt_tree(input),
            },
            EngineEvent::ToolCompleted { workspace_id, tool_id, tool_name, output, error } =>
                EventView::ToolCompleted {
                workspace_id: workspace_id@,
                tool_id: tool_id@,
                tool_name: text::opt_string(tool_name),
                output: json::opt_tree(output),
                error: text::opt_string(error),
            },
            EngineEvent::UsageUpdate {
                workspace_id,
                input_tokens,
                output_tokens,
                cached_tokens,
                model_context_window,
            } => EventView::UsageUpdate {
                workspace_id: workspace_id@,
                input_tokens,
                output_tokens,
                cached_tokens,
                model_context_window,
            },
            EngineEvent::TurnCompleted { workspace_id, result } => EventView::TurnCompleted {
                workspace_id: workspace_id@,
                result: json::opt_tree(result),
            },
            EngineEvent::TurnError { workspace_id, error, code } => EventView::TurnError {
                workspace_id: workspace_id@,
                error: error@,
                code: text::opt_string(code),
            },
            EngineEvent::Raw { workspace_id, engine, data } => EventView::Raw {
                workspace_id: workspace_id@,
                engine,
                data: data@,
            },
        }
    }
}

impl EventView {
    /// The workspace that the event belongs to.
    pub open spec fn workspace(self) -> Seq<char> {
        match self {
            EventView::SessionStarted { workspace_id, .. } => workspace_id,
            EventView::TurnStarted { workspace_id, .. } => workspace_id,
            EventView::TextDelta { workspace_id, .. } => workspace_id,
            EventView::ReasoningDelta { workspace_id, .. } => workspace_id,
            EventView::ToolStarted { workspace_id, .. } => workspace_id,
            EventView::ToolCompleted { workspace_id, .. } => workspace_id,
            EventView::UsageUpdate { workspace_id, .. } => workspace_id,
            EventView::TurnCompleted { workspace_id, .. } => workspace_id,
            EventView::TurnError { workspace_id, .. } => workspace_id,
            EventView::Raw { workspace_id, .. } => workspace_id,
        }
    }
}

/// What a list of events holds.
pub open spec fn event_views(events: Seq<EngineEvent>) -> Seq<EventView> {
    Seq::new(events.len(), |i: int| events[i]@)
}

/// What an optional event holds.
pub open spec fn opt_event(event: Option<EngineEvent>) -> Option<EventView> {
    match event {
        Some(e) => Some(e@),
        None => None,
    }
}

} // verus!
