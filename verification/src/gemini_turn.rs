//! One turn of the Gemini command line: what its output means step by step.
use crate::events;
use crate::events::{EngineEvent, EngineType, EventView};
use crate::gemini_event;
use crate::gemini_history;
use crate::gemini_history::{GeminiSessionMessage, MessageView};
use crate::json;
use crate::json::{Json, JsonTree};
use crate::text;
use vstd::prelude::*;
use vstd::string::*;

verus! {

/// What is known of a running turn.
#[derive(Debug)]
pub struct GeminiTurn {
    workspace_id: String,
    response_text: String,
    saw_turn_completed: bool,
    saw_turn_error: bool,
    saw_tool_activity: bool,
    error_output: String,
    new_session_id: Option<String>,
    observed_event_types: Vec<String>,
    last_reasoning_snapshot: String,
    saw_reasoning_output: bool,
}

/// How the process of a turn ended: whether with success, and the status as it
/// is shown.
#[derive(Debug, Clone)]
pub struct ExitReport {
    pub success: bool,
    pub status: String,
}

/// How a turn ended.
#[derive(Debug)]
pub struct TurnOutcome {
    /// The events that are still to be reported.
    pub events: Vec<EngineEvent>,
    /// The answer, or what went wrong.
    pub result: Result<String, String>,
    /// The id that the session has from now on, where it is new.
    pub session_id: Option<String>,
    /// Whether a noted interruption is used up.
    pub clears_interrupt: bool,
}

/// The model of a running turn.
pub struct TurnView {
    pub workspace_id: Seq<char>,
    pub response: Seq<char>,
    pub completed: bool,
    pub errored: bool,
    pub tools: bool,
    pub errors: Seq<char>,
    pub session: Option<Seq<char>>,
    pub observed: Seq<Seq<char>>,
    pub last_reasoning: Seq<char>,
    pub reasoned: bool,
}

impl View for GeminiTurn {
    type V = TurnView;

    closed spec fn view(&self) -> TurnView {
        TurnView {
            workspace_id: self.workspace_id@,
            response: self.response_text@,
            completed: self.saw_turn_completed,
            errored: self.saw_turn_error,
            tools: self.saw_tool_activity,
            errors: self.error_output@,
            session: text::opt_string(self.new_session_id),
            observed: text::texts(self.observed_event_types@),
            last_reasoning: self.last_reasoning_snapshot@,
            reasoned: self.saw_reasoning_output,
        }
    }
}

/// The model of how a process ended.
pub struct ExitView {
    pub success: bool,
    pub status: Seq<char>,
}

impl View for ExitReport {
    type V = ExitView;

    open spec fn view(&self) -> ExitView {
        ExitView { success: self.success, status: self.status@ }
    }
}

/// The model of an optional report.
pub open spec fn opt_exit(exit: Option<ExitReport>) -> Option<ExitView> {
    match exit {
        Some(report) => Some(report@),
        None => None,
    }
}

/// The model of how a turn ended.
pub struct OutcomeView {
    pub events: Seq<EventView>,
    pub result: Result<Seq<char>, Seq<char>>,
    pub session: Option<Seq<char>>,
    pub clears_interrupt: bool,
}

impl View for TurnOutcome {
    type V = OutcomeView;

    open spec fn view(&self) -> OutcomeView {
        OutcomeView {
            events: events::event_views(self.events@),
            result: match self.result {
                Ok(s) => Ok(s@),
                Err(s) => Err(s@),
            },
            session: text::opt_string(self.session_id),
            clears_interrupt: self.clears_interrupt,
        }
    }
}

// ---------------------------------------------------------------------------
// Models: one event
// ---------------------------------------------------------------------------

/// The ordered list of texts with `t` in it.
pub open spec fn listed(list: Seq<Seq<char>>, t: Seq<char>) -> Seq<Seq<char>>
    decreases list.len(),
{
    if list.len() == 0 {
        seq![t]
    } else if list[0] == t {
        list
    } else if json::text_before(t, list[0]) {
        seq![t] + list
    } else {
        seq![list[0]] + listed(list.drop_first(), t)
    }
}

/// A turn of which nothing has been seen.
pub open spec fn fresh_turn(workspace_id: Seq<char>) -> TurnView {
    TurnView {
        workspace_id,
        response: Seq::empty(),
        completed: false,
        errored: false,
        tools: false,
        errors: Seq::empty(),
        session: None,
        observed: Seq::empty(),
        last_reasoning: Seq::empty(),
        reasoned: false,
    }
}

/// The turn after the type of an event was noted.
pub open spec fn after_type(s: TurnView, e: JsonTree) -> TurnView {
    match e.field_text("type"@) {
        Some(kind) => TurnView { observed: listed(s.observed, kind), ..s },
        None => s,
    }
}

/// The event announces the session of the turn for the first time.
pub open spec fn announces(s: TurnView, e: JsonTree) -> bool {
    s.session is None && gemini_event::announced_session(e) is Some
}

/// The turn after the session id of an event was noted.
pub open spec fn after_session(s: TurnView, e: JsonTree) -> TurnView {
    if announces(s, e) {
        TurnView { session: gemini_event::announced_session(e), ..s }
    } else {
        s
    }
}

/// What is reported of the session id of an event.
pub open spec fn session_events(s: TurnView, e: JsonTree) -> Seq<EventView> {
    if announces(s, e) {
        seq![
            EventView::SessionStarted {
                workspace_id: s.workspace_id,
                session_id: gemini_event::announced_session(e).unwrap(),
                engine: EngineType::Gemini,
            },
        ]
    } else {
        Seq::empty()
    }
}

/// The new thought that an event shows besides what it is read as.
pub open spec fn side_thought(s: TurnView, e: JsonTree) -> Option<Seq<char>> {
    let parsed = gemini_event::gemini_event(s.workspace_id, e);
    let thought = gemini_event::latest_thought(e, gemini_event::thought_levels());
    if parsed matches Some(EventView::ReasoningDelta { .. }) {
        None
    } else if thought == Some(s.last_reasoning) {
        None
    } else {
        thought
    }
}

/// The turn after the thoughts of an event were noted.
pub open spec fn after_thought(s: TurnView, e: JsonTree) -> TurnView {
    match side_thought(s, e) {
        Some(thought) => TurnView { last_reasoning: thought, reasoned: true, ..s },
        None => s,
    }
}

/// What is reported of the thoughts of an event.
pub open spec fn thought_events(s: TurnView, e: JsonTree) -> Seq<EventView> {
    match side_thought(s, e) {
        Some(thought) => seq![
            EventView::ReasoningDelta { workspace_id: s.workspace_id, text: thought },
        ],
        None => Seq::empty(),
    }
}

/// The text that a completed turn brings along, where no answer was seen yet.
pub open spec fn completed_response(s: TurnView, result: Option<JsonTree>) -> Seq<char> {
    let found = match result {
        Some(value) => gemini_event::value_text(value, gemini_event::text_levels()),
        None => None,
    };
    match found {
        Some(t) => if text::trimmed(s.response).len() == 0 {
            t
        } else {
            s.response
        },
        None => s.response,
    }
}

/// The turn after a unified event.
pub open spec fn after_unified(s: TurnView, event: EventView) -> TurnView {
    match event {
        EventView::TextDelta { text, .. } => TurnView { response: s.response + text, ..s },
        EventView::ReasoningDelta { text, .. } => TurnView {
            last_reasoning: text,
            reasoned: true,
            ..s
        },
        EventView::ToolStarted { .. } => TurnView { tools: true, ..s },
        EventView::ToolCompleted { .. } => TurnView { tools: true, ..s },
        EventView::TurnError { .. } => TurnView { errored: true, ..s },
        EventView::TurnCompleted { result, .. } => TurnView {
            completed: true,
            response: completed_response(s, result),
            ..s
        },
        _ => s,
    }
}

/// The turn after an event of the stream.
pub open spec fn after_event(s: TurnView, e: JsonTree) -> TurnView {
    let noted = after_thought(after_session(after_type(s, e), e), e);
    match gemini_event::gemini_event(s.workspace_id, e) {
        Some(event) => after_unified(noted, event),
        None => noted,
    }
}

/// What is reported of an event of the stream.
pub open spec fn events_of(s: TurnView, e: JsonTree) -> Seq<EventView> {
    session_events(s, e) + thought_events(s, e) + (match gemini_event::gemini_event(
        s.workspace_id,
        e,
    ) {
        Some(event) => seq![event],
        None => Seq::empty(),
    })
}

/// The turn after a line of the output.
pub open spec fn after_line(s: TurnView, line: Seq<char>) -> TurnView {
    let t = text::trimmed(line);
    if t.len() == 0 {
        s
    } else {
        match json::json_of_text(t) {
            Some(e) => after_event(s, e),
            None => TurnView { errors: (s.errors + t).push('\n'), ..s },
        }
    }
}

/// What is reported of a line of the output.
pub open spec fn line_events(s: TurnView, line: Seq<char>) -> Seq<EventView> {
    let t = text::trimmed(line);
    if t.len() == 0 {
        Seq::empty()
    } else {
        match json::json_of_text(t) {
            Some(e) => events_of(s, e),
            None => Seq::empty(),
        }
    }
}

// ---------------------------------------------------------------------------
// Models: history and end
// ---------------------------------------------------------------------------

/// The session whose record is searched for reasoning, where none was seen.
pub open spec fn recorded_session(s: TurnView, current: Option<Seq<char>>) -> Option<Seq<char>> {
    if s.reasoned {
        None
    } else {
        gemini_event::or_else(s.session, current)
    }
}

/// The last reasoning after the given texts were reported.
pub open spec fn last_after(last: Seq<char>, found: Seq<Seq<char>>) -> Seq<char> {
    if found.len() == 0 {
        last
    } else {
        found.last()
    }
}

/// The texts among `found` that differ from what was reported before them.
pub open spec fn fresh_texts(last: Seq<char>, found: Seq<Seq<char>>) -> Seq<Seq<char>>
    decreases found.len(),
{
    if found.len() == 0 {
        Seq::empty()
    } else {
        let before = fresh_texts(last, found.drop_last());
        if found.last() == last_after(last, found.drop_last()) {
            before
        } else {
            before.push(found.last())
        }
    }
}

/// The reasoning events with the given texts.
pub open spec fn reasoning_events(workspace_id: Seq<char>, found: Seq<Seq<char>>) -> Seq<
    EventView,
> {
    Seq::new(
        found.len(),
        |i: int| EventView::ReasoningDelta { workspace_id, text: found[i] },
    )
}

/// What went wrong, with the error stream of the process.
pub open spec fn all_errors(s: TurnView, stderr: Seq<char>) -> Seq<char> {
    if text::trimmed(stderr).len() == 0 {
        s.errors
    } else {
        s.errors + stderr
    }
}

/// The event that reports an error of the turn.
pub open spec fn error_view(s: TurnView, error: Seq<char>) -> EventView {
    EventView::TurnError { workspace_id: s.workspace_id, error, code: None }
}

/// A turn that failed with the given message.
pub open spec fn failed(s: TurnView, error: Seq<char>, clears_interrupt: bool) -> OutcomeView {
    OutcomeView {
        events: seq![error_view(s, error)],
        result: Err(error),
        session: None,
        clears_interrupt,
    }
}

/// The object that holds a text.
pub open spec fn text_object(s: Seq<char>) -> JsonTree {
    JsonTree::Object(seq![("text"@, JsonTree::Text(s))])
}

/// A turn that succeeded.
pub open spec fn succeeded(s: TurnView, clears_interrupt: bool) -> OutcomeView {
    OutcomeView {
        events: if s.completed || s.errored {
            Seq::empty()
        } else {
            seq![
                EventView::TurnCompleted {
                    workspace_id: s.workspace_id,
                    result: Some(text_object(s.response)),
                },
            ]
        },
        result: Ok(s.response),
        session: s.session,
        clears_interrupt,
    }
}

/// What is said of a turn without an answer.
pub open spec fn diagnostic(s: TurnView) -> Seq<char> {
    let reason = if s.completed {
        "Gemini completed but produced no assistant output."@
    } else {
        "Gemini exited without a completion event or assistant output."@
    };
    let kinds = if s.observed.len() == 0 {
        "none"@
    } else {
        text::joined(s.observed, ", "@)
    };
    reason + " Observed event types: "@ + kinds + "."@
}

/// How the turn ends, given how its process ended, what it wrote to its error
/// stream and whether an interruption was noted.
pub open spec fn outcome(
    s: TurnView,
    exit: Option<ExitView>,
    stderr: Seq<char>,
    interrupted: bool,
) -> OutcomeView {
    let errors = text::trimmed(all_errors(s, stderr));
    let silent = text::trimmed(s.response).len() == 0;
    let ended_well = exit matches Some(report) && report.success;
    if !ended_well && interrupted {
        failed(s, "Session stopped."@, true)
    } else if !ended_well && exit is Some {
        failed(
            s,
            if errors.len() == 0 {
                "Gemini exited with status: "@ + exit.unwrap().status
            } else {
                errors
            },
            true,
        )
    } else if silent && errors.len() > 0 {
        failed(s, errors, !ended_well)
    } else if silent && s.errored {
        OutcomeView {
            events: Seq::empty(),
            result: Err("Gemini returned an error event."@),
            session: None,
            clears_interrupt: !ended_well,
        }
    } else if silent && !s.tools {
        failed(s, diagnostic(s), !ended_well)
    } else {
        succeeded(s, !ended_well)
    }
}

// ---------------------------------------------------------------------------
// Functions
// ---------------------------------------------------------------------------

proof fn lemma_listed_skips(list: Seq<Seq<char>>, t: Seq<char>, n: int)
    requires
        0 <= n <= list.len(),
        forall|j: int|
            0 <= j < n ==> #[trigger] list[j] != t && !json::text_before(t, list[j]),
    ensures
        listed(list, t) == list.take(n) + listed(list.skip(n), t),
    decreases n,
{
    if n == 0 {
        assert(list.skip(0) =~= list);
        assert(list.take(0) + listed(list, t) =~= listed(list, t));
    } else {
        assert(list[0] != t);
        let rest = list.drop_first();
        assert forall|j: int| 0 <= j < n - 1 implies #[trigger] rest[j] != t && !json::text_before(
            t,
            rest[j],
        ) by {
            assert(rest[j] == list[j + 1]);
        }
        lemma_listed_skips(rest, t, n - 1);
        assert(rest.skip(n - 1) =~= list.skip(n));
        assert(seq![list[0]] + (rest.take(n - 1) + listed(list.skip(n), t)) =~= list.take(n)
            + listed(list.skip(n), t));
    }
}

/// Puts a text into an ordered list that holds each text once.
fn list_text(list: &mut Vec<String>, t: &str)
    ensures
        text::texts(final(list)@) == listed(text::texts(old(list)@), t@),
{
    let ghost before = text::texts(list@);
    let mut i: usize = 0;
    while i < list.len() && !text::same(list[i].as_str(), t) && !json::stands_before(
        t,
        list[i].as_str(),
    )
        invariant
            i <= list@.len(),
            before == text::texts(list@),
            *list == *old(list),
            forall|j: int|
                0 <= j < i ==> #[trigger] before[j] != t@ && !json::text_before(t@, before[j]),
        decreases list@.len() - i,
    {
        i = i + 1;
    }
    proof {
        lemma_listed_skips(before, t@, i as int);
    }
    if i < list.len() {
        assert(before.skip(i as int)[0] == before[i as int]);
        if text::same(list[i].as_str(), t) {
            assert(before =~= before.take(i as int) + before.skip(i as int));
        } else {
            list.insert(i, t.to_owned());
            assert(text::texts(list@) =~= before.take(i as int) + (seq![t@] + before.skip(
                i as int,
            )));
        }
    } else {
        assert(before.skip(i as int).len() == 0);
        list.push(t.to_owned());
        assert(text::texts(list@) =~= before.take(i as int) + seq![t@]);
    }
}

/// Appends an event to a list.
fn push_event(list: &mut Vec<EngineEvent>, event: EngineEvent)
    ensures
        events::event_views(final(list)@) == events::event_views(old(list)@).push(event@),
{
    let ghost before = events::event_views(list@);
    let ghost added = event@;
    list.push(event);
    assert(events::event_views(list@) =~= before.push(added));
}

/// The message for a process that could not be started.
pub fn spawn_failure_message(error: &str) -> (r: String)
    ensures
        r@ == "Failed to spawn gemini: "@ + error@,
{
    text::concat2("Failed to spawn gemini: ", error)
}

/// The events that open a turn.
pub fn opening_events(workspace_id: &str, turn_id: &str) -> (r: Vec<EngineEvent>)
    ensures
        events::event_views(r@) == seq![
            EventView::SessionStarted {
                workspace_id: workspace_id@,
                session_id: "pending"@,
                engine: EngineType::Gemini,
            },
            EventView::TurnStarted { workspace_id: workspace_id@, turn_id: turn_id@ },
        ],
{
    let mut out: Vec<EngineEvent> = Vec::new();
    out.push(
        EngineEvent::SessionStarted {
            workspace_id: workspace_id.to_owned(),
            session_id: "pending".to_owned(),
            engine: EngineType::Gemini,
        },
    );
    out.push(
        EngineEvent::TurnStarted {
            workspace_id: workspace_id.to_owned(),
            turn_id: turn_id.to_owned(),
        },
    );
    assert(events::event_views(out@) =~= seq![
        EventView::SessionStarted {
            workspace_id: workspace_id@,
            session_id: "pending"@,
            engine: EngineType::Gemini,
        },
        EventView::TurnStarted { workspace_id: workspace_id@, turn_id: turn_id@ },
    ]);
    out
}

impl GeminiTurn {
    /// A turn of which nothing has been seen.
    pub fn new(workspace_id: &str) -> (r: GeminiTurn)
        ensures
            r@ == fresh_turn(workspace_id@),
    {
        let observed: Vec<String> = Vec::new();
        assert(text::texts(observed@) =~= Seq::empty());
        GeminiTurn {
            workspace_id: workspace_id.to_owned(),
            response_text: String::new(),
            saw_turn_completed: false,
            saw_turn_error: false,
            saw_tool_activity: false,
            error_output: String::new(),
            new_session_id: None,
            observed_event_types: observed,
            last_reasoning_snapshot: String::new(),
            saw_reasoning_output: false,
        }
    }

    /// Notes the type of an event.
    fn note_type(&mut self, event: &Json)
        ensures
            final(self)@ == after_type(old(self)@, event@),
    {
        if let Some(kind) = event.get_str("type") {
            list_text(&mut self.observed_event_types, kind);
        }
    }

    /// Notes the session id of an event.
    fn note_session(&mut self, event: &Json, out: &mut Vec<EngineEvent>)
        ensures
            final(self)@ == after_session(old(self)@, event@),
            events::event_views(final(out)@) == events::event_views(old(out)@) + session_events(
                old(self)@,
                event@,
            ),
    {
        let ghost before = events::event_views(out@);
        if self.new_session_id.is_none() {
            if let Some(session_id) = gemini_event::extract_session_id(event) {
                self.new_session_id = Some(session_id.clone());
                push_event(
                    out,
                    EngineEvent::SessionStarted {
                        workspace_id: self.workspace_id.clone(),
                        session_id,
                        engine: EngineType::Gemini,
                    },
                );
                assert(events::event_views(out@) =~= before + session_events(old(self)@, event@));
                return;
            }
        }
        assert(events::event_views(out@) =~= before + session_events(old(self)@, event@));
    }

    /// Notes the thoughts of an event.
    fn note_thought(&mut self, event: &Json, is_reasoning: bool, out: &mut Vec<EngineEvent>)
        requires
            is_reasoning == (gemini_event::gemini_event(old(self)@.workspace_id, event@) matches Some(
                EventView::ReasoningDelta { .. },
            )),
        ensures
            final(self)@ == after_thought(old(self)@, event@),
            events::event_views(final(out)@) == events::event_views(old(out)@) + thought_events(
                old(self)@,
                event@,
            ),
    {
        let ghost before = events::event_views(out@);
        if !is_reasoning {
            if let Some(thought) = gemini_event::extract_latest_thought_text(event) {
                if !text::same(thought.as_str(), self.last_reasoning_snapshot.as_str()) {
                    self.last_reasoning_snapshot = thought.clone();
                    self.saw_reasoning_output = true;
                    push_event(
                        out,
                        EngineEvent::ReasoningDelta {
                            workspace_id: self.workspace_id.clone(),
                            text: thought,
                        },
                    );
                    assert(events::event_views(out@) =~= before + thought_events(
                        old(self)@,
                        event@,
                    ));
                    return;
                }
            }
        }
        assert(events::event_views(out@) =~= before + thought_events(old(self)@, event@));
    }

    /// Notes a unified event.
    fn note_unified(&mut self, event: &EngineEvent)
        ensures
            final(self)@ == after_unified(old(self)@, event@),
    {
        match event {
            EngineEvent::TextDelta { text, .. } => {
                self.response_text.append(text.as_str());
            },
            EngineEvent::ReasoningDelta { text, .. } => {
                self.saw_reasoning_output = true;
                self.last_reasoning_snapshot = text.clone();
            },
            EngineEvent::ToolStarted { .. } => {
                self.saw_tool_activity = true;
            },
            EngineEvent::ToolCompleted { .. } => {
                self.saw_tool_activity = true;
            },
            EngineEvent::TurnError { .. } => {
                self.saw_turn_error = true;
            },
            EngineEvent::TurnCompleted { result, .. } => {
                self.saw_turn_completed = true;
                if text::is_blank(self.response_text.as_str()) {
                    if let Some(value) = result {
                        if let Some(found) = gemini_event::extract_text_from_value(value, 0) {
                            self.response_text = found;
                        }
                    }
                }
            },
            _ => {},
        }
    }

    /// Takes in an event of the stream and tells what is to be reported.
    pub fn on_event(&mut self, event: &Json) -> (r: Vec<EngineEvent>)
        ensures
            final(self)@ == after_event(old(self)@, event@),
            events::event_views(r@) == events_of(old(self)@, event@),
    {
        let mut out: Vec<EngineEvent> = Vec::new();
        assert(events::event_views(out@) =~= Seq::empty());
        self.note_type(event);
        self.note_session(event, &mut out);
        let parsed = gemini_event::parse_gemini_event(self.workspace_id.as_str(), event);
        let is_reasoning = matches!(parsed, Some(EngineEvent::ReasoningDelta { .. }));
        self.note_thought(event, is_reasoning, &mut out);
        match parsed {
            Some(unified) => {
                self.note_unified(&unified);
                push_event(&mut out, unified);
            },
            None => {},
        }
        assert(events::event_views(out@) =~= events_of(old(self)@, event@));
        out
    }

    /// Takes in a line of the output and tells what is to be reported.
    pub fn on_line(&mut self, line: &str) -> (r: Vec<EngineEvent>)
        ensures
            final(self)@ == after_line(old(self)@, line@),
            events::event_views(r@) == line_events(old(self)@, line@),
    {
        let trimmed = text::trim(line);
        if !trimmed.is_empty() {
            match json::parse_json(trimmed) {
                Some(event) => return self.on_event(&event),
                None => {
                    self.error_output.append(trimmed);
                    self.error_output.push('\n');
                },
            }
        }
        let none: Vec<EngineEvent> = Vec::new();
        assert(events::event_views(none@) =~= Seq::empty());
        none
    }

    /// The session whose record is to be searched for reasoning, given the one
    /// that was known before the turn.
    pub fn recorded_session(&self, current: Option<&str>) -> (r: Option<String>)
        ensures
            text::opt_string(r) == recorded_session(self@, text::opt_text(current)),
    {
        if self.saw_reasoning_output {
            None
        } else if self.new_session_id.is_some() {
            text::copy_text(&self.new_session_id)
        } else {
            text::own_text(current)
        }
    }

    /// Takes in the record of the session and tells what is to be reported.
    pub fn on_history(&mut self, messages: &[GeminiSessionMessage]) -> (r: Vec<EngineEvent>)
        ensures
            ({
                let found = gemini_history::latest_reasoning(
                    gemini_history::message_views(messages@),
                );
                &&& final(self)@ == (TurnView {
                    last_reasoning: last_after(old(self)@.last_reasoning, found),
                    ..old(self)@
                })
                &&& events::event_views(r@) == reasoning_events(
                    old(self)@.workspace_id,
                    fresh_texts(old(self)@.last_reasoning, found),
                )
            }),
    {
        let texts = gemini_history::collect_latest_turn_reasoning_texts(messages);
        let ghost found = text::texts(texts@);
        let ghost start = self@;
        let mut out: Vec<EngineEvent> = Vec::new();
        assert(events::event_views(out@) =~= reasoning_events(
            start.workspace_id,
            fresh_texts(start.last_reasoning, found.take(0)),
        ));
        for i in 0..texts.len()
            invariant
                found == text::texts(texts@),
                self@ == (TurnView {
                    last_reasoning: last_after(start.last_reasoning, found.take(i as int)),
                    ..start
                }),
                events::event_views(out@) == reasoning_events(
                    start.workspace_id,
                    fresh_texts(start.last_reasoning, found.take(i as int)),
                ),
        {
            let ghost before = fresh_texts(start.last_reasoning, found.take(i as int));
            proof {
                assert(found.take(i + 1).drop_last() =~= found.take(i as int));
                assert(found.take(i + 1).last() == texts@[i as int]@);
            }
            if !text::same(texts[i].as_str(), self.last_reasoning_snapshot.as_str()) {
                self.last_reasoning_snapshot = texts[i].clone();
                push_event(
                    &mut out,
                    EngineEvent::ReasoningDelta {
                        workspace_id: self.workspace_id.clone(),
                        text: texts[i].clone(),
                    },
                );
                assert(events::event_views(out@) =~= reasoning_events(
                    start.workspace_id,
                    before.push(found[i as int]),
                ));
            }
        }
        assert(found.take(texts@.len() as int) =~= found);
        out
    }

    /// A turn that failed with the given message.
    fn fail(&self, error: String, clears_interrupt: bool) -> (r: TurnOutcome)
        ensures
            r@ == failed(self@, error@, clears_interrupt),
    {
        let mut out: Vec<EngineEvent> = Vec::new();
        out.push(
            EngineEvent::TurnError {
                workspace_id: self.workspace_id.clone(),
                error: error.clone(),
                code: None,
            },
        );
        assert(events::event_views(out@) =~= seq![error_view(self@, error@)]);
        TurnOutcome { events: out, result: Err(error), session_id: None, clears_interrupt }
    }

    /// A turn that succeeded.
    fn succeed(&self, clears_interrupt: bool) -> (r: TurnOutcome)
        ensures
            r@ == succeeded(self@, clears_interrupt),
    {
        broadcast use json::lemma_object_tree;

        let mut out: Vec<EngineEvent> = Vec::new();
        if !self.saw_turn_completed && !self.saw_turn_error {
            let mut entries: Vec<(String, Json)> = Vec::new();
            entries.push(("text".to_owned(), Json::Text(self.response_text.clone())));
            assert(json::entry_trees(entries@) =~= seq![
                ("text"@, JsonTree::Text(self.response_text@)),
            ]);
            out.push(
                EngineEvent::TurnCompleted {
                    workspace_id: self.workspace_id.clone(),
                    result: Some(Json::Object(entries)),
                },
            );
        }
        assert(events::event_views(out@) =~= succeeded(self@, clears_interrupt).events);
        TurnOutcome {
            events: out,
            result: Ok(self.response_text.clone()),
            session_id: text::copy_text(&self.new_session_id),
            clears_interrupt,
        }
    }

    /// What is said of a turn without an answer.
    fn diagnose(&self) -> (r: String)
        ensures
            r@ == diagnostic(self@),
    {
        let mut out = if self.saw_turn_completed {
            "Gemini completed but produced no assistant output.".to_owned()
        } else {
            "Gemini exited without a completion event or assistant output.".to_owned()
        };
        out.append(" Observed event types: ");
        if self.observed_event_types.is_empty() {
            out.append("none");
        } else {
            out.append(text::join(&self.observed_event_types, ", ").as_str());
        }
        out.append(".");
        out
    }

    /// How the turn ends, given how its process ended, what it wrote to its
    /// error stream and whether an interruption was noted.
    pub fn finish(&self, exit: Option<ExitReport>, stderr: &str, interrupted: bool) -> (r:
        TurnOutcome)
        ensures
            r@ == outcome(self@, opt_exit(exit), stderr@, interrupted),
    {
        let mut error_output = self.error_output.clone();
        if !text::is_blank(stderr) {
            error_output.append(stderr);
        }
        let errors = text::trim(error_output.as_str());
        let ended_well = match &exit {
            Some(report) => report.success,
            None => false,
        };
        if !ended_well {
            if interrupted {
                return self.fail("Session stopped.".to_owned(), true);
            }
            if let Some(report) = &exit {
                let message = if errors.is_empty() {
                    text::concat2("Gemini exited with status: ", report.status.as_str())
                } else {
                    errors.to_owned()
                };
                return self.fail(message, true);
            }
        }
        if text::is_blank(self.response_text.as_str()) {
            if !errors.is_empty() {
                return self.fail(errors.to_owned(), !ended_well);
            }
            if self.saw_turn_error {
                let none: Vec<EngineEvent> = Vec::new();
                assert(events::event_views(none@) =~= Seq::empty());
                return TurnOutcome {
                    events: none,
                    result: Err("Gemini returned an error event.".to_owned()),
                    session_id: None,
                    clears_interrupt: !ended_well,
                };
            }
            if !self.saw_tool_activity {
                return self.fail(self.diagnose(), !ended_well);
            }
        }
        self.succeed(!ended_well)
    }
}

} // verus!
