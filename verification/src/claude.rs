//! Life cycle of a turn: prompts that are too long, compaction and the use of the
//! context window.
use crate::events;
use crate::events::{EngineEvent, EngineType, EventView};
use crate::gemini_event;
use crate::gemini_session::{ParamsView, SendMessageParams};
use crate::json;
use crate::json::{Json, JsonTree};
use crate::text;
use vstd::prelude::*;
use vstd::string::*;

verus! {

/// What marks an error after which the prompt may be sent again.
pub const RETRYABLE_PROMPT_TOO_LONG_PREFIX: &'static str = "__retryable_prompt_too_long__:";

/// The source that compaction signals name.
pub const AUTO_COMPACT_SIGNAL_SOURCE: &'static str = "auto_compact_retry";

/// What the life cycle reads of a session.
#[derive(Debug)]
pub struct ClaudeSession {
    pub workspace_id: String,
    pub session_id: Option<String>,
}

/// An event of one turn.
#[derive(Debug, Clone)]
pub struct ClaudeTurnEvent {
    pub turn_id: String,
    pub event: EngineEvent,
}

/// What a session holds.
pub struct ClaudeView {
    pub workspace_id: Seq<char>,
    pub session_id: Option<Seq<char>>,
}

impl View for ClaudeSession {
    type V = ClaudeView;

    open spec fn view(&self) -> ClaudeView {
        ClaudeView {
            workspace_id: self.workspace_id@,
            session_id: text::opt_string(self.session_id),
        }
    }
}

/// What an event of a turn holds.
pub struct ClaudeEventView {
    pub turn_id: Seq<char>,
    pub event: EventView,
}

impl View for ClaudeTurnEvent {
    type V = ClaudeEventView;

    open spec fn view(&self) -> ClaudeEventView {
        ClaudeEventView { turn_id: self.turn_id@, event: self.event@ }
    }
}

/// What a list of events of turns holds.
pub open spec fn claude_event_views(list: Seq<ClaudeTurnEvent>) -> Seq<ClaudeEventView> {
    Seq::new(list.len(), |i: int| list[i]@)
}

// ---------------------------------------------------------------------------
// Models: errors
// ---------------------------------------------------------------------------

/// The marker in front of errors after which the prompt may be sent again.
pub open spec fn marker() -> Seq<char> {
    RETRYABLE_PROMPT_TOO_LONG_PREFIX@
}

/// The error says that the prompt does not fit.
pub open spec fn prompt_too_long(error: Seq<char>) -> bool {
    let n = text::lowered(error);
    ||| text::has_text(n, "prompt is too long"@)
    ||| text::has_text(n, "prompt too long"@)
    ||| text::has_text(n, "maximum context length"@)
    ||| text::has_text(n, "max context length"@)
    ||| text::has_text(n, "context length exceeded"@)
    ||| text::has_text(n, "token limit exceeded"@)
}

/// The error with the marker in front, once.
pub open spec fn marked(error: Seq<char>) -> Seq<char> {
    if text::has_prefix(error, marker()) {
        error
    } else {
        marker() + error
    }
}

/// The error without the marker, if it has it.
pub open spec fn unmarked(error: Seq<char>) -> Option<Seq<char>> {
    text::after_prefix(error, marker())
}

/// The error without the marker.
pub open spec fn cleared(error: Seq<char>) -> Seq<char> {
    match unmarked(error) {
        Some(rest) => rest,
        None => error,
    }
}

// ---------------------------------------------------------------------------
// Models: compaction
// ---------------------------------------------------------------------------

/// A hyphen or a space as an underscore.
pub open spec fn underscored_char(c: char) -> char {
    if c == '-' || c == ' ' {
        '_'
    } else {
        c
    }
}

/// The text with hyphens and spaces as underscores.
pub open spec fn underscored(s: Seq<char>) -> Seq<char> {
    Seq::new(s.len(), |i: int| underscored_char(s[i]))
}

/// The compaction signal that a text stands for.
pub open spec fn compaction_signal(value: Seq<char>) -> Option<Seq<char>> {
    let n = underscored(text::lowered(text::trimmed(value)));
    if text::has_text(n, "compaction_failed"@) || text::has_text(n, "compact_failed"@)
        || text::has_text(n, "compactfailure"@) {
        Some("compaction_failed"@)
    } else if text::has_text(n, "compact_boundary"@) || text::has_text(n, "compacted"@) {
        Some("compact_boundary"@)
    } else if text::has_text(n, "compacting"@) {
        Some("compacting"@)
    } else {
        None
    }
}

/// The fields of an event that may carry a compaction signal.
pub open spec fn signal_keys() -> Seq<Seq<char>> {
    seq![
        "subtype"@,
        "subType"@,
        "event"@,
        "event_type"@,
        "eventType"@,
        "name"@,
        "kind"@,
        "status"@,
        "phase"@,
        "state"@,
        "type"@,
    ]
}

/// The field of an event carries a compaction signal.
pub open spec fn field_signals(e: JsonTree, key: Seq<char>) -> bool {
    match e.field_text(key) {
        Some(raw) => compaction_signal(raw) is Some,
        None => false,
    }
}

/// Some field of an event carries a compaction signal.
pub open spec fn signals_compaction(e: JsonTree) -> bool {
    exists|i: int| 0 <= i < signal_keys().len() && #[trigger] field_signals(e, signal_keys()[i])
}

/// The entries with further ones set one by one.
pub open spec fn entries_with(
    entries: Seq<(Seq<char>, JsonTree)>,
    extra: Seq<(Seq<char>, JsonTree)>,
) -> Seq<(Seq<char>, JsonTree)>
    decreases extra.len(),
{
    if extra.len() == 0 {
        entries
    } else {
        json::entries_set(
            entries_with(entries, extra.drop_last()),
            extra.last().0,
            extra.last().1,
        )
    }
}

/// The payload of a compaction signal.
pub open spec fn signal_payload(
    subtype: Seq<char>,
    extra: Seq<(Seq<char>, JsonTree)>,
) -> JsonTree {
    JsonTree::Object(
        entries_with(
            json::entries_set(
                json::entries_set(
                    json::entries_set(Seq::empty(), "type"@, JsonTree::Text("system"@)),
                    "subtype"@,
                    JsonTree::Text(subtype),
                ),
                "source"@,
                JsonTree::Text(AUTO_COMPACT_SIGNAL_SOURCE@),
            ),
            extra,
        ),
    )
}

/// The event that carries a compaction signal.
pub open spec fn signal_event(
    workspace_id: Seq<char>,
    turn_id: Seq<char>,
    subtype: Seq<char>,
    extra: Seq<(Seq<char>, JsonTree)>,
) -> ClaudeEventView {
    ClaudeEventView {
        turn_id,
        event: EventView::Raw {
            workspace_id,
            engine: EngineType::Claude,
            data: signal_payload(subtype, extra),
        },
    }
}

// ---------------------------------------------------------------------------
// Models: retry
// ---------------------------------------------------------------------------

/// Which message of a turn with a retry was sent last.
#[derive(Debug, Clone, Copy, PartialEq, Eq, Structural)]
pub enum RetryPhase {
    First,
    Compacting,
    Retrying,
}

/// What is to be done next in a turn with a retry.
#[derive(Debug)]
pub enum RetryStep {
    Send { phase: RetryPhase, params: SendMessageParams, turn_id: String },
    Finish { result: Result<String, String> },
}

/// What is to be reported and then to be done in a turn with a retry.
#[derive(Debug)]
pub struct RetryMove {
    pub events: Vec<ClaudeTurnEvent>,
    pub step: RetryStep,
}

/// The model of a step.
pub enum RetryStepView {
    Send { phase: RetryPhase, params: ParamsView, turn_id: Seq<char> },
    Finish { result: Result<Seq<char>, Seq<char>> },
}

/// The model of a result.
pub open spec fn result_view(result: Result<String, String>) -> Result<Seq<char>, Seq<char>> {
    match result {
        Ok(s) => Ok(s@),
        Err(s) => Err(s@),
    }
}

impl View for RetryStep {
    type V = RetryStepView;

    open spec fn view(&self) -> RetryStepView {
        match *self {
            RetryStep::Send { phase, params, turn_id } => RetryStepView::Send {
                phase,
                params: params@,
                turn_id: turn_id@,
            },
            RetryStep::Finish { result } => RetryStepView::Finish { result: result_view(result) },
        }
    }
}

/// The model of what is to be reported and done.
pub struct RetryMoveView {
    pub events: Seq<ClaudeEventView>,
    pub step: RetryStepView,
}

impl View for RetryMove {
    type V = RetryMoveView;

    open spec fn view(&self) -> RetryMoveView {
        RetryMoveView { events: claude_event_views(self.events@), step: self.step@ }
    }
}

/// The message in the session that it continues.
pub open spec fn continued(params: ParamsView, session: Option<Seq<char>>) -> ParamsView {
    ParamsView {
        continue_session: true,
        session_id: gemini_event::or_else(params.session_id, session),
        ..params
    }
}

/// The message that asks for compaction.
pub open spec fn compaction_request(params: ParamsView, session: Option<Seq<char>>) -> ParamsView {
    continued(ParamsView { text: "/compact"@, images: None, ..params }, session)
}

/// The event that reports an error of a turn.
pub open spec fn claude_error(
    workspace_id: Seq<char>,
    turn_id: Seq<char>,
    error: Seq<char>,
) -> ClaudeEventView {
    ClaudeEventView {
        turn_id,
        event: EventView::TurnError { workspace_id, error, code: None },
    }
}

/// The last move of a turn with a retry.
pub open spec fn finished(
    events: Seq<ClaudeEventView>,
    result: Result<Seq<char>, Seq<char>>,
) -> RetryMoveView {
    RetryMoveView { events, step: RetryStepView::Finish { result } }
}

/// The move after a message was sent and answered: a prompt that is too long
/// is compacted and sent again, once.
pub open spec fn retry_move(
    session: ClaudeView,
    params: ParamsView,
    turn_id: Seq<char>,
    phase: RetryPhase,
    answer: Result<Seq<char>, Seq<char>>,
) -> RetryMoveView {
    match (phase, answer) {
        (RetryPhase::First, Ok(_)) => finished(Seq::empty(), answer),
        (RetryPhase::First, Err(error)) => if unmarked(error) is None {
            finished(Seq::empty(), answer)
        } else {
            RetryMoveView {
                events: seq![
                    signal_event(session.workspace_id, turn_id, "compacting"@, Seq::empty()),
                ],
                step: RetryStepView::Send {
                    phase: RetryPhase::Compacting,
                    params: compaction_request(params, session.session_id),
                    turn_id: turn_id + "::auto-compact"@,
                },
            }
        },
        (RetryPhase::Compacting, Ok(_)) => RetryMoveView {
            events: Seq::empty(),
            step: RetryStepView::Send {
                phase: RetryPhase::Retrying,
                params: continued(params, session.session_id),
                turn_id,
            },
        },
        (RetryPhase::Compacting, Err(error)) => {
            let message = "Prompt is too long and automatic /compact failed: "@ + cleared(error);
            finished(
                seq![
                    signal_event(
                        session.workspace_id,
                        turn_id,
                        "compaction_failed"@,
                        seq![("reason"@, JsonTree::Text(message))],
                    ),
                    claude_error(session.workspace_id, turn_id, message),
                ],
                Err(message),
            )
        },
        (RetryPhase::Retrying, Ok(_)) => finished(Seq::empty(), answer),
        (RetryPhase::Retrying, Err(error)) => {
            let message =
                "Prompt is too long. Retried once after /compact but still failed: "@ + cleared(
                error,
            );
            finished(seq![claude_error(session.workspace_id, turn_id, message)], Err(message))
        },
    }
}

// ---------------------------------------------------------------------------
// Models: usage
// ---------------------------------------------------------------------------

/// The integer that a value holds.
pub open spec fn integer_of(value: Option<JsonTree>) -> Option<i64> {
    match value {
        Some(v) => v.integer(),
        None => None,
    }
}

/// The value under the first of two keys that is there.
pub open spec fn one_of_two(t: JsonTree, a: Seq<char>, b: Seq<char>) -> Option<JsonTree> {
    gemini_event::or_else(t.field(a), t.field(b))
}

/// The value under the first of three keys that is there.
pub open spec fn one_of_three(t: JsonTree, a: Seq<char>, b: Seq<char>, c: Seq<char>) -> Option<
    JsonTree,
> {
    gemini_event::or_else(t.field(a), one_of_two(t, b, c))
}

/// The usage that the context window of an event reports.
pub open spec fn window_usage(e: JsonTree) -> Option<JsonTree> {
    match e.field("context_window"@) {
        Some(window) => one_of_two(window, "current_usage"@, "currentUsage"@),
        None => None,
    }
}

/// The size of the context window that an event reports.
pub open spec fn window_size(e: JsonTree) -> Option<i64> {
    match e.field("context_window"@) {
        Some(window) => integer_of(
            one_of_two(window, "context_window_size"@, "contextWindowSize"@),
        ),
        None => None,
    }
}

/// The usage that the message of an event reports.
pub open spec fn message_usage(e: JsonTree) -> Option<JsonTree> {
    match e.field("message"@) {
        Some(message) => message.field("usage"@),
        None => None,
    }
}

/// The usage that an event reports: that of its context window, of its message
/// or its own.
pub open spec fn usage_of(e: JsonTree) -> Option<JsonTree> {
    gemini_event::or_else(
        window_usage(e),
        gemini_event::or_else(message_usage(e), e.field("usage"@)),
    )
}

/// The size of the context window that comes with the usage.
pub open spec fn usage_window(e: JsonTree) -> Option<i64> {
    if window_usage(e) is Some {
        window_size(e)
    } else {
        None
    }
}

/// The integer, or zero.
pub open spec fn or_zero(n: Option<i64>) -> i64 {
    match n {
        Some(i) => i,
        None => 0,
    }
}

/// The tokens that were written to the cache.
pub open spec fn cache_creation(usage: JsonTree) -> i64 {
    or_zero(
        integer_of(
            one_of_three(
                usage,
                "cache_creation_input_tokens"@,
                "cacheCreationInputTokens"@,
                "cache_creation_tokens"@,
            ),
        ),
    )
}

/// The tokens that were read from the cache.
pub open spec fn cache_read(usage: JsonTree) -> i64 {
    or_zero(
        integer_of(
            one_of_three(
                usage,
                "cache_read_input_tokens"@,
                "cacheReadInputTokens"@,
                "cache_read_tokens"@,
            ),
        ),
    )
}

/// The tokens of the cache together fit into an integer.
pub open spec fn cached_fits(e: JsonTree) -> bool {
    match usage_of(e) {
        Some(usage) => cache_creation(usage) + cache_read(usage) <= i64::MAX,
        None => true,
    }
}

/// The tokens of the cache together, where there are any.
pub open spec fn cached_tokens(usage: JsonTree) -> Option<i64> {
    if cache_creation(usage) > 0 || cache_read(usage) > 0 {
        Some((cache_creation(usage) + cache_read(usage)) as i64)
    } else {
        None
    }
}

/// The event that reports the usage of an event, where it counts its input.
pub open spec fn usage_event(workspace_id: Seq<char>, e: JsonTree) -> Option<EventView> {
    match usage_of(e) {
        Some(usage) => {
            let input_tokens = integer_of(one_of_two(usage, "input_tokens"@, "inputTokens"@));
            if input_tokens is Some {
                Some(
                    EventView::UsageUpdate {
                        workspace_id,
                        input_tokens,
                        output_tokens: integer_of(
                            one_of_two(usage, "output_tokens"@, "outputTokens"@),
                        ),
                        cached_tokens: cached_tokens(usage),
                        model_context_window: usage_window(e),
                    },
                )
            } else {
                None
            }
        },
        None => None,
    }
}

// ---------------------------------------------------------------------------
// Functions
// ---------------------------------------------------------------------------

/// The text with hyphens and spaces as underscores.
fn underscore(s: &str) -> (r: String)
    ensures
        r@ == underscored(s@),
{
    let mut out = String::new();
    for c in it: s.chars()
        invariant
            it.seq() == s@,
            out@ == underscored(s@).take(it.index()),
    {
        out.push(
            if c == '-' || c == ' ' {
                '_'
            } else {
                c
            },
        );
        assert(underscored(s@).take(it.index() + 1) =~= underscored(s@).take(it.index()).push(
            underscored_char(c),
        ));
    }
    assert(underscored(s@).take(s@.len() as int) =~= underscored(s@));
    out
}

/// The integer that a value holds.
fn integer(value: Option<&Json>) -> (r: Option<i64>)
    ensures
        r == integer_of(json::opt_tree_ref(value)),
{
    match value {
        Some(v) => v.as_i64(),
        None => None,
    }
}

/// The value under the first of two keys that is there.
fn get_one_of_two<'a>(value: &'a Json, a: &str, b: &str) -> (r: Option<&'a Json>)
    ensures
        json::opt_tree_ref(r) == one_of_two(value@, a@, b@),
{
    let found = value.get(a);
    if found.is_some() {
        found
    } else {
        value.get(b)
    }
}

/// The value under the first of three keys that is there.
fn get_one_of_three<'a>(value: &'a Json, a: &str, b: &str, c: &str) -> (r: Option<&'a Json>)
    ensures
        json::opt_tree_ref(r) == one_of_three(value@, a@, b@, c@),
{
    let found = value.get(a);
    if found.is_some() {
        found
    } else {
        get_one_of_two(value, b, c)
    }
}

/// The tokens that were written to the cache and read from it.
fn cache_counts(usage: &Json) -> (r: (i64, i64))
    ensures
        r.0 == cache_creation(usage@),
        r.1 == cache_read(usage@),
{
    let creation = integer(
        get_one_of_three(
            usage,
            "cache_creation_input_tokens",
            "cacheCreationInputTokens",
            "cache_creation_tokens",
        ),
    );
    let read = integer(
        get_one_of_three(
            usage,
            "cache_read_input_tokens",
            "cacheReadInputTokens",
            "cache_read_tokens",
        ),
    );
    (
        match creation {
            Some(i) => i,
            None => 0,
        },
        match read {
            Some(i) => i,
            None => 0,
        },
    )
}

/// The message in the session that it continues.
fn continue_in(params: SendMessageParams, session: &Option<String>) -> (r: SendMessageParams)
    ensures
        r@ == continued(params@, text::opt_string(*session)),
{
    let mut out = params;
    out.continue_session = true;
    if out.session_id.is_none() {
        out.session_id = text::copy_text(session);
    }
    out
}

/// The last move of a turn with a retry, with nothing to report.
fn finish_quietly(result: Result<String, String>) -> (r: RetryMove)
    ensures
        r@ == finished(Seq::empty(), result_view(result)),
{
    let none: Vec<ClaudeTurnEvent> = Vec::new();
    assert(claude_event_views(none@) =~= Seq::empty());
    RetryMove { events: none, step: RetryStep::Finish { result } }
}

impl ClaudeSession {
    /// Whether the error says that the prompt does not fit.
    pub fn is_prompt_too_long_error(error: &str) -> (r: bool)
        ensures
            r == prompt_too_long(error@),
    {
        let lowered = text::lower(error);
        let n = lowered.as_str();
        text::contains(n, "prompt is too long") || text::contains(n, "prompt too long")
            || text::contains(n, "maximum context length") || text::contains(
            n,
            "max context length",
        ) || text::contains(n, "context length exceeded") || text::contains(
            n,
            "token limit exceeded",
        )
    }

    /// The error with the marker in front, once.
    pub fn mark_retryable_prompt_too_long_error(error: &str) -> (r: String)
        ensures
            r@ == marked(error@),
    {
        if text::starts_with(error, RETRYABLE_PROMPT_TOO_LONG_PREFIX) {
            error.to_owned()
        } else {
            text::concat2(RETRYABLE_PROMPT_TOO_LONG_PREFIX, error)
        }
    }

    /// The error without the marker, if it has it.
    pub fn extract_retryable_prompt_too_long_error(error: &str) -> (r: Option<String>)
        ensures
            text::opt_string(r) == unmarked(error@),
    {
        text::own_text(text::strip_prefix(error, RETRYABLE_PROMPT_TOO_LONG_PREFIX))
    }

    /// The error without the marker.
    pub fn clear_retryable_prompt_too_long_marker(error: String) -> (r: String)
        ensures
            r@ == cleared(error@),
    {
        match Self::extract_retryable_prompt_too_long_error(error.as_str()) {
            Some(rest) => rest,
            None => error,
        }
    }

    /// The compaction signal that a text stands for.
    pub fn normalize_compaction_signal_from_text(value: &str) -> (r: Option<&'static str>)
        ensures
            text::opt_text(r) == compaction_signal(value@),
    {
        let lowered = text::lower(text::trim(value));
        let normalized = underscore(lowered.as_str());
        let n = normalized.as_str();
        if text::contains(n, "compaction_failed") || text::contains(n, "compact_failed")
            || text::contains(n, "compactfailure") {
            Some("compaction_failed")
        } else if text::contains(n, "compact_boundary") || text::contains(n, "compacted") {
            Some("compact_boundary")
        } else if text::contains(n, "compacting") {
            Some("compacting")
        } else {
            None
        }
    }

    /// Whether some field of an event carries a compaction signal.
    pub fn has_compaction_system_signal(event: &Json) -> (r: bool)
        ensures
            r == signals_compaction(event@),
    {
        let keys: [&str; 11] = [
            "subtype",
            "subType",
            "event",
            "event_type",
            "eventType",
            "name",
            "kind",
            "status",
            "phase",
            "state",
            "type",
        ];
        let ghost all = signal_keys();
        for i in 0..11
            invariant
                all == signal_keys(),
                all.len() == 11,
                forall|j: int| 0 <= j < 11 ==> (#[trigger] keys@[j])@ == all[j],
                forall|j: int| 0 <= j < i ==> !#[trigger] field_signals(event@, all[j]),
        {
            assert(keys@[i as int]@ == all[i as int]);
            if let Some(raw) = event.get_str(keys[i]) {
                if Self::normalize_compaction_signal_from_text(raw).is_some() {
                    assert(field_signals(event@, all[i as int]));
                    return true;
                }
            }
        }
        false
    }

    /// The event that carries a compaction signal.
    pub fn emit_compaction_signal(
        &self,
        turn_id: &str,
        subtype: &str,
        extra_fields: Vec<(String, Json)>,
    ) -> (r: ClaudeTurnEvent)
        ensures
            r@ == signal_event(
                self@.workspace_id,
                turn_id@,
                subtype@,
                json::entry_trees(extra_fields@),
            ),
    {
        broadcast use json::lemma_object_tree;

        let mut payload: Vec<(String, Json)> = Vec::new();
        assert(json::entry_trees(payload@) =~= Seq::empty());
        json::set_entry(&mut payload, "type", Json::Text("system".to_owned()));
        json::set_entry(&mut payload, "subtype", Json::Text(subtype.to_owned()));
        json::set_entry(
            &mut payload,
            "source",
            Json::Text(AUTO_COMPACT_SIGNAL_SOURCE.to_owned()),
        );
        let ghost base = json::entry_trees(payload@);
        let ghost all = json::entry_trees(extra_fields@);
        assert(all.take(0).len() == 0);
        for i in 0..extra_fields.len()
            invariant
                all == json::entry_trees(extra_fields@),
                json::entry_trees(payload@) == entries_with(base, all.take(i as int)),
        {
            proof {
                assert(all.take(i + 1).drop_last() =~= all.take(i as int));
                assert(all.take(i + 1).last() == all[i as int]);
            }
            json::set_entry(&mut payload, extra_fields[i].0.as_str(), extra_fields[i].1.clone());
        }
        assert(all.take(extra_fields@.len() as int) =~= all);
        ClaudeTurnEvent {
            turn_id: turn_id.to_owned(),
            event: EngineEvent::Raw {
                workspace_id: self.workspace_id.clone(),
                engine: EngineType::Claude,
                data: Json::Object(payload),
            },
        }
    }

    /// The event that reports an error of a turn.
    pub fn emit_error(&self, turn_id: &str, error: String) -> (r: ClaudeTurnEvent)
        ensures
            r@ == claude_error(self@.workspace_id, turn_id@, error@),
    {
        ClaudeTurnEvent {
            turn_id: turn_id.to_owned(),
            event: EngineEvent::TurnError {
                workspace_id: self.workspace_id.clone(),
                error,
                code: None,
            },
        }
    }

    /// What is to be reported and done after a message of a turn was sent and
    /// answered.
    pub fn auto_compact_retry(
        &self,
        params: &SendMessageParams,
        turn_id: &str,
        phase: RetryPhase,
        answer: Result<String, String>,
    ) -> (r: RetryMove)
        ensures
            r@ == retry_move(self@, params@, turn_id@, phase, result_view(answer)),
    {
        match phase {
            RetryPhase::First => match answer {
                Ok(response) => finish_quietly(Ok(response)),
                Err(error) => {
                    if Self::extract_retryable_prompt_too_long_error(error.as_str()).is_none() {
                        return finish_quietly(Err(error));
                    }
                    let no_fields: Vec<(String, Json)> = Vec::new();
                    assert(json::entry_trees(no_fields@) =~= Seq::empty());
                    let mut list: Vec<ClaudeTurnEvent> = Vec::new();
                    list.push(self.emit_compaction_signal(turn_id, "compacting", no_fields));
                    assert(claude_event_views(list@) =~= seq![
                        signal_event(
                            self@.workspace_id,
                            turn_id@,
                            "compacting"@,
                            Seq::empty(),
                        ),
                    ]);
                    let mut compact = params.clone();
                    compact.text = "/compact".to_owned();
                    compact.images = None;
                    RetryMove {
                        events: list,
                        step: RetryStep::Send {
                            phase: RetryPhase::Compacting,
                            params: continue_in(compact, &self.session_id),
                            turn_id: text::concat2(turn_id, "::auto-compact"),
                        },
                    }
                },
            },
            RetryPhase::Compacting => match answer {
                Ok(_) => {
                    let none: Vec<ClaudeTurnEvent> = Vec::new();
                    assert(claude_event_views(none@) =~= Seq::empty());
                    RetryMove {
                        events: none,
                        step: RetryStep::Send {
                            phase: RetryPhase::Retrying,
                            params: continue_in(params.clone(), &self.session_id),
                            turn_id: turn_id.to_owned(),
                        },
                    }
                },
                Err(error) => {
                    let cause = Self::clear_retryable_prompt_too_long_marker(error);
                    let message = text::concat2(
                        "Prompt is too long and automatic /compact failed: ",
                        cause.as_str(),
                    );
                    let mut fields: Vec<(String, Json)> = Vec::new();
                    fields.push(("reason".to_owned(), Json::Text(message.clone())));
                    assert(json::entry_trees(fields@) =~= seq![
                        ("reason"@, JsonTree::Text(message@)),
                    ]);
                    let mut list: Vec<ClaudeTurnEvent> = Vec::new();
                    list.push(self.emit_compaction_signal(turn_id, "compaction_failed", fields));
                    list.push(self.emit_error(turn_id, message.clone()));
                    assert(claude_event_views(list@) =~= seq![
                        signal_event(
                            self@.workspace_id,
                            turn_id@,
                            "compaction_failed"@,
                            seq![("reason"@, JsonTree::Text(message@))],
                        ),
                        claude_error(self@.workspace_id, turn_id@, message@),
                    ]);
                    RetryMove { events: list, step: RetryStep::Finish { result: Err(message) } }
                },
            },
            RetryPhase::Retrying => match answer {
                Ok(response) => finish_quietly(Ok(response)),
                Err(error) => {
                    let cause = Self::clear_retryable_prompt_too_long_marker(error);
                    let message = text::concat2(
                        "Prompt is too long. Retried once after /compact but still failed: ",
                        cause.as_str(),
                    );
                    let mut list: Vec<ClaudeTurnEvent> = Vec::new();
                    list.push(self.emit_error(turn_id, message.clone()));
                    assert(claude_event_views(list@) =~= seq![
                        claude_error(self@.workspace_id, turn_id@, message@),
                    ]);
                    RetryMove { events: list, step: RetryStep::Finish { result: Err(message) } }
                },
            },
        }
    }

    /// The usage that an event reports, and the size of the context window
    /// that comes with it.
    pub fn find_usage_data<'a>(&self, event: &'a Json) -> (r: (Option<&'a Json>, Option<i64>))
        ensures
            json::opt_tree_ref(r.0) == usage_of(event@),
            r.1 == usage_window(event@),
    {
        if let Some(window) = event.get("context_window") {
            let usage = get_one_of_two(window, "current_usage", "currentUsage");
            if usage.is_some() {
                let size = integer(
                    get_one_of_two(window, "context_window_size", "contextWindowSize"),
                );
                return (usage, size);
            }
        }
        if let Some(message) = event.get("message") {
            let usage = message.get("usage");
            if usage.is_some() {
                return (usage, None);
            }
        }
        (event.get("usage"), None)
    }

    /// Whether the tokens of the cache that an event reports can be added up.
    pub fn cached_tokens_fit(&self, event: &Json) -> (r: bool)
        ensures
            r == cached_fits(event@),
    {
        match self.find_usage_data(event).0 {
            Some(usage) => {
                let (creation, read) = cache_counts(usage);
                read <= 0 || creation <= i64::MAX - read
            },
            None => true,
        }
    }

    /// The event of the turn that reports the usage of an event, where it
    /// counts its input.
    pub fn try_extract_context_window_usage(&self, turn_id: &str, event: &Json) -> (r: Option<
        ClaudeTurnEvent,
    >)
        requires
            cached_fits(event@),
        ensures
            match r {
                Some(e) => e@.turn_id == turn_id@ && usage_event(self@.workspace_id, event@)
                    == Some(e@.event),
                None => usage_event(self@.workspace_id, event@) is None,
            },
    {
        let (found, model_context_window) = self.find_usage_data(event);
        let usage = match found {
            Some(usage) => usage,
            None => return None,
        };
        let input_tokens = integer(get_one_of_two(usage, "input_tokens", "inputTokens"));
        let output_tokens = integer(get_one_of_two(usage, "output_tokens", "outputTokens"));
        let (creation, read) = cache_counts(usage);
        let cached_tokens = if creation > 0 || read > 0 {
            Some(creation + read)
        } else {
            None
        };
        if input_tokens.is_none() {
            return None;
        }
        Some(
            ClaudeTurnEvent {
                turn_id: turn_id.to_owned(),
                event: EngineEvent::UsageUpdate {
                    workspace_id: self.workspace_id.clone(),
                    input_tokens,
                    output_tokens,
                    cached_tokens,
                    model_context_window,
                },
            },
        )
    }

    /// The event of the turn that reports the usage of an event, or nothing at
    /// all where the tokens of the cache cannot be added up.
    pub fn checked_context_window_usage(&self, turn_id: &str, event: &Json) -> (r: Option<
        Option<ClaudeTurnEvent>,
    >)
        ensures
            match r {
                Some(Some(e)) => cached_fits(event@) && e@.turn_id == turn_id@ && usage_event(
                    self@.workspace_id,
                    event@,
                ) == Some(e@.event),
                Some(None) => cached_fits(event@) && usage_event(self@.workspace_id, event@) is None,
                None => !cached_fits(event@),
            },
    {
        if self.cached_tokens_fit(event) {
            Some(self.try_extract_context_window_usage(turn_id, event))
        } else {
            None
        }
    }
}

} // verus!
