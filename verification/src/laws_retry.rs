//! Each move of a turn with a retry, each compaction signal and each count of
//! tokens, written out.
use crate::claude;
use crate::claude::{ClaudeEventView, ClaudeView, RetryPhase, RetryStepView};
use crate::events::{EngineType, EventView};
use crate::gemini_session::ParamsView;
use crate::json;
use crate::json::JsonTree;
use crate::laws_claude;
use crate::laws_json;
use crate::laws_text;
use crate::text;
use vstd::prelude::*;
use vstd::string::*;

verus! {

// ---------------------------------------------------------------------------
// Errors
// ---------------------------------------------------------------------------

/// An error says that the prompt does not fit exactly when it holds one of six
/// phrases, whatever the case of its letters.
pub proof fn law_prompt_too_long(error: Seq<char>)
    ensures
        claude::prompt_too_long(error) <==> ({
            let n = text::lowered(error);
            ||| text::has_text(n, "prompt is too long"@)
            ||| text::has_text(n, "prompt too long"@)
            ||| text::has_text(n, "maximum context length"@)
            ||| text::has_text(n, "max context length"@)
            ||| text::has_text(n, "context length exceeded"@)
            ||| text::has_text(n, "token limit exceeded"@)
        }),
{
}

/// An error is marked by what stands in front of it; marking an error that is
/// marked changes nothing, and the marker comes off once.
pub proof fn law_marker_is_written_out(error: Seq<char>, rest: Seq<char>)
    ensures
        claude::unmarked(error) == Some(rest) <==> error == "__retryable_prompt_too_long__:"@
            + rest,
        !text::has_prefix(error, "__retryable_prompt_too_long__:"@) ==> claude::marked(error)
            == "__retryable_prompt_too_long__:"@ + error,
        text::has_prefix(error, "__retryable_prompt_too_long__:"@) ==> claude::marked(error)
            == error,
        claude::cleared("__retryable_prompt_too_long__:"@ + rest) == rest,
        !text::has_prefix(error, "__retryable_prompt_too_long__:"@) ==> claude::cleared(error)
            == error,
{
    laws_text::law_prefix_is_found(error, "__retryable_prompt_too_long__:"@, rest);
    laws_claude::lemma_after_prefix("__retryable_prompt_too_long__:"@, rest);
}

/// `bare` is the error without the marker, if it has one.
pub open spec fn bare_error(error: Seq<char>, bare: Seq<char>) -> bool {
    ||| error == "__retryable_prompt_too_long__:"@ + bare
    ||| error == bare && !text::has_prefix(error, "__retryable_prompt_too_long__:"@)
}

// ---------------------------------------------------------------------------
// Moves
// ---------------------------------------------------------------------------

/// A first message or a retry that is answered ends the turn with that very
/// answer, and nothing is reported.
pub proof fn law_answer_ends_the_turn(
    session: ClaudeView,
    params: ParamsView,
    turn_id: Seq<char>,
    phase: RetryPhase,
    response: Seq<char>,
)
    requires
        phase == RetryPhase::First || phase == RetryPhase::Retrying,
    ensures
        ({
            let m = claude::retry_move(session, params, turn_id, phase, Ok(response));
            &&& m.events.len() == 0
            &&& m.step matches RetryStepView::Finish { result } && result == Ok::<
                Seq<char>,
                Seq<char>,
            >(response)
        }),
{
}

/// A turn that ends with an answer ends with one that was given to it.
pub proof fn law_no_answer_is_made_up(
    session: ClaudeView,
    params: ParamsView,
    turn_id: Seq<char>,
    phase: RetryPhase,
    answer: Result<Seq<char>, Seq<char>>,
)
    ensures
        claude::retry_move(session, params, turn_id, phase, answer).step matches
            RetryStepView::Finish { result: Ok(response) } ==> answer == Ok::<
            Seq<char>,
            Seq<char>,
        >(response),
{
}

/// A first message that fails without the marker ends the turn with that error,
/// and nothing is reported.
pub proof fn law_plain_failure_ends_the_turn(
    session: ClaudeView,
    params: ParamsView,
    turn_id: Seq<char>,
    error: Seq<char>,
)
    requires
        !text::has_prefix(error, "__retryable_prompt_too_long__:"@),
    ensures
        ({
            let m = claude::retry_move(session, params, turn_id, RetryPhase::First, Err(error));
            &&& m.events.len() == 0
            &&& m.step matches RetryStepView::Finish { result } && result == Err::<
                Seq<char>,
                Seq<char>,
            >(error)
        }),
{
}

/// The session that a further message goes to: the one it names, else that of the
/// session.
pub open spec fn goes_to(params: ParamsView, session: ClaudeView) -> Option<Seq<char>> {
    if params.session_id is Some {
        params.session_id
    } else {
        session.session_id
    }
}

/// A first message that fails with the marker has the session compacted: that is
/// reported, and a message with the text `/compact`, without images and
/// otherwise like the first goes out under the id of the turn with
/// `::auto-compact` behind it.
pub proof fn law_marked_failure_asks_for_compaction(
    session: ClaudeView,
    params: ParamsView,
    turn_id: Seq<char>,
    rest: Seq<char>,
    key: Seq<char>,
)
    ensures
        ({
            let m = claude::retry_move(
                session,
                params,
                turn_id,
                RetryPhase::First,
                Err("__retryable_prompt_too_long__:"@ + rest),
            );
            &&& m.events.len() == 1
            &&& m.events[0].turn_id == turn_id
            &&& m.events[0].event matches EventView::Raw { workspace_id, engine, data } && {
                &&& workspace_id == session.workspace_id
                &&& engine == EngineType::Claude
                &&& data is Object
                &&& key == "type"@ ==> data.field(key) == Some(JsonTree::Text("system"@))
                &&& key == "subtype"@ ==> data.field(key) == Some(JsonTree::Text("compacting"@))
                &&& key == "source"@ ==> data.field(key) == Some(
                    JsonTree::Text("auto_compact_retry"@),
                )
                &&& key != "type"@ && key != "subtype"@ && key != "source"@ ==> data.field(key)
                    is None
            }
            &&& m.step matches RetryStepView::Send { phase, params: sent, turn_id: id } && {
                &&& phase == RetryPhase::Compacting
                &&& id == turn_id + "::auto-compact"@
                &&& sent.text == "/compact"@
                &&& sent.images is None
                &&& sent.continue_session
                &&& sent.session_id == goes_to(params, session)
                &&& sent.model == params.model
                &&& sent.access_mode == params.access_mode
                &&& sent.custom_spec_root == params.custom_spec_root
            }
        }),
{
    law_marker_is_written_out("__retryable_prompt_too_long__:"@ + rest, rest);
    law_signal_payload("compacting"@, Seq::empty(), key);
}

/// Once the session is compacted the first message goes out again, as it was but
/// that it continues the session, under the id of the turn; nothing is reported.
pub proof fn law_compaction_is_followed_by_the_message(
    session: ClaudeView,
    params: ParamsView,
    turn_id: Seq<char>,
    response: Seq<char>,
)
    ensures
        ({
            let m = claude::retry_move(
                session,
                params,
                turn_id,
                RetryPhase::Compacting,
                Ok(response),
            );
            &&& m.events.len() == 0
            &&& m.step matches RetryStepView::Send { phase, params: sent, turn_id: id } && {
                &&& phase == RetryPhase::Retrying
                &&& id == turn_id
                &&& sent == (ParamsView {
                    continue_session: true,
                    session_id: goes_to(params, session),
                    ..params
                })
            }
        }),
{
}

/// The event that reports an error of the turn.
pub open spec fn reports_error(
    e: ClaudeEventView,
    session: ClaudeView,
    turn_id: Seq<char>,
    message: Seq<char>,
) -> bool {
    &&& e.turn_id == turn_id
    &&& e.event == (EventView::TurnError {
        workspace_id: session.workspace_id,
        error: message,
        code: None,
    })
}

/// A compaction that fails ends the turn. The failure is reported as a signal
/// with its reason and then as an error of the turn.
pub proof fn law_failed_compaction_ends_the_turn(
    session: ClaudeView,
    params: ParamsView,
    turn_id: Seq<char>,
    error: Seq<char>,
    bare: Seq<char>,
    key: Seq<char>,
)
    requires
        bare_error(error, bare),
    ensures
        ({
            let message = "Prompt is too long and automatic /compact failed: "@ + bare;
            let m = claude::retry_move(
                session,
                params,
                turn_id,
                RetryPhase::Compacting,
                Err(error),
            );
            &&& m.step matches RetryStepView::Finish { result } && result == Err::<
                Seq<char>,
                Seq<char>,
            >(message)
            &&& m.events.len() == 2
            &&& reports_error(m.events[1], session, turn_id, message)
            &&& m.events[0].turn_id == turn_id
            &&& m.events[0].event matches EventView::Raw { workspace_id, engine, data } && {
                &&& workspace_id == session.workspace_id
                &&& engine == EngineType::Claude
                &&& data is Object
                &&& key == "type"@ ==> data.field(key) == Some(JsonTree::Text("system"@))
                &&& key == "subtype"@ ==> data.field(key) == Some(
                    JsonTree::Text("compaction_failed"@),
                )
                &&& key == "source"@ ==> data.field(key) == Some(
                    JsonTree::Text("auto_compact_retry"@),
                )
                &&& key == "reason"@ ==> data.field(key) == Some(JsonTree::Text(message))
                &&& key != "type"@ && key != "subtype"@ && key != "source"@ && key != "reason"@
                    ==> data.field(key) is None
            }
        }),
{
    let message = "Prompt is too long and automatic /compact failed: "@ + bare;
    law_marker_is_written_out(error, bare);
    let extra = seq![("reason"@, JsonTree::Text(message))];
    law_signal_payload("compaction_failed"@, extra, key);
    reveal_strlit("reason");
    reveal_strlit("type");
    reveal_strlit("subtype");
    reveal_strlit("source");
    assert("reason"@[0] == 'r' && "type"@[0] == 't' && "subtype"@[0] == 's' && "source"@[0] == 's');
    if key == "reason"@ {
        law_payload_holds_further_fields("compaction_failed"@, extra, 0);
    }
}

/// A retry that fails ends the turn, and is reported as an error of the turn.
pub proof fn law_failed_retry_ends_the_turn(
    session: ClaudeView,
    params: ParamsView,
    turn_id: Seq<char>,
    error: Seq<char>,
    bare: Seq<char>,
)
    requires
        bare_error(error, bare),
    ensures
        ({
            let message = "Prompt is too long. Retried once after /compact but still failed: "@
                + bare;
            let m = claude::retry_move(session, params, turn_id, RetryPhase::Retrying, Err(error));
            &&& m.step matches RetryStepView::Finish { result } && result == Err::<
                Seq<char>,
                Seq<char>,
            >(message)
            &&& m.events.len() == 1
            &&& reports_error(m.events[0], session, turn_id, message)
        }),
{
    law_marker_is_written_out(error, bare);
}

// ---------------------------------------------------------------------------
// Signals
// ---------------------------------------------------------------------------

/// In a text that is searched for signals, hyphens and spaces count as
/// underscores, and every other character as itself.
pub proof fn law_underscores(s: Seq<char>, i: int)
    requires
        0 <= i < s.len(),
    ensures
        claude::underscored(s).len() == s.len(),
        s[i] == '-' || s[i] == ' ' ==> claude::underscored(s)[i] == '_',
        s[i] != '-' && s[i] != ' ' ==> claude::underscored(s)[i] == s[i],
{
}

/// Which signal a text stands for: a failure before a boundary, and that before
/// a compaction that goes on.
pub proof fn law_signals_of_texts(value: Seq<char>)
    ensures
        ({
            let n = claude::underscored(text::lowered(text::trimmed(value)));
            let r = claude::compaction_signal(value);
            let fails = text::has_text(n, "compaction_failed"@) || text::has_text(
                n,
                "compact_failed"@,
            ) || text::has_text(n, "compactfailure"@);
            let bounds = text::has_text(n, "compact_boundary"@) || text::has_text(
                n,
                "compacted"@,
            );
            let goes_on = text::has_text(n, "compacting"@);
            &&& fails ==> r == Some("compaction_failed"@)
            &&& !fails && bounds ==> r == Some("compact_boundary"@)
            &&& !fails && !bounds && goes_on ==> r == Some("compacting"@)
            &&& !fails && !bounds && !goes_on ==> r is None
        }),
{
}

/// The text under a key stands for a signal.
pub open spec fn signals_under(e: JsonTree, key: Seq<char>) -> bool {
    e.field_text(key) matches Some(s) && claude::compaction_signal(s) is Some
}

/// An event signals compaction exactly when the text of one of eleven fields
/// stands for a signal.
pub proof fn law_fields_that_signal(e: JsonTree)
    ensures
        claude::signals_compaction(e) <==> {
            ||| signals_under(e, "subtype"@)
            ||| signals_under(e, "subType"@)
            ||| signals_under(e, "event"@)
            ||| signals_under(e, "event_type"@)
            ||| signals_under(e, "eventType"@)
            ||| signals_under(e, "name"@)
            ||| signals_under(e, "kind"@)
            ||| signals_under(e, "status"@)
            ||| signals_under(e, "phase"@)
            ||| signals_under(e, "state"@)
            ||| signals_under(e, "type"@)
        },
{
    let keys = claude::signal_keys();
    assert(keys[0] == "subtype"@ && keys[1] == "subType"@ && keys[2] == "event"@ && keys[3]
        == "event_type"@ && keys[4] == "eventType"@ && keys[5] == "name"@ && keys[6] == "kind"@
        && keys[7] == "status"@ && keys[8] == "phase"@ && keys[9] == "state"@ && keys[10]
        == "type"@);
    assert(claude::field_signals(e, keys[0]) == signals_under(e, "subtype"@));
    assert(claude::field_signals(e, keys[1]) == signals_under(e, "subType"@));
    assert(claude::field_signals(e, keys[2]) == signals_under(e, "event"@));
    assert(claude::field_signals(e, keys[3]) == signals_under(e, "event_type"@));
    assert(claude::field_signals(e, keys[4]) == signals_under(e, "eventType"@));
    assert(claude::field_signals(e, keys[5]) == signals_under(e, "name"@));
    assert(claude::field_signals(e, keys[6]) == signals_under(e, "kind"@));
    assert(claude::field_signals(e, keys[7]) == signals_under(e, "status"@));
    assert(claude::field_signals(e, keys[8]) == signals_under(e, "phase"@));
    assert(claude::field_signals(e, keys[9]) == signals_under(e, "state"@));
    assert(claude::field_signals(e, keys[10]) == signals_under(e, "type"@));
    if claude::signals_compaction(e) {
        let i = choose|i: int| 0 <= i < keys.len() && #[trigger] claude::field_signals(e, keys[i]);
        assert(i == 0 || i == 1 || i == 2 || i == 3 || i == 4 || i == 5 || i == 6 || i == 7 || i
            == 8 || i == 9 || i == 10);
    }
}

/// The payload of a signal holds its type, its subtype and its source, and beside
/// the further fields nothing else.
pub proof fn law_signal_payload(
    subtype: Seq<char>,
    extra: Seq<(Seq<char>, JsonTree)>,
    key: Seq<char>,
)
    ensures
        ({
            let payload = claude::signal_payload(subtype, extra);
            let further = exists|i: int| 0 <= i < extra.len() && (#[trigger] extra[i]).0 == key;
            &&& payload is Object
            &&& !further && key == "type"@ ==> payload.field(key) == Some(
                JsonTree::Text("system"@),
            )
            &&& !further && key == "subtype"@ ==> payload.field(key) == Some(
                JsonTree::Text(subtype),
            )
            &&& !further && key == "source"@ ==> payload.field(key) == Some(
                JsonTree::Text("auto_compact_retry"@),
            )
            &&& !further && key != "type"@ && key != "subtype"@ && key != "source"@
                ==> payload.field(key) is None
        }),
{
    reveal_strlit("type");
    reveal_strlit("subtype");
    reveal_strlit("source");
    assert("type"@.len() == 4 && "subtype"@.len() == 7 && "source"@.len() == 6);
    let none = Seq::<(Seq<char>, JsonTree)>::empty();
    let system = JsonTree::Text("system"@);
    let source = JsonTree::Text("auto_compact_retry"@);
    let typed = json::entries_set(none, "type"@, system);
    let named = json::entries_set(typed, "subtype"@, JsonTree::Text(subtype));
    let sourced = json::entries_set(named, "source"@, source);
    laws_json::law_set_then_read(none, "type"@, system, key);
    laws_json::law_set_then_read(typed, "subtype"@, JsonTree::Text(subtype), key);
    laws_json::law_set_then_read(named, "source"@, source, key);
    if !(exists|i: int| 0 <= i < extra.len() && (#[trigger] extra[i]).0 == key) {
        laws_claude::lemma_payload_keeps_subtype(sourced, extra, key);
    }
}

proof fn lemma_last_extra_is_read(
    entries: Seq<(Seq<char>, JsonTree)>,
    extra: Seq<(Seq<char>, JsonTree)>,
    n: int,
)
    requires
        0 <= n < extra.len(),
        forall|j: int| n < j < extra.len() ==> (#[trigger] extra[j]).0 != extra[n].0,
    ensures
        json::lookup(claude::entries_with(entries, extra), extra[n].0) == Some(extra[n].1),
    decreases extra.len(),
{
    let before = extra.drop_last();
    laws_json::law_set_then_read(
        claude::entries_with(entries, before),
        extra.last().0,
        extra.last().1,
        extra[n].0,
    );
    if n < extra.len() - 1 {
        assert(extra[extra.len() - 1].0 != extra[n].0);
        lemma_last_extra_is_read(entries, before, n);
    }
}

/// The payload of a signal holds the further fields, of those with the same name
/// the last, also in place of its own.
pub proof fn law_payload_holds_further_fields(
    subtype: Seq<char>,
    extra: Seq<(Seq<char>, JsonTree)>,
    n: int,
)
    requires
        0 <= n < extra.len(),
        forall|j: int| n < j < extra.len() ==> (#[trigger] extra[j]).0 != extra[n].0,
    ensures
        claude::signal_payload(subtype, extra).field(extra[n].0) == Some(extra[n].1),
{
    let none = Seq::<(Seq<char>, JsonTree)>::empty();
    let typed = json::entries_set(none, "type"@, JsonTree::Text("system"@));
    let named = json::entries_set(typed, "subtype"@, JsonTree::Text(subtype));
    let sourced = json::entries_set(named, "source"@, JsonTree::Text("auto_compact_retry"@));
    lemma_last_extra_is_read(sourced, extra, n);
}

/// A reported signal belongs to its turn and workspace and carries its payload.
pub proof fn law_signal_event(
    workspace: Seq<char>,
    turn_id: Seq<char>,
    subtype: Seq<char>,
    extra: Seq<(Seq<char>, JsonTree)>,
)
    ensures
        ({
            let e = claude::signal_event(workspace, turn_id, subtype, extra);
            &&& e.turn_id == turn_id
            &&& e.event matches EventView::Raw { workspace_id, engine, data } && workspace_id
                == workspace && engine == EngineType::Claude && data == claude::signal_payload(
                subtype,
                extra,
            )
        }),
{
}

/// An error that is reported belongs to its turn and workspace.
pub proof fn law_error_event(session: ClaudeView, turn_id: Seq<char>, error: Seq<char>)
    ensures
        reports_error(
            claude::claude_error(session.workspace_id, turn_id, error),
            session,
            turn_id,
            error,
        ),
{
}

// ---------------------------------------------------------------------------
// Usage
// ---------------------------------------------------------------------------

/// The value under the first of two keys that is there.
pub open spec fn either(t: JsonTree, a: Seq<char>, b: Seq<char>) -> Option<JsonTree> {
    if t.field(a) is Some {
        t.field(a)
    } else {
        t.field(b)
    }
}

/// The integer that a value holds, if it is there and holds one.
pub open spec fn count_of(value: Option<JsonTree>) -> Option<i64> {
    match value {
        Some(v) => v.integer(),
        None => None,
    }
}

/// The integer, or zero where there is none.
pub open spec fn count_or_zero(value: Option<JsonTree>) -> i64 {
    match count_of(value) {
        Some(n) => n,
        None => 0,
    }
}

/// The usage is that of the context window, under `current_usage` or else
/// `currentUsage`, where there is one; else that of the message; else the
/// event's own. The size of the window comes with the first of these alone.
pub proof fn law_usage_is_found(e: JsonTree)
    ensures
        ({
            let current = match e.field("context_window"@) {
                Some(w) => either(w, "current_usage"@, "currentUsage"@),
                None => None,
            };
            let message = match e.field("message"@) {
                Some(m) => m.field("usage"@),
                None => None,
            };
            &&& current is Some ==> claude::usage_of(e) == current
            &&& current is None && message is Some ==> claude::usage_of(e) == message
            &&& current is None && message is None ==> claude::usage_of(e) == e.field("usage"@)
            &&& current is None ==> claude::usage_window(e) is None
            &&& current is Some ==> (e.field("context_window"@) matches Some(w)
                && claude::usage_window(e) == count_of(
                either(w, "context_window_size"@, "contextWindowSize"@),
            ))
        }),
{
}

/// The value under the first of three keys that is there.
pub open spec fn one_of(t: JsonTree, a: Seq<char>, b: Seq<char>, c: Seq<char>) -> Option<JsonTree> {
    if t.field(a) is Some {
        t.field(a)
    } else {
        either(t, b, c)
    }
}

/// An update of the usage is reported exactly where the input is counted. It
/// holds the counts of the input and of the output, the sum of what was written
/// to the cache and read from it where either is positive, and the size of the
/// window.
pub proof fn law_usage_is_reported(workspace: Seq<char>, e: JsonTree, usage: JsonTree)
    requires
        claude::usage_of(e) == Some(usage),
        claude::cached_fits(e),
    ensures
        ({
            let input = count_of(either(usage, "input_tokens"@, "inputTokens"@));
            let output = count_of(either(usage, "output_tokens"@, "outputTokens"@));
            let written = count_or_zero(
                one_of(
                    usage,
                    "cache_creation_input_tokens"@,
                    "cacheCreationInputTokens"@,
                    "cache_creation_tokens"@,
                ),
            );
            let read = count_or_zero(
                one_of(
                    usage,
                    "cache_read_input_tokens"@,
                    "cacheReadInputTokens"@,
                    "cache_read_tokens"@,
                ),
            );
            let r = claude::usage_event(workspace, e);
            &&& r is Some <==> input is Some
            &&& r matches Some(event) ==> (event matches EventView::UsageUpdate {
                workspace_id,
                input_tokens,
                output_tokens,
                cached_tokens,
                model_context_window,
            } && {
                &&& workspace_id == workspace
                &&& input_tokens == input
                &&& output_tokens == output
                &&& cached_tokens matches Some(n) ==> (written > 0 || read > 0) && n == written
                    + read
                &&& cached_tokens is None ==> written <= 0 && read <= 0
                &&& model_context_window == claude::usage_window(e)
            })
        }),
{
}

/// An event without usage reports none.
pub proof fn law_no_usage_is_not_reported(workspace: Seq<char>, e: JsonTree)
    requires
        claude::usage_of(e) is None,
    ensures
        claude::usage_event(workspace, e) is None,
        claude::cached_fits(e),
{
}

/// The counts of the cache can be added up exactly when their sum is no larger
/// than the largest integer of 64 bits.
pub proof fn law_counts_fit(e: JsonTree, usage: JsonTree)
    requires
        claude::usage_of(e) == Some(usage),
    ensures
        claude::cached_fits(e) <==> count_or_zero(
            one_of(
                usage,
                "cache_creation_input_tokens"@,
                "cacheCreationInputTokens"@,
                "cache_creation_tokens"@,
            ),
        ) + count_or_zero(
            one_of(
                usage,
                "cache_read_input_tokens"@,
                "cacheReadInputTokens"@,
                "cache_read_tokens"@,
            ),
        ) <= 0x7fff_ffff_ffff_ffff,
{
}

} // verus!
