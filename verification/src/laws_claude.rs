//! What holds of a turn with a retry: the marker of errors, compaction and usage.
use crate::claude;
use crate::claude::{ClaudeView, RetryPhase};
use crate::events::EventView;
use crate::gemini_event;
use crate::gemini_session::ParamsView;
use crate::json;
use crate::json::JsonTree;
use crate::laws_json;
use crate::text;
use vstd::prelude::*;
use vstd::string::*;

verus! {

/// What stands behind a prefix is what follows it.
pub proof fn lemma_after_prefix(prefix: Seq<char>, rest: Seq<char>)
    ensures
        text::has_prefix(prefix + rest, prefix),
        text::after_prefix(prefix + rest, prefix) == Some(rest),
{
    assert((prefix + rest).subrange(0, prefix.len() as int) =~= prefix);
    assert((prefix + rest).skip(prefix.len() as int) =~= rest);
}

/// Marking an error makes it one after which the prompt may be sent again, and
/// taking the marker off gives the error back. Marking twice is marking once.
pub proof fn law_mark_and_clear(error: Seq<char>)
    ensures
        claude::unmarked(claude::marked(error)) is Some,
        claude::marked(claude::marked(error)) == claude::marked(error),
        claude::cleared(claude::marked(error)) == claude::cleared(error),
        claude::unmarked(error) is None ==> claude::unmarked(claude::marked(error)) == Some(error),
        claude::unmarked(error) is None ==> claude::cleared(claude::marked(error)) == error,
{
    lemma_after_prefix(claude::marker(), error);
}

/// How far a turn with a retry has come.
pub open spec fn phase_number(phase: RetryPhase) -> nat {
    match phase {
        RetryPhase::First => 0,
        RetryPhase::Compacting => 1,
        RetryPhase::Retrying => 2,
    }
}

/// Every further message of a turn is one phase on. So at most three messages
/// are sent, the request for compaction once among them, and the retry is the
/// last.
pub proof fn law_retry_moves_on(
    session: ClaudeView,
    params: ParamsView,
    turn_id: Seq<char>,
    phase: RetryPhase,
    answer: Result<Seq<char>, Seq<char>>,
)
    ensures
        match claude::retry_move(session, params, turn_id, phase, answer).step {
            claude::RetryStepView::Send { phase: next, .. } => phase_number(next) == phase_number(
                phase,
            ) + 1,
            claude::RetryStepView::Finish { .. } => true,
        },
        phase == RetryPhase::Retrying ==> claude::retry_move(
            session,
            params,
            turn_id,
            phase,
            answer,
        ).step is Finish,
{
}

/// The retry sends the message itself, in a session that it continues, under
/// the id of the turn. The request for compaction goes out under an id of its
/// own.
pub proof fn law_retry_sends_the_message(
    session: ClaudeView,
    params: ParamsView,
    turn_id: Seq<char>,
    phase: RetryPhase,
    answer: Result<Seq<char>, Seq<char>>,
)
    ensures
        match claude::retry_move(session, params, turn_id, phase, answer).step {
            claude::RetryStepView::Send { phase: next, params: sent, turn_id: id } => {
                &&& sent.continue_session
                &&& sent.session_id == gemini_event::or_else(
                    params.session_id,
                    session.session_id,
                )
                &&& next == RetryPhase::Retrying ==> sent.text == params.text && sent.images
                    == params.images && id == turn_id
                &&& next == RetryPhase::Compacting ==> sent.text == "/compact"@ && sent.images
                    is None && id != turn_id
            },
            claude::RetryStepView::Finish { .. } => true,
        },
{
    reveal_strlit("::auto-compact");
    assert((turn_id + "::auto-compact"@).len() != turn_id.len());
}

/// No error that a turn ends with carries the marker.
pub proof fn law_marker_stays_inside(
    session: ClaudeView,
    params: ParamsView,
    turn_id: Seq<char>,
    phase: RetryPhase,
    answer: Result<Seq<char>, Seq<char>>,
)
    ensures
        match claude::retry_move(session, params, turn_id, phase, answer).step {
            claude::RetryStepView::Finish { result: Err(error) } => claude::unmarked(error) is None,
            _ => true,
        },
{
    reveal_strlit("__retryable_prompt_too_long__:");
    reveal_strlit("Prompt is too long and automatic /compact failed: ");
    reveal_strlit("Prompt is too long. Retried once after /compact but still failed: ");
    if let claude::RetryStepView::Finish { result: Err(error) } = claude::retry_move(
        session,
        params,
        turn_id,
        phase,
        answer,
    ).step {
        if phase != RetryPhase::First {
            assert(error[0] == 'P');
            if text::has_prefix(error, claude::marker()) {
                assert(error.subrange(0, claude::marker().len() as int)[0] == error[0]);
            }
        }
    }
}

/// Everything that is reported belongs to the workspace and to the turn.
pub proof fn law_retry_reports_for_the_turn(
    session: ClaudeView,
    params: ParamsView,
    turn_id: Seq<char>,
    phase: RetryPhase,
    answer: Result<Seq<char>, Seq<char>>,
)
    ensures
        forall|i: int|
            0 <= i < claude::retry_move(session, params, turn_id, phase, answer).events.len() ==> {
                let e = #[trigger] claude::retry_move(
                    session,
                    params,
                    turn_id,
                    phase,
                    answer,
                ).events[i];
                e.turn_id == turn_id && e.event.workspace() == session.workspace_id
            },
{
}

/// A turn that fails after its first message reports the error that it ends
/// with, last of all.
pub proof fn law_late_failure_is_reported(
    session: ClaudeView,
    params: ParamsView,
    turn_id: Seq<char>,
    phase: RetryPhase,
    answer: Result<Seq<char>, Seq<char>>,
)
    requires
        phase != RetryPhase::First,
        answer is Err,
    ensures
        ({
            let m = claude::retry_move(session, params, turn_id, phase, answer);
            &&& m.step matches claude::RetryStepView::Finish { result: Err(error) }
            &&& m.events.len() > 0
            &&& m.events.last() == claude::claude_error(session.workspace_id, turn_id, error)
        }),
{
}

/// `pat` does not stand in a text that is shorter.
proof fn lemma_too_short(s: Seq<char>, pat: Seq<char>)
    requires
        s.len() < pat.len(),
    ensures
        !text::has_text(s, pat),
{
}

/// A text without capitals, spaces and hyphens, and with no white space at its
/// ends, is searched for signals as it stands.
proof fn lemma_plain_signal(s: Seq<char>)
    requires
        s.len() > 0,
        forall|i: int| 0 <= i < s.len() ==> 'a' <= #[trigger] s[i] <= 'z' || s[i] == '_',
    ensures
        claude::underscored(text::lowered(text::trimmed(s))) == s,
{
    text::lemma_trimmed_start_at(s, 0);
    assert(s.skip(0) =~= s);
    text::lemma_trimmed_end_at(s, s.len() as int);
    assert(s.take(s.len() as int) =~= s);
    assert(text::lowered(s) =~= s);
    assert(claude::underscored(s) =~= s);
}

/// The three signals stand for themselves.
pub proof fn law_signals_stand_for_themselves(value: Seq<char>)
    ensures
        match claude::compaction_signal(value) {
            Some(signal) => claude::compaction_signal(signal) == Some(signal),
            None => true,
        },
{
    reveal_strlit("compaction_failed");
    reveal_strlit("compact_failed");
    reveal_strlit("compactfailure");
    reveal_strlit("compact_boundary");
    reveal_strlit("compacted");
    reveal_strlit("compacting");
    if let Some(signal) = claude::compaction_signal(value) {
        lemma_plain_signal(signal);
        assert(signal.subrange(0, signal.len() as int) =~= signal);
        assert(text::occurs_at(signal, signal, 0));
        if signal == "compact_boundary"@ {
            lemma_too_short(signal, "compaction_failed"@);
            assert forall|i: int| !text::occurs_at(signal, "compact_failed"@, i) by {
                if text::occurs_at(signal, "compact_failed"@, i) {
                    assert(signal.subrange(i, i + 14)[8] == signal[i + 8]);
                }
            }
            assert forall|i: int| !text::occurs_at(signal, "compactfailure"@, i) by {
                if text::occurs_at(signal, "compactfailure"@, i) {
                    assert(signal.subrange(i, i + 14)[7] == signal[i + 7]);
                }
            }
        } else if signal == "compacting"@ {
            lemma_too_short(signal, "compaction_failed"@);
            lemma_too_short(signal, "compact_failed"@);
            lemma_too_short(signal, "compactfailure"@);
            lemma_too_short(signal, "compact_boundary"@);
            assert forall|i: int| !text::occurs_at(signal, "compacted"@, i) by {
                if text::occurs_at(signal, "compacted"@, i) {
                    assert(signal.subrange(i, i + 9)[7] == signal[i + 7]);
                }
            }
        }
    }
}

/// The payload of a signal that is reported holds the signal, unless a further
/// field takes its place.
pub proof fn lemma_payload_keeps_subtype(
    entries: Seq<(Seq<char>, JsonTree)>,
    extra: Seq<(Seq<char>, JsonTree)>,
    key: Seq<char>,
)
    requires
        forall|i: int| 0 <= i < extra.len() ==> (#[trigger] extra[i]).0 != key,
    ensures
        json::lookup(claude::entries_with(entries, extra), key) == json::lookup(entries, key),
    decreases extra.len(),
{
    if extra.len() > 0 {
        let before = extra.drop_last();
        lemma_payload_keeps_subtype(entries, before, key);
        assert(extra[extra.len() - 1].0 != key);
        laws_json::law_set_then_read(
            claude::entries_with(entries, before),
            extra.last().0,
            extra.last().1,
            key,
        );
    }
}

/// A reported compaction signal is read back as one, whatever further fields it
/// carries beside its own.
pub proof fn law_reported_signal_is_recognised(
    value: Seq<char>,
    extra: Seq<(Seq<char>, JsonTree)>,
)
    requires
        claude::compaction_signal(value) is Some,
        forall|i: int| 0 <= i < extra.len() ==> (#[trigger] extra[i]).0 != "subtype"@,
    ensures
        claude::signals_compaction(
            claude::signal_payload(claude::compaction_signal(value).unwrap(), extra),
        ),
{
    let signal = claude::compaction_signal(value).unwrap();
    law_signals_stand_for_themselves(value);
    reveal_strlit("type");
    reveal_strlit("subtype");
    reveal_strlit("source");
    let typed = json::entries_set(Seq::empty(), "type"@, JsonTree::Text("system"@));
    let named = json::entries_set(typed, "subtype"@, JsonTree::Text(signal));
    let sourced = json::entries_set(
        named,
        "source"@,
        JsonTree::Text(claude::AUTO_COMPACT_SIGNAL_SOURCE@),
    );
    laws_json::law_set_then_read(typed, "subtype"@, JsonTree::Text(signal), "subtype"@);
    assert("source"@[1] != "subtype"@[1]);
    laws_json::law_set_then_read(
        named,
        "source"@,
        JsonTree::Text(claude::AUTO_COMPACT_SIGNAL_SOURCE@),
        "subtype"@,
    );
    lemma_payload_keeps_subtype(sourced, extra, "subtype"@);
    let payload = claude::signal_payload(signal, extra);
    assert(payload.field_text("subtype"@) == Some(signal));
    assert(claude::signal_keys()[0] == "subtype"@);
    assert(claude::field_signals(payload, claude::signal_keys()[0]));
}

/// The usage of the context window comes before that of the message, and that
/// before the event's own. The size of the window comes with the first alone.
pub proof fn law_usage_places(e: JsonTree)
    ensures
        claude::window_usage(e) is Some ==> claude::usage_of(e) == claude::window_usage(e)
            && claude::usage_window(e) == claude::window_size(e),
        claude::window_usage(e) is None ==> claude::usage_window(e) is None,
        claude::window_usage(e) is None && claude::message_usage(e) is Some ==> claude::usage_of(e)
            == claude::message_usage(e),
        claude::window_usage(e) is None && claude::message_usage(e) is None ==> claude::usage_of(e)
            == e.field("usage"@),
{
}

/// The tokens of the cache are reported where either count is positive, and
/// together they are their sum.
pub proof fn law_cached_tokens_are_the_sum(workspace_id: Seq<char>, e: JsonTree)
    requires
        claude::cached_fits(e),
        claude::usage_event(workspace_id, e) is Some,
    ensures
        ({
            let usage = claude::usage_of(e).unwrap();
            let creation = claude::cache_creation(usage);
            let read = claude::cache_read(usage);
            claude::usage_event(workspace_id, e) matches Some(
                EventView::UsageUpdate { cached_tokens, .. },
            ) && match cached_tokens {
                Some(n) => (creation > 0 || read > 0) && n == creation + read,
                None => creation <= 0 && read <= 0,
            }
        }),
{
}

} // verus!
