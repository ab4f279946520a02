//! What one event, one line and the end of a Gemini turn come to.
use crate::events::{EngineType, EventView};
use crate::gemini_event;
use crate::gemini_history;
use crate::gemini_history::MessageView;
use crate::gemini_turn;
use crate::gemini_turn::{ExitView, OutcomeView, TurnView};
use crate::json;
use crate::json::JsonTree;
use crate::text;
use vstd::prelude::*;
use vstd::string::*;

verus! {

/// Nothing is known of a turn that has just begun.
pub proof fn law_new_turn_is_empty(workspace_id: Seq<char>)
    ensures
        ({
            let s = gemini_turn::fresh_turn(workspace_id);
            &&& s.workspace_id == workspace_id
            &&& s.response.len() == 0
            &&& !s.completed && !s.errored && !s.tools && !s.reasoned
            &&& s.errors.len() == 0
            &&& s.session is None
            &&& s.observed.len() == 0
            &&& s.last_reasoning.len() == 0
        }),
{
}

/// A turn that is reported as completed, with a result that has a text, has that
/// text as its answer if its answer was blank so far, whatever else was seen of
/// it before. An answer that is not blank stays.
pub proof fn law_result_is_the_missing_answer(
    s: TurnView,
    e: JsonTree,
    w: Seq<char>,
    value: JsonTree,
    t: Seq<char>,
)
    requires
        gemini_event::gemini_event(s.workspace_id, e) == Some(
            EventView::TurnCompleted { workspace_id: w, result: Some(value) },
        ),
        gemini_event::value_text(value, 5) == Some(t),
    ensures
        text::trimmed(s.response).len() == 0 ==> gemini_turn::after_event(s, e).response == t,
        text::trimmed(s.response).len() > 0 ==> gemini_turn::after_event(s, e).response
            == s.response,
{
}

/// A result without a text leaves the answer as it is.
pub proof fn law_result_without_text_leaves_the_answer(
    s: TurnView,
    e: JsonTree,
    w: Seq<char>,
    result: Option<JsonTree>,
)
    requires
        gemini_event::gemini_event(s.workspace_id, e) == Some(
            EventView::TurnCompleted { workspace_id: w, result },
        ),
        result matches Some(value) ==> gemini_event::value_text(value, 5) is None,
    ensures
        gemini_turn::after_event(s, e).response == s.response,
{
}

/// Two turns with the same blank answer have the same answer behind the same
/// completing event, whatever tools, thoughts and errors were seen of either.
pub proof fn law_answer_does_not_depend_on_notes(a: TurnView, b: TurnView, e: JsonTree)
    requires
        a.workspace_id == b.workspace_id,
        a.response == b.response,
    ensures
        gemini_turn::after_event(a, e).response == gemini_turn::after_event(b, e).response,
{
}

/// A piece of text is appended to the answer; an event that is neither a piece of
/// text nor the completion of the turn leaves it as it is.
pub proof fn law_answer_grows_by_text(s: TurnView, e: JsonTree)
    ensures
        gemini_event::gemini_event(s.workspace_id, e) matches Some(
            EventView::TextDelta { text, .. },
        ) ==> gemini_turn::after_event(s, e).response == s.response + text,
        !(gemini_event::gemini_event(s.workspace_id, e) matches Some(EventView::TextDelta { .. }))
            && !(gemini_event::gemini_event(s.workspace_id, e) matches Some(
            EventView::TurnCompleted { .. },
        )) ==> gemini_turn::after_event(s, e).response == s.response,
{
}

/// What was noted of a turn stays noted, and an event adds to it what it is read
/// as: completion, an error, the use of a tool. The session is the one that was
/// announced first.
pub proof fn law_events_are_noted(s: TurnView, e: JsonTree)
    ensures
        ({
            let a = gemini_turn::after_event(s, e);
            let read = gemini_event::gemini_event(s.workspace_id, e);
            &&& a.workspace_id == s.workspace_id
            &&& a.errors == s.errors
            &&& a.completed <==> s.completed || (read matches Some(EventView::TurnCompleted { .. }))
            &&& a.errored <==> s.errored || (read matches Some(EventView::TurnError { .. }))
            &&& a.tools <==> s.tools || (read matches Some(EventView::ToolStarted { .. })) || (
            read matches Some(EventView::ToolCompleted { .. }))
            &&& s.session is Some ==> a.session == s.session
            &&& s.session is None ==> a.session == gemini_event::announced_session(e)
        }),
{
}

/// The latest reasoning of a turn is the text of a piece of reasoning; of another
/// event, its latest thought, where it has one.
pub proof fn law_latest_reasoning_is_noted(s: TurnView, e: JsonTree)
    ensures
        ({
            let a = gemini_turn::after_event(s, e);
            let read = gemini_event::gemini_event(s.workspace_id, e);
            let thought = gemini_event::latest_thought(e, 7);
            let reasons = read matches Some(EventView::ReasoningDelta { .. });
            &&& read matches Some(EventView::ReasoningDelta { text, .. }) ==> a.last_reasoning
                == text && a.reasoned
            &&& !reasons && thought is Some ==> Some(a.last_reasoning) == thought
            &&& !reasons && thought is None ==> a.last_reasoning == s.last_reasoning
            &&& !reasons ==> (a.reasoned <==> s.reasoned || (thought is Some && thought != Some(
                s.last_reasoning,
            )))
        }),
{
}

proof fn lemma_listed_contains(list: Seq<Seq<char>>, t: Seq<char>, other: Seq<char>)
    ensures
        gemini_turn::listed(list, t).contains(other) <==> list.contains(other) || other == t,
    decreases list.len(),
{
    let out = gemini_turn::listed(list, t);
    if list.len() == 0 {
        assert(out[0] == t);
    } else if list[0] == t {
        assert(list.contains(t));
    } else if json::text_before(t, list[0]) {
        assert(out[0] == t);
        assert forall|i: int| 0 <= i < list.len() implies out.contains(#[trigger] list[i]) by {
            assert(out[i + 1] == list[i]);
        }
    } else {
        let rest = list.drop_first();
        let rest_out = gemini_turn::listed(rest, t);
        lemma_listed_contains(rest, t, other);
        assert(out[0] == list[0]);
        assert(forall|i: int| 0 <= i < rest_out.len() ==> rest_out[i] == #[trigger] out[i + 1]);
        if list.contains(other) && other != list[0] {
            let i = list.index_of(other);
            assert(rest[i - 1] == other);
            assert(rest.contains(other));
        }
        if rest_out.contains(other) {
            let i = rest_out.index_of(other);
            assert(out[i + 1] == other);
        }
        if out.contains(other) && other != list[0] {
            let i = out.index_of(other);
            assert(rest_out[i - 1] == other);
            assert(rest_out.contains(other));
        }
        if rest.contains(other) {
            let i = rest.index_of(other);
            assert(list[i + 1] == other);
        }
    }
}

/// The types that were observed of a turn are those that were observed before
/// and that of the event, if it has one.
pub proof fn law_observed_types(s: TurnView, e: JsonTree, kind: Seq<char>)
    ensures
        gemini_turn::after_event(s, e).observed.contains(kind) <==> s.observed.contains(kind)
            || e.field_text("type"@) == Some(kind),
{
    if let Some(own) = e.field_text("type"@) {
        lemma_listed_contains(s.observed, own, kind);
    }
}

/// An event is reported as what it is read as. Before that the session is
/// reported that it announces, if none was known, and then its latest thought, if
/// it is no piece of reasoning and the thought is not the one reported last.
pub proof fn law_reports_of_an_event(s: TurnView, e: JsonTree)
    ensures
        ({
            let out = gemini_turn::events_of(s, e);
            let read = gemini_event::gemini_event(s.workspace_id, e);
            let session = gemini_event::announced_session(e);
            let thought = gemini_event::latest_thought(e, 7);
            let starts = s.session is None && session is Some;
            let thinks = thought is Some && thought != Some(s.last_reasoning) && !(
            read matches Some(EventView::ReasoningDelta { .. }));
            let first: int = if starts {
                1
            } else {
                0
            };
            let second: int = if thinks {
                1
            } else {
                0
            };
            &&& out.len() == first + second + (if read is Some {
                1int
            } else {
                0
            })
            &&& starts ==> (out[0] matches EventView::SessionStarted {
                workspace_id,
                session_id,
                engine,
            } && workspace_id == s.workspace_id && Some(session_id) == session && engine
                == EngineType::Gemini)
            &&& thinks ==> (out[first] matches EventView::ReasoningDelta { workspace_id, text }
                && workspace_id == s.workspace_id && Some(text) == thought)
            &&& read is Some ==> Some(out.last()) == read
        }),
{
}

/// A blank line changes nothing. A line that is no JSON text goes to what went
/// wrong, without the white space at its ends and with a line break; nothing
/// else changes and nothing is reported. A line that is one counts as the event
/// that it holds.
pub proof fn law_lines_of_output(s: TurnView, line: Seq<char>)
    ensures
        ({
            let t = text::trimmed(line);
            let a = gemini_turn::after_line(s, line);
            let out = gemini_turn::line_events(s, line);
            &&& t.len() == 0 ==> a == s && out.len() == 0
            &&& t.len() > 0 && json::json_of_text(t) is None ==> {
                &&& a.errors == s.errors + t + "\n"@
                &&& a == (TurnView { errors: a.errors, ..s })
                &&& out.len() == 0
            }
            &&& t.len() > 0 ==> (json::json_of_text(t) matches Some(e) ==> {
                &&& a == gemini_turn::after_event(s, e)
                &&& out == gemini_turn::events_of(s, e)
            })
        }),
{
    reveal_strlit("\n");
    let t = text::trimmed(line);
    assert((s.errors + t).push('\n') =~= s.errors + t + "\n"@);
}

// ---------------------------------------------------------------------------
// The record of a session
// ---------------------------------------------------------------------------

/// The record is searched when no reasoning was seen: that of the session of the
/// turn, or else of the one that was known.
pub proof fn law_record_is_searched_for_reasoning(s: TurnView, current: Option<Seq<char>>)
    ensures
        s.reasoned ==> gemini_turn::recorded_session(s, current) is None,
        !s.reasoned && s.session is Some ==> gemini_turn::recorded_session(s, current)
            == s.session,
        !s.reasoned && s.session is None ==> gemini_turn::recorded_session(s, current) == current,
{
}

/// A record that grows by a message: behind one of the user nothing is left, one
/// of reasoning that is not blank adds its text without the white space at its
/// ends, any other adds nothing.
pub proof fn law_record_grows(messages: Seq<MessageView>, m: MessageView)
    ensures
        ({
            let before = gemini_history::latest_reasoning(messages);
            let after = gemini_history::latest_reasoning(messages.push(m));
            let role = text::lowered(m.role);
            let kind = text::lowered(m.kind);
            let said = text::trimmed(m.text);
            &&& role == "user"@ ==> after.len() == 0
            &&& role != "user"@ && kind == "reasoning"@ && said.len() > 0 ==> after == before.push(
                said,
            )
            &&& role != "user"@ && (kind != "reasoning"@ || said.len() == 0) ==> after == before
        }),
        gemini_history::latest_reasoning(Seq::empty()).len() == 0,
{
    reveal_strlit("user");
    reveal_strlit("reasoning");
    assert(text::lowered("user"@) =~= "user"@);
    assert(text::lowered("reasoning"@) =~= "reasoning"@);
    assert(messages.push(m).drop_last() =~= messages);
}

/// Of the texts of a record those are reported that differ from the one before
/// them, the first of all from what was reported last; and what was reported last
/// is the last of them.
pub proof fn law_recorded_texts_are_reported(
    last: Seq<char>,
    found: Seq<Seq<char>>,
    t: Seq<char>,
)
    ensures
        ({
            let before = gemini_turn::fresh_texts(last, found);
            let after = gemini_turn::fresh_texts(last, found.push(t));
            let previous = if found.len() == 0 {
                last
            } else {
                found[found.len() - 1]
            };
            &&& t == previous ==> after == before
            &&& t != previous ==> after == before.push(t)
        }),
        gemini_turn::fresh_texts(last, Seq::empty()).len() == 0,
        gemini_turn::last_after(last, Seq::empty()) == last,
        gemini_turn::last_after(last, found.push(t)) == t,
{
    assert(found.push(t).drop_last() =~= found);
}

/// Each text of a record is reported as a piece of reasoning of the workspace.
pub proof fn law_recorded_texts_are_reasoning(
    workspace_id: Seq<char>,
    found: Seq<Seq<char>>,
    i: int,
)
    requires
        0 <= i < found.len(),
    ensures
        gemini_turn::reasoning_events(workspace_id, found).len() == found.len(),
        gemini_turn::reasoning_events(workspace_id, found)[i] == (EventView::ReasoningDelta {
            workspace_id,
            text: found[i],
        }),
{
}

// ---------------------------------------------------------------------------
// The end of a turn
// ---------------------------------------------------------------------------

/// A turn that failed with a message: it is reported as an error of the turn and
/// returned, and no session is kept.
pub open spec fn fails_with(s: TurnView, out: OutcomeView, message: Seq<char>) -> bool {
    &&& out.events.len() == 1
    &&& out.events[0] == (EventView::TurnError {
        workspace_id: s.workspace_id,
        error: message,
        code: None,
    })
    &&& out.result == Err::<Seq<char>, Seq<char>>(message)
    &&& out.session is None
}

/// Everything that went wrong: what was noted, and behind it the error stream, if
/// that is not blank; without the white space at the ends.
pub open spec fn wrongs(s: TurnView, stderr: Seq<char>) -> Seq<char> {
    if text::trimmed(stderr).len() == 0 {
        text::trimmed(s.errors)
    } else {
        text::trimmed(s.errors + stderr)
    }
}

/// A process that did not end well, with an interruption noted, was stopped.
pub proof fn law_stopped_turns(s: TurnView, exit: Option<ExitView>, stderr: Seq<char>)
    requires
        exit matches Some(report) ==> !report.success,
    ensures
        fails_with(s, gemini_turn::outcome(s, exit, stderr, true), "Session stopped."@),
        gemini_turn::outcome(s, exit, stderr, true).clears_interrupt,
{
}

/// A process that ended with a failure, with no interruption noted, fails with
/// what went wrong, or else with its status, whatever it answered.
pub proof fn law_failed_processes(s: TurnView, exit: ExitView, stderr: Seq<char>)
    requires
        !exit.success,
    ensures
        ({
            let out = gemini_turn::outcome(s, Some(exit), stderr, false);
            &&& wrongs(s, stderr).len() > 0 ==> fails_with(s, out, wrongs(s, stderr))
            &&& wrongs(s, stderr).len() == 0 ==> fails_with(
                s,
                out,
                "Gemini exited with status: "@ + exit.status,
            )
            &&& out.clears_interrupt
        }),
{
}

/// A process that ended well with a blank answer fails with what went wrong; else
/// silently, if an error was reported before; else, if no tool was used, with an
/// account of what was seen. It succeeds if a tool was used. A noted interruption
/// is kept.
pub proof fn law_silent_turns(s: TurnView, exit: ExitView, stderr: Seq<char>, interrupted: bool)
    requires
        exit.success,
        text::trimmed(s.response).len() == 0,
    ensures
        ({
            let out = gemini_turn::outcome(s, Some(exit), stderr, interrupted);
            let silent = wrongs(s, stderr).len() == 0;
            &&& !silent ==> fails_with(s, out, wrongs(s, stderr))
            &&& silent && s.errored ==> out.result == Err::<Seq<char>, Seq<char>>(
                "Gemini returned an error event."@,
            ) && out.events.len() == 0 && out.session is None
            &&& silent && !s.errored && !s.tools ==> fails_with(
                s,
                out,
                gemini_turn::diagnostic(s),
            )
            &&& silent && !s.errored && s.tools ==> out.result == Ok::<Seq<char>, Seq<char>>(
                s.response,
            )
            &&& !out.clears_interrupt
        }),
{
}

/// Of a process without a status, with no interruption noted, the same holds as
/// of one that ended well, but that a noted interruption is used up.
pub proof fn law_lost_processes(s: TurnView, exit: ExitView, stderr: Seq<char>, interrupted: bool)
    requires
        exit.success,
    ensures
        ({
            let lost = gemini_turn::outcome(s, None, stderr, false);
            let well = gemini_turn::outcome(s, Some(exit), stderr, interrupted);
            &&& lost.events == well.events
            &&& lost.result == well.result
            &&& lost.session == well.session
            &&& lost.clears_interrupt
            &&& !well.clears_interrupt
        }),
{
}

/// A process that ended well with an answer that is not blank succeeds, whatever
/// went wrong.
pub proof fn law_answered_turns(s: TurnView, exit: ExitView, stderr: Seq<char>, interrupted: bool)
    requires
        exit.success,
        text::trimmed(s.response).len() > 0,
    ensures
        gemini_turn::outcome(s, Some(exit), stderr, interrupted).result is Ok,
{
}

/// A turn that succeeds returns its answer and its session. Its completion is
/// reported, with the answer as its `text`, unless a completion or an error was
/// reported before.
pub proof fn law_successful_turns(
    s: TurnView,
    exit: Option<ExitView>,
    stderr: Seq<char>,
    interrupted: bool,
)
    requires
        gemini_turn::outcome(s, exit, stderr, interrupted).result is Ok,
    ensures
        ({
            let out = gemini_turn::outcome(s, exit, stderr, interrupted);
            &&& out.result == Ok::<Seq<char>, Seq<char>>(s.response)
            &&& out.session == s.session
            &&& s.completed || s.errored ==> out.events.len() == 0
            &&& !s.completed && !s.errored ==> out.events.len() == 1 && (
            out.events[0] matches EventView::TurnCompleted { workspace_id, result } && {
                &&& workspace_id == s.workspace_id
                &&& result matches Some(JsonTree::Object(entries)) && entries.len() == 1
                    && json::lookup(entries, "text"@) == Some(JsonTree::Text(s.response))
            })
        }),
{
    let entries = seq![("text"@, JsonTree::Text(s.response))];
    assert(entries[0].0 == "text"@);
}

/// The account of a silent turn says whether it was completed, and which types of
/// events were observed.
pub proof fn law_account_of_a_silent_turn(s: TurnView)
    ensures
        ({
            let said = gemini_turn::diagnostic(s);
            let reason = if s.completed {
                "Gemini completed but produced no assistant output."@
            } else {
                "Gemini exited without a completion event or assistant output."@
            };
            &&& s.observed.len() == 0 ==> said == reason + " Observed event types: "@ + "none"@
                + "."@
            &&& s.observed.len() > 0 ==> said == reason + " Observed event types: "@ + text::joined(
                s.observed,
                ", "@,
            ) + "."@
        }),
{
}

} // verus!
