//! What holds of the events of the Gemini stream and of the turns they make up.
use crate::events::EventView;
use crate::gemini_event;
use crate::gemini_history;
use crate::gemini_history::MessageView;
use crate::gemini_turn;
use crate::gemini_turn::{ExitView, TurnView};
use crate::json;
use crate::json::JsonTree;
use crate::laws_json;
use crate::text;
use vstd::prelude::*;
use vstd::string::*;

verus! {

// ---------------------------------------------------------------------------
// Texts
// ---------------------------------------------------------------------------

/// There is no text, or it holds more than white space.
pub open spec fn never_blank(s: Option<Seq<char>>) -> bool {
    match s {
        Some(t) => text::trimmed(t).len() > 0,
        None => true,
    }
}

proof fn lemma_non_blank(s: Option<Seq<char>>)
    ensures
        never_blank(text::non_blank(s)),
{
    if let Some(t) = s {
        text::lemma_trimmed_twice(t);
    }
}

proof fn lemma_first_non_blank(candidates: Seq<Option<Seq<char>>>)
    ensures
        never_blank(gemini_event::first_non_blank(candidates)),
    decreases candidates.len(),
{
    if candidates.len() > 0 {
        lemma_non_blank(candidates[0]);
        lemma_first_non_blank(candidates.drop_first());
    }
}

proof fn lemma_longer_not_blank(a: Seq<char>, b: Seq<char>)
    requires
        text::trimmed(a).len() > 0,
    ensures
        text::trimmed(a + b).len() > 0,
{
    text::lemma_trimmed_blank(a);
    text::lemma_trimmed_blank(a + b);
    let i = choose|i: int| 0 <= i < a.len() && !text::is_white(#[trigger] a[i]);
    assert((a + b)[i] == a[i]);
}

pub proof fn lemma_later_not_blank(a: Seq<char>, b: Seq<char>)
    requires
        text::trimmed(b).len() > 0,
    ensures
        text::trimmed(a + b).len() > 0,
{
    text::lemma_trimmed_blank(b);
    text::lemma_trimmed_blank(a + b);
    let i = choose|i: int| 0 <= i < b.len() && !text::is_white(#[trigger] b[i]);
    assert((a + b)[a.len() + i] == b[i]);
}

/// The text that is read from a value is never blank.
pub proof fn law_value_text_is_never_blank(t: JsonTree, levels: nat)
    ensures
        never_blank(gemini_event::value_text(t, levels)),
    decreases levels, 1nat, 0nat,
{
    if levels > 0 {
        match t {
            JsonTree::Text(s) => {
                lemma_non_blank(Some(s));
            },
            JsonTree::Object(_) => {
                lemma_first_non_blank(
                    seq![
                        t.field_text("delta"@),
                        t.field_text("text"@),
                        t.field_text("message"@),
                        t.field_text("content"@),
                    ],
                );
                lemma_keyed_text(t, gemini_event::nested_text_keys(), levels);
            },
            _ => {},
        }
    }
}

proof fn lemma_keyed_text(t: JsonTree, keys: Seq<Seq<char>>, levels: nat)
    ensures
        never_blank(gemini_event::keyed_text(t, keys, levels)),
    decreases levels, 0nat, keys.len(),
{
    if keys.len() > 0 && levels > 0 {
        if let Some(value) = t.field(keys[0]) {
            law_value_text_is_never_blank(value, (levels - 1) as nat);
        }
        lemma_keyed_text(t, keys.drop_first(), levels);
    }
}

/// The text of a thought is never blank.
pub proof fn law_thought_text_is_never_blank(t: JsonTree)
    ensures
        never_blank(gemini_event::thought_text(t)),
{
    let subjects = seq![t.field_text("subject"@), t.field_text("title"@)];
    let descriptions = seq![
        t.field_text("description"@),
        t.field_text("detail"@),
        t.field_text("text"@),
        t.field_text("message"@),
    ];
    lemma_first_non_blank(subjects);
    lemma_first_non_blank(descriptions);
    if let Some(sub) = gemini_event::first_non_blank(subjects) {
        if let Some(desc) = gemini_event::first_non_blank(descriptions) {
            lemma_longer_not_blank(sub, ": "@);
            lemma_longer_not_blank(sub + ": "@, desc);
        }
    }
}

proof fn lemma_thought_field(t: JsonTree, key: Seq<char>)
    ensures
        never_blank(gemini_event::thought_field(t, key)),
{
    if let Some(thought) = t.field(key) {
        law_thought_text_is_never_blank(thought);
    }
}

proof fn lemma_last_thought(thoughts: Seq<JsonTree>)
    ensures
        never_blank(gemini_event::last_thought(thoughts)),
    decreases thoughts.len(),
{
    if thoughts.len() > 0 {
        law_thought_text_is_never_blank(thoughts.last());
        lemma_last_thought(thoughts.drop_last());
    }
}

proof fn lemma_own_thoughts(t: JsonTree)
    ensures
        never_blank(gemini_event::listed_thought(t)),
        never_blank(gemini_event::named_thought(t)),
{
    if let Some(JsonTree::Array(thoughts)) = t.field("thoughts"@) {
        lemma_last_thought(thoughts);
    }
    lemma_thought_field(t, "thought"@);
    lemma_thought_field(t, "currentThought"@);
    lemma_thought_field(t, "latestThought"@);
}

/// The latest thought of a value is never blank.
pub proof fn law_latest_thought_is_never_blank(t: JsonTree, levels: nat)
    ensures
        never_blank(gemini_event::latest_thought(t, levels)),
    decreases levels, 1nat, 0nat,
{
    if levels > 0 {
        lemma_own_thoughts(t);
        match t {
            JsonTree::Array(items) => {
                lemma_items_thought(items, levels);
            },
            JsonTree::Object(entries) => {
                lemma_keyed_thought(t, gemini_event::nested_thought_keys(), levels);
                lemma_entries_thought(entries, levels);
            },
            _ => {},
        }
    }
}

proof fn lemma_items_thought(items: Seq<JsonTree>, levels: nat)
    ensures
        never_blank(gemini_event::items_thought(items, levels)),
    decreases levels, 0nat, items.len(),
{
    if items.len() > 0 && levels > 0 {
        law_latest_thought_is_never_blank(items.last(), (levels - 1) as nat);
        lemma_items_thought(items.drop_last(), levels);
    }
}

proof fn lemma_keyed_thought(t: JsonTree, keys: Seq<Seq<char>>, levels: nat)
    ensures
        never_blank(gemini_event::keyed_thought(t, keys, levels)),
    decreases levels, 0nat, keys.len(),
{
    if keys.len() > 0 && levels > 0 {
        if let Some(value) = t.field(keys[0]) {
            law_latest_thought_is_never_blank(value, (levels - 1) as nat);
        }
        lemma_keyed_thought(t, keys.drop_first(), levels);
    }
}

proof fn lemma_entries_thought(entries: Seq<(Seq<char>, JsonTree)>, levels: nat)
    ensures
        never_blank(gemini_event::entries_thought(entries, levels)),
    decreases levels, 0nat, entries.len(),
{
    if entries.len() > 0 && levels > 0 {
        law_latest_thought_is_never_blank(entries[0].1, (levels - 1) as nat);
        lemma_entries_thought(entries.drop_first(), levels);
    }
}

proof fn lemma_reasoning_text(e: JsonTree)
    ensures
        never_blank(gemini_event::event_text(e)),
        never_blank(gemini_event::reasoning_text(e)),
{
    law_thought_text_is_never_blank(e);
    lemma_own_thoughts(e);
    law_latest_thought_is_never_blank(e, gemini_event::thought_levels());
}

// ---------------------------------------------------------------------------
// Events
// ---------------------------------------------------------------------------

/// Every event belongs to the workspace that it is read for.
pub proof fn law_event_belongs_to_workspace(workspace_id: Seq<char>, e: JsonTree)
    ensures
        match gemini_event::gemini_event(workspace_id, e) {
            Some(event) => event.workspace() == workspace_id,
            None => true,
        },
{
}

/// No piece of an answer and no piece of reasoning is blank.
pub proof fn law_deltas_are_never_blank(workspace_id: Seq<char>, e: JsonTree)
    ensures
        match gemini_event::gemini_event(workspace_id, e) {
            Some(EventView::TextDelta { text, .. }) => text::trimmed(text).len() > 0,
            Some(EventView::ReasoningDelta { text, .. }) => text::trimmed(text).len() > 0,
            _ => true,
        },
{
    lemma_reasoning_text(e);
}

/// Messages of the user and of the system are not reported, whatever the case
/// of the letters in which their role is written.
pub proof fn law_own_messages_are_silent(workspace_id: Seq<char>, e: JsonTree)
    requires
        e.field_text("type"@) == Some("message"@),
        ({
            let role = text::lowered(gemini_event::text_or_empty(e, "role"@));
            role == "user"@ || role == "system"@
        }),
    ensures
        gemini_event::gemini_event(workspace_id, e) is None,
{
    lemma_plain_names("message"@);
}

/// A text of small letters and underscores is its own normal form.
proof fn lemma_plain_word(s: Seq<char>)
    requires
        s.len() > 0,
        forall|i: int| 0 <= i < s.len() ==> 'a' <= #[trigger] s[i] <= 'z' || s[i] == '_',
    ensures
        gemini_event::normalized(s) == s,
{
    text::lemma_trimmed_start_at(s, 0);
    assert(s.skip(0) =~= s);
    text::lemma_trimmed_end_at(s, s.len() as int);
    assert(s.take(s.len() as int) =~= s);
    assert(text::lowered(s) =~= s);
}

/// The names of event types that are looked at before those that end a turn
/// do not end one, and `message` is neither a name of text nor of reasoning.
proof fn lemma_plain_names(kind: Seq<char>)
    ensures
        gemini_event::text_type_name(kind) || gemini_event::reasoning_type_name(kind) || kind
            == "message"@ || kind == "tool_use"@ || kind == "tool_result"@ || kind == "error"@
            ==> !gemini_event::completion_type(kind),
        kind == "message"@ ==> !gemini_event::text_type_name(kind)
            && !gemini_event::reasoning_type_name(kind),
{
    reveal_strlit("text");
    reveal_strlit("content_delta");
    reveal_strlit("text_delta");
    reveal_strlit("output_text_delta");
    reveal_strlit("assistant_message_delta");
    reveal_strlit("message_delta");
    reveal_strlit("assistant_message");
    reveal_strlit("reasoning");
    reveal_strlit("reasoning_delta");
    reveal_strlit("thinking");
    reveal_strlit("thinking_delta");
    reveal_strlit("thought");
    reveal_strlit("thought_delta");
    reveal_strlit("message");
    reveal_strlit("tool_use");
    reveal_strlit("tool_result");
    reveal_strlit("error");
    reveal_strlit("result");
    reveal_strlit("done");
    reveal_strlit("complete");
    reveal_strlit("completed");
    reveal_strlit("final");
    reveal_strlit("turn_completed");
    reveal_strlit("turn.complete");
    reveal_strlit("response_complete");
    reveal_strlit("response.completed");
    if gemini_event::text_type_name(kind) || gemini_event::reasoning_type_name(kind) || kind
        == "message"@ || kind == "tool_use"@ || kind == "tool_result"@ || kind == "error"@ {
        lemma_plain_word(kind);
        if gemini_event::completion_type(kind) {
            assert(kind[0] == 'c' || kind[0] == 'd' || kind[0] == 'f' || kind[0] == 'r' || kind[1]
                == 'u');
        }
    }
    if kind == "message"@ {
        assert(kind[0] == 'm');
    }
}

/// An event of a type that ends a turn does end it: with an error exactly when
/// its status says so or it carries an error, and else with success.
pub proof fn law_completion_ends_the_turn(workspace_id: Seq<char>, e: JsonTree, kind: Seq<char>)
    requires
        e.field_text("type"@) == Some(kind),
        gemini_event::completion_type(kind),
    ensures
        gemini_event::gemini_event(workspace_id, e) matches Some(event) && {
            let fails = gemini_event::failed_status(gemini_event::result_status(e))
                || gemini_event::has_error_payload(e);
            &&& fails ==> event is TurnError
            &&& !fails ==> event is TurnCompleted
        },
{
    lemma_plain_names(kind);
}

/// The text that a result carries is the text that is read from the event made
/// of it.
pub proof fn law_result_text_is_read_back(s: Seq<char>, e: JsonTree)
    requires
        text::trimmed(s).len() > 0,
    ensures
        gemini_event::value_text(
            gemini_event::text_and_raw(s, e),
            gemini_event::text_levels(),
        ) == Some(text::trimmed(s)),
{
    let t = gemini_event::text_and_raw(s, e);
    let pairs = seq![("text"@, JsonTree::Text(s)), ("raw"@, e)];
    reveal_strlit("text");
    reveal_strlit("raw");
    reveal_strlit("delta");
    assert("text"@.len() != "raw"@.len());
    laws_json::law_last_pair_is_read(pairs, 0);
    assert(pairs.drop_last().drop_last().len() == 0);
    assert(pairs.drop_last().last() == pairs[0]);
    laws_json::law_set_then_read(
        json::entries_from(pairs.drop_last()),
        "raw"@,
        e,
        "delta"@,
    );
    laws_json::law_set_then_read(
        json::entries_from(pairs.drop_last().drop_last()),
        "text"@,
        JsonTree::Text(s),
        "delta"@,
    );
    assert(t.field_text("delta"@) is None);
    lemma_own_text_second(t, s);
}

/// Where the first field is missing and the second holds a text, that text is
/// the object's own.
proof fn lemma_own_text_second(t: JsonTree, s: Seq<char>)
    requires
        t is Object,
        t.field_text("delta"@) is None,
        t.field_text("text"@) == Some(s),
        text::trimmed(s).len() > 0,
    ensures
        gemini_event::value_text(t, gemini_event::text_levels()) == Some(text::trimmed(s)),
{
    let candidates = seq![
        t.field_text("delta"@),
        t.field_text("text"@),
        t.field_text("message"@),
        t.field_text("content"@),
    ];
    assert(candidates.drop_first()[0] == Some(s));
    assert(gemini_event::first_non_blank(candidates.drop_first()) == Some(text::trimmed(s)));
}

// ---------------------------------------------------------------------------
// Turns
// ---------------------------------------------------------------------------

/// The turn after a run of lines.
pub open spec fn after_lines(s: TurnView, lines: Seq<Seq<char>>) -> TurnView
    decreases lines.len(),
{
    if lines.len() == 0 {
        s
    } else {
        gemini_turn::after_line(after_lines(s, lines.drop_last()), lines.last())
    }
}

/// What is reported of a run of lines.
pub open spec fn reported(s: TurnView, lines: Seq<Seq<char>>) -> Seq<EventView>
    decreases lines.len(),
{
    if lines.len() == 0 {
        Seq::empty()
    } else {
        reported(s, lines.drop_last()) + gemini_turn::line_events(
            after_lines(s, lines.drop_last()),
            lines.last(),
        )
    }
}

/// What events are counted for.
pub ghost enum EventSort {
    Session,
    Reasoning,
    Tool,
    Completed,
    Error,
}

/// The event is of the given sort.
pub open spec fn of_sort(event: EventView, sort: EventSort) -> bool {
    match sort {
        EventSort::Session => event is SessionStarted,
        EventSort::Reasoning => event is ReasoningDelta,
        EventSort::Tool => event is ToolStarted || event is ToolCompleted,
        EventSort::Completed => event is TurnCompleted,
        EventSort::Error => event is TurnError,
    }
}

/// How many events are of the given sort.
pub open spec fn how_many(events: Seq<EventView>, sort: EventSort) -> nat
    decreases events.len(),
{
    if events.len() == 0 {
        0
    } else {
        how_many(events.drop_last(), sort) + if of_sort(events.last(), sort) {
            1nat
        } else {
            0nat
        }
    }
}

/// The pieces of the answer among events, put together.
pub open spec fn answer_of(events: Seq<EventView>) -> Seq<char>
    decreases events.len(),
{
    if events.len() == 0 {
        Seq::empty()
    } else {
        match events.last() {
            EventView::TextDelta { text, .. } => answer_of(events.drop_last()) + text,
            _ => answer_of(events.drop_last()),
        }
    }
}

proof fn lemma_join(a: Seq<EventView>, b: Seq<EventView>, sort: EventSort)
    ensures
        how_many(a + b, sort) == how_many(a, sort) + how_many(b, sort),
        answer_of(a + b) == answer_of(a) + answer_of(b),
    decreases b.len(),
{
    if b.len() == 0 {
        assert(a + b =~= a);
        assert(answer_of(a) + answer_of(b) =~= answer_of(a));
    } else {
        lemma_join(a, b.drop_last(), sort);
        assert((a + b).drop_last() =~= a + b.drop_last());
        assert((a + b).last() == b.last());
        if let EventView::TextDelta { text, .. } = b.last() {
            assert(answer_of(a) + (answer_of(b.drop_last()) + text) =~= (answer_of(a) + answer_of(
                b.drop_last(),
            )) + text);
        }
    }
}

/// The events of one event of the stream, in parts.
proof fn lemma_events_of(s: TurnView, e: JsonTree, sort: EventSort)
    ensures
        how_many(gemini_turn::events_of(s, e), sort) == how_many(
            gemini_turn::session_events(s, e),
            sort,
        ) + how_many(gemini_turn::thought_events(s, e), sort) + (match gemini_event::gemini_event(
            s.workspace_id,
            e,
        ) {
            Some(event) => if of_sort(event, sort) {
                1nat
            } else {
                0nat
            },
            None => 0nat,
        }),
        how_many(gemini_turn::session_events(s, e), sort) == if sort is Session
            && gemini_turn::announces(s, e) {
            1nat
        } else {
            0nat
        },
        how_many(gemini_turn::thought_events(s, e), sort) == if sort is Reasoning
            && gemini_turn::side_thought(s, e) is Some {
            1nat
        } else {
            0nat
        },
        answer_of(gemini_turn::events_of(s, e)) == (match gemini_event::gemini_event(
            s.workspace_id,
            e,
        ) {
            Some(EventView::TextDelta { text, .. }) => text,
            _ => Seq::empty(),
        }),
{
    let first = gemini_turn::session_events(s, e);
    let second = gemini_turn::thought_events(s, e);
    let third = match gemini_event::gemini_event(s.workspace_id, e) {
        Some(event) => seq![event],
        None => Seq::empty(),
    };
    lemma_join(first, second, sort);
    lemma_join(first + second, third, sort);
    lemma_few(first, sort);
    lemma_few(second, sort);
    lemma_few(third, sort);
    assert(answer_of(gemini_turn::events_of(s, e)) =~= answer_of(third));
}

/// What a list of at most one event counts.
proof fn lemma_few(events: Seq<EventView>, sort: EventSort)
    requires
        events.len() <= 1,
    ensures
        how_many(events, sort) == if events.len() == 1 && of_sort(events[0], sort) {
            1nat
        } else {
            0nat
        },
        answer_of(events) == if events.len() == 1 {
            match events[0] {
                EventView::TextDelta { text, .. } => text,
                _ => Seq::empty(),
            }
        } else {
            Seq::empty()
        },
{
    if events.len() == 1 {
        assert(events.drop_last().len() == 0);
        assert(how_many(events.drop_last(), sort) == 0);
        assert(answer_of(events.drop_last()) =~= Seq::empty());
        if let EventView::TextDelta { text, .. } = events[0] {
            assert(Seq::<char>::empty() + text =~= text);
        }
    }
}

/// What is reported of one line belongs to the workspace.
proof fn lemma_line_stays_with_workspace(s: TurnView, line: Seq<char>)
    ensures
        gemini_turn::after_line(s, line).workspace_id == s.workspace_id,
        forall|i: int|
            0 <= i < gemini_turn::line_events(s, line).len() ==> (
            #[trigger] gemini_turn::line_events(s, line)[i]).workspace() == s.workspace_id,
{
    let t = text::trimmed(line);
    if t.len() > 0 && json::json_of_text(t) is Some {
        let e = json::json_of_text(t).unwrap();
        let first = gemini_turn::session_events(s, e);
        let second = gemini_turn::thought_events(s, e);
        let all = gemini_turn::events_of(s, e);
        law_event_belongs_to_workspace(s.workspace_id, e);
        assert forall|i: int| 0 <= i < all.len() implies (#[trigger] all[i]).workspace()
            == s.workspace_id by {
            if i < first.len() {
                assert(all[i] == first[i]);
            } else if i < first.len() + second.len() {
                assert(all[i] == second[i - first.len()]);
            }
        }
    }
}

/// A turn stays with its workspace, and so does everything that it reports.
pub proof fn law_turn_stays_with_workspace(s: TurnView, lines: Seq<Seq<char>>)
    ensures
        after_lines(s, lines).workspace_id == s.workspace_id,
        forall|i: int|
            0 <= i < reported(s, lines).len() ==> (#[trigger] reported(s, lines)[i]).workspace()
                == s.workspace_id,
    decreases lines.len(),
{
    if lines.len() > 0 {
        let before = reported(s, lines.drop_last());
        let mid = after_lines(s, lines.drop_last());
        law_turn_stays_with_workspace(s, lines.drop_last());
        lemma_line_stays_with_workspace(mid, lines.last());
        assert forall|i: int| 0 <= i < reported(s, lines).len() implies (
        #[trigger] reported(s, lines)[i]).workspace() == s.workspace_id by {
            if i < before.len() {
                assert(reported(s, lines)[i] == before[i]);
            } else {
                assert(reported(s, lines)[i] == gemini_turn::line_events(mid, lines.last())[i
                    - before.len()]);
            }
        }
    }
}

/// The session of a turn is announced at most once, under the id that the turn
/// keeps. A turn that has one keeps it.
pub proof fn law_session_is_announced_once(s: TurnView, lines: Seq<Seq<char>>)
    ensures
        how_many(reported(s, lines), EventSort::Session) <= 1,
        how_many(reported(s, lines), EventSort::Session) == 1 <==> s.session is None && after_lines(
            s,
            lines,
        ).session is Some,
        s.session is Some ==> after_lines(s, lines).session == s.session,
        forall|i: int|
            0 <= i < reported(s, lines).len() ==> match #[trigger] reported(s, lines)[i] {
                EventView::SessionStarted { session_id, .. } => after_lines(s, lines).session
                    == Some(session_id),
                _ => true,
            },
    decreases lines.len(),
{
    if lines.len() > 0 {
        let earlier = lines.drop_last();
        let before = reported(s, earlier);
        let mid = after_lines(s, earlier);
        law_session_is_announced_once(s, earlier);
        let added = gemini_turn::line_events(mid, lines.last());
        lemma_join(before, added, EventSort::Session);
        let t = text::trimmed(lines.last());
        if t.len() > 0 && json::json_of_text(t) is Some {
            lemma_events_of(mid, json::json_of_text(t).unwrap(), EventSort::Session);
        }
        assert(how_many(added, EventSort::Session) == if mid.session is None && after_lines(
            s,
            lines,
        ).session is Some {
            1nat
        } else {
            0nat
        });
        assert forall|i: int| 0 <= i < reported(s, lines).len() implies match #[trigger] reported(
            s,
            lines,
        )[i] {
            EventView::SessionStarted { session_id, .. } => after_lines(s, lines).session == Some(
                session_id,
            ),
            _ => true,
        } by {
            if i < before.len() {
                assert(reported(s, lines)[i] == before[i]);
            } else {
                assert(reported(s, lines)[i] == added[i - before.len()]);
            }
        }
    }
}

/// What a turn has noted is what it has reported: that it was completed, that
/// it failed, that tools ran and that there was reasoning.
pub proof fn law_notes_match_reports(s: TurnView, lines: Seq<Seq<char>>)
    ensures
        after_lines(s, lines).completed == (s.completed || how_many(
            reported(s, lines),
            EventSort::Completed,
        ) > 0),
        after_lines(s, lines).errored == (s.errored || how_many(
            reported(s, lines),
            EventSort::Error,
        ) > 0),
        after_lines(s, lines).tools == (s.tools || how_many(reported(s, lines), EventSort::Tool)
            > 0),
        after_lines(s, lines).reasoned == (s.reasoned || how_many(
            reported(s, lines),
            EventSort::Reasoning,
        ) > 0),
    decreases lines.len(),
{
    if lines.len() > 0 {
        let earlier = lines.drop_last();
        let before = reported(s, earlier);
        let mid = after_lines(s, earlier);
        law_notes_match_reports(s, earlier);
        let added = gemini_turn::line_events(mid, lines.last());
        lemma_join(before, added, EventSort::Completed);
        lemma_join(before, added, EventSort::Error);
        lemma_join(before, added, EventSort::Tool);
        lemma_join(before, added, EventSort::Reasoning);
        let t = text::trimmed(lines.last());
        if t.len() > 0 && json::json_of_text(t) is Some {
            let e = json::json_of_text(t).unwrap();
            lemma_events_of(mid, e, EventSort::Completed);
            lemma_events_of(mid, e, EventSort::Error);
            lemma_events_of(mid, e, EventSort::Tool);
            lemma_events_of(mid, e, EventSort::Reasoning);
        }
    }
}

/// The line completes the turn and brings the answer along, since there was none
/// yet.
pub open spec fn brings_answer(s: TurnView, line: Seq<char>) -> bool {
    let t = text::trimmed(line);
    &&& t.len() > 0
    &&& text::trimmed(s.response).len() == 0
    &&& match json::json_of_text(t) {
        Some(e) => match gemini_event::gemini_event(s.workspace_id, e) {
            Some(EventView::TurnCompleted { result: Some(value), .. }) => gemini_event::value_text(
                value,
                gemini_event::text_levels(),
            ) is Some,
            _ => false,
        },
        None => false,
    }
}

/// Some line of a run completes the turn and brings the answer along.
pub open spec fn answer_is_brought(s: TurnView, lines: Seq<Seq<char>>) -> bool
    decreases lines.len(),
{
    if lines.len() == 0 {
        false
    } else {
        answer_is_brought(s, lines.drop_last()) || brings_answer(
            after_lines(s, lines.drop_last()),
            lines.last(),
        )
    }
}

/// The answer of a turn is what it has reported of it, piece by piece, unless a
/// line that completed the turn brought an answer along where there was none.
pub proof fn law_answer_is_what_was_reported(s: TurnView, lines: Seq<Seq<char>>)
    requires
        !answer_is_brought(s, lines),
    ensures
        after_lines(s, lines).response == s.response + answer_of(reported(s, lines)),
    decreases lines.len(),
{
    if lines.len() == 0 {
        assert(s.response + answer_of(reported(s, lines)) =~= s.response);
    } else {
        let earlier = lines.drop_last();
        let before = reported(s, earlier);
        let mid = after_lines(s, earlier);
        let added = gemini_turn::line_events(mid, lines.last());
        lemma_join(before, added, EventSort::Completed);
        law_answer_is_what_was_reported(s, earlier);
        lemma_line_answer(mid, lines.last());
        assert(s.response + answer_of(before) + answer_of(added) =~= s.response + (answer_of(
            before,
        ) + answer_of(added)));
    }
}

/// A line that brings no answer along adds what is reported of it, which is
/// nothing or more than white space.
proof fn lemma_line_answer(s: TurnView, line: Seq<char>)
    ensures
        !brings_answer(s, line) ==> gemini_turn::after_line(s, line).response == s.response
            + answer_of(gemini_turn::line_events(s, line)),
        ({
            let piece = answer_of(gemini_turn::line_events(s, line));
            piece.len() > 0 ==> text::trimmed(piece).len() > 0
        }),
        brings_answer(s, line) ==> how_many(
            gemini_turn::line_events(s, line),
            EventSort::Completed,
        ) > 0,
{
    let added = gemini_turn::line_events(s, line);
    let t = text::trimmed(line);
    if t.len() > 0 && json::json_of_text(t) is Some {
        let e = json::json_of_text(t).unwrap();
        lemma_events_of(s, e, EventSort::Completed);
        law_deltas_are_never_blank(s.workspace_id, e);
    } else {
        lemma_few(added, EventSort::Completed);
    }
    if !brings_answer(s, line) {
        assert(gemini_turn::after_line(s, line).response =~= s.response + answer_of(added));
    }
}

/// What was reported of the answer is nothing or more than white space.
proof fn lemma_reported_answer(s: TurnView, lines: Seq<Seq<char>>)
    requires
        answer_of(reported(s, lines)).len() > 0,
    ensures
        text::trimmed(answer_of(reported(s, lines))).len() > 0,
    decreases lines.len(),
{
    if lines.len() > 0 {
        let earlier = lines.drop_last();
        let before = reported(s, earlier);
        let mid = after_lines(s, earlier);
        let added = gemini_turn::line_events(mid, lines.last());
        lemma_join(before, added, EventSort::Completed);
        if answer_of(before).len() > 0 {
            lemma_reported_answer(s, earlier);
            lemma_longer_not_blank(answer_of(before), answer_of(added));
        } else {
            lemma_line_answer(mid, lines.last());
            assert(answer_of(before) + answer_of(added) =~= answer_of(added));
        }
    }
}

/// A run of lines that completes nothing brings no answer along.
proof fn lemma_nothing_brought(s: TurnView, lines: Seq<Seq<char>>)
    requires
        how_many(reported(s, lines), EventSort::Completed) == 0,
    ensures
        !answer_is_brought(s, lines),
    decreases lines.len(),
{
    if lines.len() > 0 {
        let earlier = lines.drop_last();
        let mid = after_lines(s, earlier);
        lemma_join(
            reported(s, earlier),
            gemini_turn::line_events(mid, lines.last()),
            EventSort::Completed,
        );
        lemma_nothing_brought(s, earlier);
        lemma_line_answer(mid, lines.last());
    }
}

/// Where nothing was brought along up to a line behind which there is an answer,
/// nothing is brought along later.
proof fn lemma_answer_stays(s: TurnView, lines: Seq<Seq<char>>, n: int)
    requires
        0 <= n <= lines.len(),
        !answer_is_brought(s, lines.take(n)),
        text::trimmed(after_lines(s, lines.take(n)).response).len() > 0,
    ensures
        !answer_is_brought(s, lines),
        text::trimmed(after_lines(s, lines).response).len() > 0,
    decreases lines.len(),
{
    if n == lines.len() {
        assert(lines.take(n) =~= lines);
    } else {
        let earlier = lines.drop_last();
        assert(earlier.take(n) =~= lines.take(n));
        lemma_answer_stays(s, earlier, n);
        let mid = after_lines(s, earlier);
        lemma_line_answer(mid, lines.last());
        lemma_longer_not_blank(
            mid.response,
            answer_of(gemini_turn::line_events(mid, lines.last())),
        );
    }
}

/// The answer of a turn is what it has reported of it, piece by piece, where a
/// piece of it comes before the first line that completes the turn, or where no
/// line does. The first `n` lines are those before that line.
pub proof fn law_begun_answer_is_what_was_reported(s: TurnView, lines: Seq<Seq<char>>, n: int)
    requires
        0 <= n <= lines.len(),
        how_many(reported(s, lines.take(n)), EventSort::Completed) == 0,
        n == lines.len() || text::trimmed(s.response).len() > 0 || answer_of(
            reported(s, lines.take(n)),
        ).len() > 0,
    ensures
        after_lines(s, lines).response == s.response + answer_of(reported(s, lines)),
{
    let first = lines.take(n);
    lemma_nothing_brought(s, first);
    if n == lines.len() {
        assert(first =~= lines);
    } else {
        let piece = answer_of(reported(s, first));
        law_answer_is_what_was_reported(s, first);
        if piece.len() > 0 {
            lemma_reported_answer(s, first);
            lemma_later_not_blank(s.response, piece);
        } else {
            assert(s.response + piece =~= s.response);
        }
        lemma_answer_stays(s, lines, n);
    }
    law_answer_is_what_was_reported(s, lines);
}

/// The texts stand in their order, and none stands twice.
pub open spec fn in_order(list: Seq<Seq<char>>) -> bool {
    forall|i: int, j: int|
        0 <= i < j < list.len() ==> json::text_before(#[trigger] list[i], #[trigger] list[j])
}

/// A list with a text put into it holds that text and what it held before.
proof fn lemma_listed_holds(list: Seq<Seq<char>>, t: Seq<char>, x: Seq<char>)
    ensures
        gemini_turn::listed(list, t).contains(x) == (x == t || list.contains(x)),
    decreases list.len(),
{
    let after = gemini_turn::listed(list, t);
    if list.len() == 0 {
        assert(after[0] == t);
    } else if list[0] == t {
        assert(list[0] == t);
    } else if json::text_before(t, list[0]) {
        assert(after[0] == t);
        if after.contains(x) && x != t {
            let i = choose|i: int| 0 <= i < after.len() && after[i] == x;
            assert(list[i - 1] == x);
        }
        if list.contains(x) {
            let i = choose|i: int| 0 <= i < list.len() && list[i] == x;
            assert(after[i + 1] == x);
        }
    } else {
        let rest = list.drop_first();
        let tail = gemini_turn::listed(rest, t);
        lemma_listed_holds(rest, t, x);
        assert(after[0] == list[0]);
        if after.contains(x) && x != list[0] {
            let i = choose|i: int| 0 <= i < after.len() && after[i] == x;
            assert(tail[i - 1] == x);
            assert(tail.contains(x));
        }
        if tail.contains(x) {
            let i = choose|i: int| 0 <= i < tail.len() && tail[i] == x;
            assert(after[i + 1] == x);
        }
        if rest.contains(x) {
            let i = choose|i: int| 0 <= i < rest.len() && rest[i] == x;
            assert(list[i + 1] == x);
        }
        if list.contains(x) && x != list[0] {
            let i = choose|i: int| 0 <= i < list.len() && list[i] == x;
            assert(rest[i - 1] == x);
            assert(rest.contains(x));
        }
    }
}

/// Putting a text into a list in order keeps it in order.
proof fn lemma_listed(list: Seq<Seq<char>>, t: Seq<char>)
    requires
        in_order(list),
    ensures
        in_order(gemini_turn::listed(list, t)),
    decreases list.len(),
{
    let after = gemini_turn::listed(list, t);
    if list.len() > 0 {
        let rest = list.drop_first();
        let tail = gemini_turn::listed(rest, t);
        assert(in_order(rest)) by {
            assert forall|i: int, j: int| 0 <= i < j < rest.len() implies json::text_before(
                #[trigger] rest[i],
                #[trigger] rest[j],
            ) by {
                assert(rest[i] == list[i + 1] && rest[j] == list[j + 1]);
            }
        }
        lemma_listed(rest, t);
        laws_json::law_text_order_is_total(t, list[0]);
        assert forall|i: int, j: int| 0 <= i < j < after.len() implies json::text_before(
            #[trigger] after[i],
            #[trigger] after[j],
        ) by {
            if list[0] == t {
                assert(after == list);
            } else if json::text_before(t, list[0]) {
                assert(after[j] == list[j - 1]);
                if i > 0 {
                    assert(after[i] == list[i - 1]);
                } else if j > 1 {
                    laws_json::law_text_order_is_transitive(t, list[0], list[j - 1]);
                }
            } else {
                assert(after[j] == tail[j - 1]);
                if i > 0 {
                    assert(after[i] == tail[i - 1]);
                } else if tail[j - 1] != t {
                    lemma_listed_holds(rest, t, tail[j - 1]);
                    assert(tail.contains(tail[j - 1]));
                    let k = choose|k: int| 0 <= k < rest.len() && rest[k] == tail[j - 1];
                    assert(list[k + 1] == tail[j - 1]);
                }
            }
        }
    }
}

/// The types of the events that were seen are listed in order, each once.
pub proof fn law_observed_types_are_listed_once(s: TurnView, lines: Seq<Seq<char>>)
    requires
        in_order(s.observed),
    ensures
        in_order(after_lines(s, lines).observed),
    decreases lines.len(),
{
    if lines.len() > 0 {
        law_observed_types_are_listed_once(s, lines.drop_last());
        let mid = after_lines(s, lines.drop_last());
        let t = text::trimmed(lines.last());
        if t.len() > 0 && json::json_of_text(t) is Some {
            let e = json::json_of_text(t).unwrap();
            if let Some(kind) = e.field_text("type"@) {
                lemma_listed(mid.observed, kind);
            }
        }
    }
}

/// The type of an event that was taken in is among those that were seen.
pub proof fn law_type_is_observed(s: TurnView, e: JsonTree)
    requires
        e.field_text("type"@) is Some,
    ensures
        gemini_turn::after_event(s, e).observed.contains(e.field_text("type"@).unwrap()),
{
    let kind = e.field_text("type"@).unwrap();
    lemma_listed_holds(s.observed, kind, kind);
}

/// A thought that an event shows on the side is reported only when it differs
/// from the reasoning that was reported last.
pub proof fn law_thoughts_are_not_repeated(s: TurnView, e: JsonTree)
    ensures
        match gemini_turn::side_thought(s, e) {
            Some(thought) => thought != s.last_reasoning && gemini_turn::after_thought(
                s,
                e,
            ).last_reasoning == thought,
            None => gemini_turn::after_thought(s, e).last_reasoning == s.last_reasoning,
        },
{
}

/// Of the reasoning in the record of a session, nothing is reported twice in a
/// row, nor what was reported last before.
pub proof fn law_recorded_reasoning_is_not_repeated(last: Seq<char>, found: Seq<Seq<char>>)
    ensures
        ({
            let fresh = gemini_turn::fresh_texts(last, found);
            &&& fresh.len() > 0 ==> fresh[0] != last
            &&& forall|i: int| 0 < i < fresh.len() ==> #[trigger] fresh[i] != fresh[i - 1]
            &&& gemini_turn::last_after(last, found) == if fresh.len() == 0 {
                last
            } else {
                fresh.last()
            }
        }),
    decreases found.len(),
{
    if found.len() > 0 {
        law_recorded_reasoning_is_not_repeated(last, found.drop_last());
    }
}

/// Every turn ends with a report: that it was completed or that it failed was
/// reported before, or is reported at its end.
pub proof fn law_every_turn_is_closed(
    s: TurnView,
    exit: Option<ExitView>,
    stderr: Seq<char>,
    interrupted: bool,
)
    ensures
        ({
            let end = gemini_turn::outcome(s, exit, stderr, interrupted);
            ||| s.completed
            ||| s.errored
            ||| end.events.len() == 1 && (end.events[0] is TurnCompleted || end.events[0]
                is TurnError)
        }),
{
}

/// Over a whole turn, from its first line to its end, it is reported that the
/// turn was completed or that it failed.
pub proof fn law_whole_turn_is_closed(
    workspace_id: Seq<char>,
    lines: Seq<Seq<char>>,
    exit: Option<ExitView>,
    stderr: Seq<char>,
    interrupted: bool,
)
    ensures
        ({
            let start = gemini_turn::fresh_turn(workspace_id);
            let end = gemini_turn::outcome(after_lines(start, lines), exit, stderr, interrupted);
            let all = reported(start, lines) + end.events;
            how_many(all, EventSort::Completed) + how_many(all, EventSort::Error) > 0
        }),
{
    let start = gemini_turn::fresh_turn(workspace_id);
    let s = after_lines(start, lines);
    let end = gemini_turn::outcome(s, exit, stderr, interrupted);
    law_notes_match_reports(start, lines);
    law_every_turn_is_closed(s, exit, stderr, interrupted);
    lemma_join(reported(start, lines), end.events, EventSort::Completed);
    lemma_join(reported(start, lines), end.events, EventSort::Error);
    if end.events.len() <= 1 {
        lemma_few(end.events, EventSort::Completed);
        lemma_few(end.events, EventSort::Error);
    }
}

/// A turn that fails says so in an event with the same message, unless an error
/// was reported before, and leaves the session id alone.
pub proof fn law_failure_is_reported(
    s: TurnView,
    exit: Option<ExitView>,
    stderr: Seq<char>,
    interrupted: bool,
)
    ensures
        match gemini_turn::outcome(s, exit, stderr, interrupted).result {
            Err(error) => {
                let end = gemini_turn::outcome(s, exit, stderr, interrupted);
                &&& end.session is None
                &&& end.events == seq![gemini_turn::error_view(s, error)] || (s.errored
                    && end.events.len() == 0)
            },
            Ok(_) => true,
        },
{
}

/// A turn that succeeds returns the answer as it was put together. Its process
/// did not fail, and there was an answer or tools ran.
pub proof fn law_success_returns_the_answer(
    s: TurnView,
    exit: Option<ExitView>,
    stderr: Seq<char>,
    interrupted: bool,
)
    ensures
        match gemini_turn::outcome(s, exit, stderr, interrupted).result {
            Ok(answer) => {
                &&& answer == s.response
                &&& exit matches Some(report) ==> report.success
                &&& exit is None ==> !interrupted
                &&& text::trimmed(answer).len() > 0 || s.tools
                &&& gemini_turn::outcome(s, exit, stderr, interrupted).session == s.session
            },
            Err(_) => true,
        },
{
}

/// An answer is never lost: where the process ended well and there is an
/// answer, the turn succeeds with it.
pub proof fn law_answer_is_never_lost(
    s: TurnView,
    exit: Option<ExitView>,
    stderr: Seq<char>,
    interrupted: bool,
)
    requires
        exit matches Some(report) && report.success,
        text::trimmed(s.response).len() > 0,
    ensures
        gemini_turn::outcome(s, exit, stderr, interrupted).result == Ok::<Seq<char>, Seq<char>>(
            s.response,
        ),
{
}

/// An interrupted turn whose process did not end well is reported as stopped,
/// and the interruption is used up.
pub proof fn law_interruption_stops_the_turn(s: TurnView, exit: Option<ExitView>, stderr: Seq<char>)
    requires
        !(exit matches Some(report) && report.success),
    ensures
        gemini_turn::outcome(s, exit, stderr, true).result == Err::<Seq<char>, Seq<char>>(
            "Session stopped."@,
        ),
        gemini_turn::outcome(s, exit, stderr, true).clears_interrupt,
{
}

/// The answer can be read back from the event that closes a turn that was not
/// completed otherwise.
pub proof fn law_closing_event_holds_the_answer(s: TurnView)
    requires
        text::trimmed(s.response).len() > 0,
    ensures
        gemini_event::value_text(
            gemini_turn::text_object(s.response),
            gemini_event::text_levels(),
        ) == Some(text::trimmed(s.response)),
{
    let t = gemini_turn::text_object(s.response);
    let entries = seq![("text"@, JsonTree::Text(s.response))];
    reveal_strlit("text");
    reveal_strlit("delta");
    assert("text"@.len() != "delta"@.len());
    assert(entries.drop_first().len() == 0);
    assert(json::lookup(entries.drop_first(), "delta"@) is None);
    lemma_own_text_second(t, s.response);
}

// ---------------------------------------------------------------------------
// Records
// ---------------------------------------------------------------------------

/// What stands before a message of the user has no part in the latest turn.
pub proof fn law_earlier_turns_are_left_out(
    before: Seq<MessageView>,
    user: MessageView,
    after: Seq<MessageView>,
)
    requires
        text::lowered(user.role) == text::lowered("user"@),
    ensures
        gemini_history::latest_reasoning(before.push(user) + after)
            == gemini_history::latest_reasoning(after),
    decreases after.len(),
{
    let all = before.push(user) + after;
    if after.len() == 0 {
        assert(all.last() == user);
    } else {
        assert(all.last() == after.last());
        assert(all.drop_last() =~= before.push(user) + after.drop_last());
        law_earlier_turns_are_left_out(before, user, after.drop_last());
    }
}

/// The reasoning texts of a record are trimmed and never blank.
pub proof fn law_recorded_reasoning_is_never_blank(messages: Seq<MessageView>)
    ensures
        forall|i: int|
            0 <= i < gemini_history::latest_reasoning(messages).len() ==> {
                let t = #[trigger] gemini_history::latest_reasoning(messages)[i];
                t.len() > 0 && text::trimmed(t) == t
            },
    decreases messages.len(),
{
    if messages.len() > 0 && text::lowered(messages.last().role) != text::lowered("user"@) {
        law_recorded_reasoning_is_never_blank(messages.drop_last());
        text::lemma_trimmed_twice(messages.last().text);
        let before = gemini_history::latest_reasoning(messages.drop_last());
        let all = gemini_history::latest_reasoning(messages);
        assert forall|i: int| 0 <= i < all.len() implies {
            let t = #[trigger] all[i];
            t.len() > 0 && text::trimmed(t) == t
        } by {
            if i < before.len() {
                assert(all[i] == before[i]);
            }
        }
    }
}

} // verus!
