//! Which unified event an event of the Gemini stream is.
use crate::events::EventView;
use crate::gemini_event;
use crate::json;
use crate::json::JsonTree;
use crate::laws_event;
use crate::laws_gemini;
use crate::laws_json;
use crate::laws_prompt;
use crate::laws_text;
use crate::text;
use vstd::prelude::*;
use vstd::string::*;

verus! {

/// The session is announced by events of the type `init` alone, under
/// `session_id` or else `sessionId`.
pub proof fn law_session_announcement(e: JsonTree, found: Option<Seq<char>>)
    requires
        laws_text::first_said(
            seq![e.field_text("session_id"@), e.field_text("sessionId"@)],
            found,
        ),
    ensures
        e.field_text("type"@) == Some("init"@) ==> gemini_event::announced_session(e) == found,
        e.field_text("type"@) != Some("init"@) ==> gemini_event::announced_session(e) is None,
{
    laws_event::lemma_first_said(
        seq![e.field_text("session_id"@), e.field_text("sessionId"@)],
        found,
    );
}

/// The text of an event is the first that its fields `delta`, `text` and
/// `message` say; else the text of its `content`; else that of the event as a
/// value.
pub proof fn law_text_of_an_event(e: JsonTree, found: Option<Seq<char>>)
    requires
        laws_text::first_said(
            seq![e.field_text("delta"@), e.field_text("text"@), e.field_text("message"@)],
            found,
        ),
    ensures
        found is Some ==> gemini_event::event_text(e) == found,
        found is None ==> gemini_event::event_text(e) == (match e.field("content"@) {
            Some(value) => match gemini_event::value_text(value, 5) {
                Some(t) => Some(t),
                None => gemini_event::value_text(e, 5),
            },
            None => gemini_event::value_text(e, 5),
        }),
{
    let c = seq![e.field_text("delta"@), e.field_text("text"@), e.field_text("message"@)];
    laws_event::lemma_first_said(c, found);
    if let Some(t) = found {
        let i = choose|i: int|
            0 <= i < c.len() && (#[trigger] c[i] matches Some(x) && t == text::trimmed(x));
        text::lemma_trimmed_twice(c[i].unwrap());
    }
    laws_gemini::law_value_text_is_never_blank(e, 5);
    if let Some(value) = e.field("content"@) {
        laws_gemini::law_value_text_is_never_blank(value, 5);
    }
}

/// The text of a reasoning event is that of the event; else the event read as a
/// thought; else its `thought`, `currentThought` or `latestThought`; else the
/// latest thought anywhere in it.
pub proof fn law_text_of_reasoning(e: JsonTree)
    ensures
        ({
            let r = gemini_event::reasoning_text(e);
            let own = gemini_event::event_text(e);
            let thought = gemini_event::thought_text(e);
            let a = laws_event::thought_under(e, "thought"@);
            let b = laws_event::thought_under(e, "currentThought"@);
            let c = laws_event::thought_under(e, "latestThought"@);
            &&& own is Some ==> r == own
            &&& own is None && thought is Some ==> r == thought
            &&& own is None && thought is None && a is Some ==> r == a
            &&& own is None && thought is None && a is None && b is Some ==> r == b
            &&& own is None && thought is None && a is None && b is None && c is Some ==> r == c
            &&& own is None && thought is None && a is None && b is None && c is None ==> r
                == gemini_event::latest_thought(e, 7)
        }),
{
}

/// A word speaks of reasoning when it holds one of three words, whatever the case
/// of its letters and the white space at its ends.
pub proof fn law_reasoning_words(s: Seq<char>)
    ensures
        ({
            let n = text::lowered(text::trimmed(s));
            gemini_event::reasoning_keyword(s) <==> text::has_text(n, "reason"@) || text::has_text(
                n,
                "think"@,
            ) || text::has_text(n, "thought"@)
        }),
{
    reveal_strlit("reason");
    reveal_strlit("think");
    reveal_strlit("thought");
}

proof fn lemma_normalized_twice(s: Seq<char>)
    ensures
        gemini_event::normalized(gemini_event::normalized(s)) == gemini_event::normalized(s),
{
    let t = text::trimmed(s);
    text::lemma_trimmed_twice(s);
    laws_prompt::lemma_lowered_trimmed(t);
    laws_prompt::lemma_lowered_twice(t);
}

proof fn lemma_starts_with(s: Seq<char>, pat: Seq<char>)
    requires
        pat.len() <= s.len(),
        s.subrange(0, pat.len() as int) == pat,
    ensures
        text::has_text(s, pat),
{
    assert(text::occurs_at(s, pat, 0));
}

/// A type is one of reasoning when it holds one of the three words of reasoning.
pub proof fn law_reasoning_types(kind: Seq<char>)
    ensures
        ({
            let n = text::lowered(text::trimmed(kind));
            gemini_event::reasoning_type(kind) <==> text::has_text(n, "reason"@) || text::has_text(
                n,
                "think"@,
            ) || text::has_text(n, "thought"@)
        }),
{
    let n = gemini_event::normalized(kind);
    lemma_normalized_twice(kind);
    law_reasoning_words(n);
    reveal_strlit("reason");
    reveal_strlit("think");
    reveal_strlit("thought");
    reveal_strlit("reasoning");
    reveal_strlit("reasoning_delta");
    reveal_strlit("thinking");
    reveal_strlit("thinking_delta");
    reveal_strlit("thought_delta");
    if gemini_event::reasoning_type_name(n) {
        if n == "reasoning"@ || n == "reasoning_delta"@ {
            assert(n.subrange(0, 6) =~= "reason"@);
            lemma_starts_with(n, "reason"@);
        } else if n == "thinking"@ || n == "thinking_delta"@ {
            assert(n.subrange(0, 5) =~= "think"@);
            lemma_starts_with(n, "think"@);
        } else {
            assert(n.subrange(0, 7) =~= "thought"@);
            lemma_starts_with(n, "thought"@);
        }
    }
}

/// A type is one of text when it is the name `content_delta` or holds the word
/// message or the word text.
pub proof fn law_text_types(kind: Seq<char>)
    ensures
        ({
            let n = text::lowered(text::trimmed(kind));
            gemini_event::text_like_type(kind) <==> n == "content_delta"@ || text::has_text(
                n,
                "message"@,
            ) || text::has_text(n, "text"@)
        }),
{
    let n = gemini_event::normalized(kind);
    reveal_strlit("text");
    reveal_strlit("message");
    reveal_strlit("content_delta");
    reveal_strlit("text_delta");
    reveal_strlit("output_text_delta");
    reveal_strlit("assistant_message_delta");
    reveal_strlit("message_delta");
    reveal_strlit("assistant_message");
    if gemini_event::text_type_name(n) {
        if n == "text"@ || n == "text_delta"@ {
            assert(n.subrange(0, 4) =~= "text"@);
            lemma_starts_with(n, "text"@);
        } else if n == "message_delta"@ {
            assert(n.subrange(0, 7) =~= "message"@);
            lemma_starts_with(n, "message"@);
        } else if n == "output_text_delta"@ {
            assert(n.subrange(7, 11) =~= "text"@);
            assert(text::occurs_at(n, "text"@, 7));
        } else if n != "content_delta"@ {
            assert(n.subrange(10, 17) =~= "message"@);
            assert(text::occurs_at(n, "message"@, 10));
        }
    }
}

/// The types that end a turn, whatever the case of their letters and the white
/// space at their ends.
pub proof fn law_completion_types(kind: Seq<char>)
    ensures
        ({
            let n = text::lowered(text::trimmed(kind));
            gemini_event::completion_type(kind) <==> seq![
                "result"@,
                "done"@,
                "complete"@,
                "completed"@,
                "final"@,
                "turn_completed"@,
                "turn.complete"@,
                "response_complete"@,
                "response.completed"@,
            ].contains(n)
        }),
{
    let n = text::lowered(text::trimmed(kind));
    let names = seq![
        "result"@,
        "done"@,
        "complete"@,
        "completed"@,
        "final"@,
        "turn_completed"@,
        "turn.complete"@,
        "response_complete"@,
        "response.completed"@,
    ];
    assert(names[0] == "result"@ && names[1] == "done"@ && names[2] == "complete"@ && names[3]
        == "completed"@ && names[4] == "final"@ && names[5] == "turn_completed"@ && names[6]
        == "turn.complete"@ && names[7] == "response_complete"@ && names[8]
        == "response.completed"@);
}

/// A flag is set when it is true, an integer other than zero, or one of four
/// words; and not when it is anything else or not there.
pub proof fn law_flags(
    b: bool,
    n: serde_json::Number,
    s: Seq<char>,
    items: Seq<JsonTree>,
    entries: Seq<(Seq<char>, JsonTree)>,
)
    ensures
        gemini_event::truthy(Some(JsonTree::Bool(b))) == b,
        gemini_event::truthy(Some(JsonTree::Number(n))) <==> (json::number_int(n) matches Some(i)
            && i != 0),
        gemini_event::truthy(Some(JsonTree::Text(s))) <==> ({
            let w = text::lowered(text::trimmed(s));
            w == "1"@ || w == "true"@ || w == "yes"@ || w == "on"@
        }),
        !gemini_event::truthy(Some(JsonTree::Array(items))),
        !gemini_event::truthy(Some(JsonTree::Object(entries))),
        !gemini_event::truthy(Some(JsonTree::Null)),
        !gemini_event::truthy(None),
{
}

/// The field under the first of two keys that is there is a set flag.
pub open spec fn flagged(e: JsonTree, a: Seq<char>, b: Seq<char>) -> bool {
    match e.field(a) {
        Some(value) => gemini_event::truthy(Some(value)),
        None => gemini_event::truthy(e.field(b)),
    }
}

/// The text under a key speaks of reasoning.
pub open spec fn speaks_of_reasoning(e: JsonTree, key: Seq<char>) -> bool {
    match e.field_text(key) {
        Some(s) => {
            let n = text::lowered(text::trimmed(s));
            text::has_text(n, "reason"@) || text::has_text(n, "think"@) || text::has_text(
                n,
                "thought"@,
            )
        },
        None => false,
    }
}

/// A message carries reasoning when its role, kind or channel speaks of it, or
/// when it is flagged as a thought or as reasoning.
pub proof fn law_reasoning_messages(e: JsonTree, role: Seq<char>)
    ensures
        gemini_event::message_is_reasoning(e, role) <==> {
            ||| gemini_event::reasoning_keyword(role)
            ||| speaks_of_reasoning(e, "kind"@)
            ||| speaks_of_reasoning(e, "channel"@)
            ||| flagged(e, "isThought"@, "is_thought"@)
            ||| flagged(e, "isReasoning"@, "is_reasoning"@)
        },
{
    law_reasoning_words(gemini_event::text_or_empty(e, "kind"@));
    law_reasoning_words(gemini_event::text_or_empty(e, "channel"@));
    text::lemma_trimmed_blank(Seq::empty());
    reveal_strlit("reason");
    reveal_strlit("think");
    reveal_strlit("thought");
}

// ---------------------------------------------------------------------------
// Events by their types
// ---------------------------------------------------------------------------

/// Names of types that are told apart by their letters.
proof fn lemma_special_names()
    ensures
        forall|kind: Seq<char>|
            kind == "message"@ || kind == "tool_use"@ || kind == "tool_result"@ || kind == "error"@
                ==> !#[trigger] gemini_event::text_type_name(kind)
                && !gemini_event::reasoning_type_name(kind),
        forall|kind: Seq<char>| #[trigger]
            gemini_event::reasoning_type_name(kind) ==> !gemini_event::text_type_name(kind),
        "message"@ != "tool_use"@,
        "message"@ != "tool_result"@,
        "message"@ != "error"@,
        "tool_use"@ != "tool_result"@,
        "tool_use"@ != "error"@,
        "tool_result"@ != "error"@,
{
    reveal_strlit("text");
    reveal_strlit("content_delta");
    reveal_strlit("text_delta");
    reveal_strlit("output_text_delta");
    reveal_strlit("assistant_message_delta");
    reveal_strlit("message_delta");
    reveal_strlit("assistant_message");
    reveal_strlit("reasoning");
    reveal_strlit("reasoning_delta");
    reveal_strlit("thinking");
    reveal_strlit("thinking_delta");
    reveal_strlit("thought");
    reveal_strlit("thought_delta");
    reveal_strlit("message");
    reveal_strlit("tool_use");
    reveal_strlit("tool_result");
    reveal_strlit("error");
    assert("message"@.len() == 7 && "tool_use"@.len() == 8 && "tool_result"@.len() == 11
        && "error"@.len() == 5);
    assert forall|kind: Seq<char>|
        kind == "message"@ || kind == "tool_use"@ || kind == "tool_result"@ || kind
            == "error"@ implies !#[trigger] gemini_event::text_type_name(kind)
        && !gemini_event::reasoning_type_name(kind) by {
        assert(kind[1] == 'e' || kind[1] == 'o' || kind[1] == 'r');
        assert(kind[0] == 'm' || kind[0] == 't' || kind[0] == 'e');
    }
    assert forall|kind: Seq<char>| #[trigger]
        gemini_event::reasoning_type_name(kind) implies !gemini_event::text_type_name(kind) by {
        assert(kind[0] == 'r' || kind[1] == 'h');
    }
}

/// The event with a text, if there is one.
pub open spec fn as_text(ws: Seq<char>, t: Option<Seq<char>>) -> Option<EventView> {
    match t {
        Some(text) => Some(EventView::TextDelta { workspace_id: ws, text }),
        None => None,
    }
}

/// The event with a piece of reasoning, if there is one.
pub open spec fn as_reasoning(ws: Seq<char>, t: Option<Seq<char>>) -> Option<EventView> {
    match t {
        Some(text) => Some(EventView::ReasoningDelta { workspace_id: ws, text }),
        None => None,
    }
}

/// Events of these types are pieces of the answer, if they have a text.
pub proof fn law_text_events(ws: Seq<char>, e: JsonTree, kind: Seq<char>)
    requires
        e.field_text("type"@) == Some(kind),
        kind == "text"@ || kind == "content_delta"@ || kind == "text_delta"@ || kind
            == "output_text_delta"@ || kind == "assistant_message_delta"@ || kind
            == "message_delta"@ || kind == "assistant_message"@,
    ensures
        gemini_event::gemini_event(ws, e) == as_text(ws, gemini_event::event_text(e)),
{
}

/// Events of these types are pieces of reasoning, if they have a text.
pub proof fn law_reasoning_events(ws: Seq<char>, e: JsonTree, kind: Seq<char>)
    requires
        e.field_text("type"@) == Some(kind),
        kind == "reasoning"@ || kind == "reasoning_delta"@ || kind == "thinking"@ || kind
            == "thinking_delta"@ || kind == "thought"@ || kind == "thought_delta"@,
    ensures
        gemini_event::gemini_event(ws, e) == as_reasoning(ws, gemini_event::reasoning_text(e)),
{
    lemma_special_names();
    assert(gemini_event::reasoning_type_name(kind));
}

/// A message of neither the user nor the system is a piece of reasoning where it
/// carries reasoning, and else a piece of the answer, if it has a text.
pub proof fn law_message_events(ws: Seq<char>, e: JsonTree, role: Seq<char>)
    requires
        e.field_text("type"@) == Some("message"@),
        role == (match e.field_text("role"@) {
            Some(r) => text::lowered(r),
            None => Seq::empty(),
        }),
    ensures
        role == "user"@ || role == "system"@ ==> gemini_event::gemini_event(ws, e) is None,
        role != "user"@ && role != "system"@ && gemini_event::message_is_reasoning(e, role)
            ==> gemini_event::gemini_event(ws, e) == as_reasoning(
            ws,
            gemini_event::reasoning_text(e),
        ),
        role != "user"@ && role != "system"@ && !gemini_event::message_is_reasoning(e, role)
            ==> gemini_event::gemini_event(ws, e) == as_text(ws, gemini_event::event_text(e)),
{
    lemma_special_names();
    assert(!gemini_event::text_type_name("message"@));
    assert(role =~= text::lowered(gemini_event::text_or_empty(e, "role"@)));
}

/// The start of a tool is reported under its id, and not at all without one. It
/// has a name, `tool` if none is given, and the input that is there.
pub proof fn law_tool_start(
    ws: Seq<char>,
    e: JsonTree,
    id: Option<Seq<char>>,
    name: Option<Seq<char>>,
)
    requires
        e.field_text("type"@) == Some("tool_use"@),
        laws_text::first_said(
            seq![e.field_text("tool_id"@), e.field_text("toolId"@), e.field_text("id"@)],
            id,
        ),
        laws_text::first_said(
            seq![e.field_text("tool_name"@), e.field_text("toolName"@), e.field_text("name"@)],
            name,
        ),
    ensures
        id is None ==> gemini_event::gemini_event(ws, e) is None,
        id is Some ==> (gemini_event::gemini_event(ws, e) matches Some(
            EventView::ToolStarted { workspace_id, tool_id, tool_name, input },
        ) && {
            &&& workspace_id == ws
            &&& Some(tool_id) == id
            &&& name is Some ==> Some(tool_name) == name
            &&& name is None ==> tool_name == "tool"@
            &&& e.field("parameters"@) is Some ==> input == e.field("parameters"@)
            &&& e.field("parameters"@) is None && e.field("args"@) is Some ==> input == e.field(
                "args"@,
            )
            &&& e.field("parameters"@) is None && e.field("args"@) is None ==> input == e.field(
                "input"@,
            )
        }),
{
    lemma_special_names();
    assert(!gemini_event::text_type_name("tool_use"@));
    laws_event::lemma_first_said(
        seq![e.field_text("tool_id"@), e.field_text("toolId"@), e.field_text("id"@)],
        id,
    );
    laws_event::lemma_first_said(
        seq![e.field_text("tool_name"@), e.field_text("toolName"@), e.field_text("name"@)],
        name,
    );
}

/// The end of a tool is reported under its id, and not at all without one. Its
/// error is what is said under `error` or `message`. Where nothing is said, it
/// has one exactly when its status speaks of a failure or of an error.
pub proof fn law_tool_end(
    ws: Seq<char>,
    e: JsonTree,
    id: Option<Seq<char>>,
    said: Option<Seq<char>>,
)
    requires
        e.field_text("type"@) == Some("tool_result"@),
        laws_text::first_said(
            seq![e.field_text("tool_id"@), e.field_text("toolId"@), e.field_text("id"@)],
            id,
        ),
        laws_text::first_said(seq![e.field_text("error"@), e.field_text("message"@)], said),
    ensures
        id is None ==> gemini_event::gemini_event(ws, e) is None,
        id is Some ==> (gemini_event::gemini_event(ws, e) matches Some(
            EventView::ToolCompleted { workspace_id, tool_id, tool_name, output, error },
        ) && {
            let bad = e.field_text("status"@) matches Some(s) && (text::has_text(
                text::lowered(s),
                "fail"@,
            ) || text::has_text(text::lowered(s), "error"@));
            &&& workspace_id == ws
            &&& Some(tool_id) == id
            &&& tool_name == e.field_text("tool_name"@)
            &&& said is Some ==> error == said
            &&& said is None && bad ==> error == Some("Tool execution failed"@)
            &&& said is None && !bad ==> error is None
            &&& e.field("output"@) is Some ==> output == e.field("output"@)
            &&& e.field("output"@) is None && e.field("result"@) is Some ==> output == e.field(
                "result"@,
            )
            &&& e.field("output"@) is None && e.field("result"@) is None ==> output == e.field(
                "response"@,
            )
        }),
{
    lemma_special_names();
    assert(!gemini_event::text_type_name("tool_result"@));
    laws_event::lemma_first_said(
        seq![e.field_text("tool_id"@), e.field_text("toolId"@), e.field_text("id"@)],
        id,
    );
    laws_event::lemma_first_said(seq![e.field_text("error"@), e.field_text("message"@)], said);
    reveal_strlit("fail");
    reveal_strlit("error");
    assert(text::lowered(Seq::empty()).len() == 0);
}

/// A tool that ended with the status `success` and says nothing of an error has
/// none.
pub proof fn law_successful_tool_has_no_error(ws: Seq<char>, e: JsonTree, id: Seq<char>)
    requires
        e.field_text("type"@) == Some("tool_result"@),
        laws_text::first_said(
            seq![e.field_text("tool_id"@), e.field_text("toolId"@), e.field_text("id"@)],
            Some(id),
        ),
        laws_text::first_said(seq![e.field_text("error"@), e.field_text("message"@)], None),
        e.field_text("status"@) == Some("success"@),
    ensures
        gemini_event::gemini_event(ws, e) matches Some(EventView::ToolCompleted { error, .. })
            && error is None,
{
    law_tool_end(ws, e, Some(id), None);
    reveal_strlit("success");
    reveal_strlit("fail");
    reveal_strlit("error");
    let s = text::lowered("success"@);
    assert(s =~= "success"@);
    assert forall|i: int| !text::occurs_at(s, "fail"@, i) by {
        if text::occurs_at(s, "fail"@, i) {
            assert(s.subrange(i, i + 4)[0] == s[i]);
        }
    }
    assert forall|i: int| !text::occurs_at(s, "error"@, i) by {
        if text::occurs_at(s, "error"@, i) {
            assert(s.subrange(i, i + 5)[1] == s[i + 1]);
        }
    }
}

/// An event of the type `error` is an error of the turn. It says what the event
/// says under `error` or `message`, and else the event itself.
pub proof fn law_error_events(ws: Seq<char>, e: JsonTree, said: Option<Seq<char>>)
    requires
        e.field_text("type"@) == Some("error"@),
        laws_text::first_said(seq![e.field_text("error"@), e.field_text("message"@)], said),
    ensures
        gemini_event::gemini_event(ws, e) matches Some(
            EventView::TurnError { workspace_id, error, code },
        ) && {
            &&& workspace_id == ws
            &&& code is None
            &&& said is Some ==> Some(error) == said
            &&& said is None ==> error == json::compact_text(e.settled())
        },
{
    lemma_special_names();
    assert(!gemini_event::text_type_name("error"@));
    laws_event::lemma_first_said(seq![e.field_text("error"@), e.field_text("message"@)], said);
}

/// The text of the value under a key, searched through five levels.
pub open spec fn said_under(e: JsonTree, key: Seq<char>) -> Option<Seq<char>> {
    match e.field(key) {
        Some(value) => gemini_event::value_text(value, 5),
        None => None,
    }
}

/// A result fails when its status, whatever the case of its letters and the
/// white space at its ends, is one of four words, or when it holds an error that
/// is not null. It then says what its error says, else its message, else its
/// status, else that there was an error.
pub proof fn law_failed_results(
    ws: Seq<char>,
    e: JsonTree,
    status: Seq<char>,
    message: Option<Seq<char>>,
)
    requires
        status == (match e.field_text("status"@) {
            Some(s) => text::lowered(text::trimmed(s)),
            None => Seq::empty(),
        }),
        laws_text::first_said(seq![e.field_text("message"@)], message),
    ensures
        ({
            let fails = status == "error"@ || status == "failed"@ || status == "cancelled"@
                || status == "canceled"@ || (e.field("error"@) matches Some(x) && !(x is Null));
            &&& fails <==> gemini_event::completion_event(ws, e) is TurnError
            &&& !fails <==> gemini_event::completion_event(ws, e) is TurnCompleted
            &&& gemini_event::completion_event(ws, e) matches EventView::TurnError {
                workspace_id,
                error,
                code,
            } ==> {
                let said = said_under(e, "error"@);
                &&& workspace_id == ws
                &&& code is None
                &&& said is Some ==> Some(error) == said
                &&& said is None && message is Some ==> Some(error) == message
                &&& said is None && message is None && status.len() > 0 ==> error
                    == "Gemini result status: "@ + status
                &&& said is None && message is None && status.len() == 0 ==> error
                    == "Gemini returned an error result."@
            }
        }),
{
    laws_event::lemma_first_said(seq![e.field_text("message"@)], message);
    reveal_strlit("error");
    reveal_strlit("failed");
    reveal_strlit("cancelled");
    reveal_strlit("canceled");
    assert("error"@.len() == 5 && "failed"@.len() == 6 && "cancelled"@.len() == 9
        && "canceled"@.len() == 8);
    assert(gemini_event::field_value_text(e, "error"@) == said_under(e, "error"@));
    assert(status.len() > 0 ==> gemini_event::result_status(e) == Some(status));
    assert(status.len() == 0 ==> gemini_event::result_status(e) is None);
}

/// A result that does not fail completes the turn. Its text is the string under
/// `text`, else the text under `response`, else that under `result`; it is handed
/// on as `text` beside the event as `raw`. Without a text the event itself is
/// handed on.
pub proof fn law_successful_results(ws: Seq<char>, e: JsonTree)
    requires
        gemini_event::completion_event(ws, e) is TurnCompleted,
    ensures
        ({
            let text = if e.field_text("text"@) is Some {
                e.field_text("text"@)
            } else if said_under(e, "response"@) is Some {
                said_under(e, "response"@)
            } else {
                said_under(e, "result"@)
            };
            gemini_event::completion_event(ws, e) matches EventView::TurnCompleted {
                workspace_id,
                result,
            } && workspace_id == ws && match text {
                Some(s) => result matches Some(JsonTree::Object(entries)) && entries.len() == 2
                    && json::lookup(entries, "text"@) == Some(JsonTree::Text(s)) && json::lookup(
                    entries,
                    "raw"@,
                ) == Some(e),
                None => result == Some(e),
            }
        }),
{
    reveal_strlit("text");
    reveal_strlit("raw");
    assert("text"@.len() != "raw"@.len());
    assert("raw"@[0] == 'r' && "text"@[0] == 't');
    if let Some(s) = gemini_event::result_text(e) {
        let pairs = seq![("text"@, JsonTree::Text(s)), ("raw"@, e)];
        laws_json::law_last_pair_is_read(pairs, 0);
        laws_json::law_last_pair_is_read(pairs, 1);
        let one = pairs.drop_last();
        assert(one.drop_last().len() == 0);
        assert(one.last() == pairs[0]);
        assert(json::entries_from(one.drop_last()).len() == 0);
        assert(json::entries_from(one) =~= seq![("text"@, JsonTree::Text(s))]);
        assert(json::text_before("raw"@, "text"@));
        assert(json::entries_from(pairs) =~= seq![("raw"@, e), ("text"@, JsonTree::Text(s))]);
    }
}

/// Events of other types: those that end a turn do so; else those that speak of
/// reasoning are pieces of reasoning; else those of text are pieces of the
/// answer; else, and without a type, nothing is reported.
pub proof fn law_other_events(ws: Seq<char>, e: JsonTree, kind: Seq<char>)
    requires
        e.field_text("type"@) == Some(kind),
        !seq![
            "text"@,
            "content_delta"@,
            "text_delta"@,
            "output_text_delta"@,
            "assistant_message_delta"@,
            "message_delta"@,
            "assistant_message"@,
            "reasoning"@,
            "reasoning_delta"@,
            "thinking"@,
            "thinking_delta"@,
            "thought"@,
            "thought_delta"@,
            "message"@,
            "tool_use"@,
            "tool_result"@,
            "error"@,
        ].contains(kind),
    ensures
        ({
            let r = gemini_event::gemini_event(ws, e);
            let ends = gemini_event::completion_type(kind);
            let reasons = gemini_event::reasoning_type(kind);
            let tells = gemini_event::text_like_type(kind);
            &&& ends ==> r == Some(gemini_event::completion_event(ws, e))
            &&& !ends && reasons ==> r == as_reasoning(ws, gemini_event::reasoning_text(e))
            &&& !ends && !reasons && tells ==> r == as_text(ws, gemini_event::event_text(e))
            &&& !ends && !reasons && !tells ==> r is None
        }),
{
    let names = seq![
        "text"@,
        "content_delta"@,
        "text_delta"@,
        "output_text_delta"@,
        "assistant_message_delta"@,
        "message_delta"@,
        "assistant_message"@,
        "reasoning"@,
        "reasoning_delta"@,
        "thinking"@,
        "thinking_delta"@,
        "thought"@,
        "thought_delta"@,
        "message"@,
        "tool_use"@,
        "tool_result"@,
        "error"@,
    ];
    assert forall|i: int| 0 <= i < names.len() implies kind != #[trigger] names[i] by {
        if kind == names[i] {
            assert(names.contains(kind));
        }
    }
    assert(kind != names[0] && kind != names[1] && kind != names[2] && kind != names[3] && kind
        != names[4] && kind != names[5] && kind != names[6] && kind != names[7] && kind != names[8]
        && kind != names[9] && kind != names[10] && kind != names[11] && kind != names[12] && kind
        != names[13] && kind != names[14] && kind != names[15] && kind != names[16]);
}

/// Events without a type are not reported.
pub proof fn law_events_need_a_type(ws: Seq<char>, e: JsonTree)
    requires
        e.field_text("type"@) is None,
    ensures
        gemini_event::gemini_event(ws, e) is None,
{
}

} // verus!
