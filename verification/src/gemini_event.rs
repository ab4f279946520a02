//! Reading the JSON events that the Gemini command line streams.
use crate::events;
use crate::events::{EngineEvent, EventView};
use crate::json;
use crate::json::{Json, JsonTree};
use crate::text;
use vstd::prelude::*;
use vstd::string::*;

verus! {

// ---------------------------------------------------------------------------
// Models: text of a value
// ---------------------------------------------------------------------------

/// The first candidate that holds more than white space, trimmed.
pub open spec fn first_non_blank(candidates: Seq<Option<Seq<char>>>) -> Option<Seq<char>>
    decreases candidates.len(),
{
    if candidates.len() == 0 {
        None
    } else if text::non_blank(candidates[0]) is Some {
        text::non_blank(candidates[0])
    } else {
        first_non_blank(candidates.drop_first())
    }
}

/// The texts of a list of optional slices.
pub open spec fn opt_texts(candidates: Seq<Option<&str>>) -> Seq<Option<Seq<char>>> {
    Seq::new(candidates.len(), |i: int| text::opt_text(candidates[i]))
}

/// `a`, or `b` where there is no `a`.
pub open spec fn or_else<T>(a: Option<T>, b: Option<T>) -> Option<T> {
    if a is Some {
        a
    } else {
        b
    }
}

/// How many levels are left below `depth` of `levels`.
pub open spec fn levels_left(depth: usize, levels: nat) -> nat {
    if depth >= levels {
        0
    } else {
        (levels - depth) as nat
    }
}

/// The keys under which an object without a text of its own may hold one.
pub open spec fn nested_text_keys() -> Seq<Seq<char>> {
    seq![
        "content"@,
        "message"@,
        "part"@,
        "parts"@,
        "result"@,
        "output"@,
        "response"@,
        "data"@,
        "payload"@,
    ]
}

/// The text of an object's own fields.
pub open spec fn own_text(t: JsonTree) -> Option<Seq<char>> {
    first_non_blank(
        seq![
            t.field_text("delta"@),
            t.field_text("text"@),
            t.field_text("message"@),
            t.field_text("content"@),
        ],
    )
}

/// The text of a value, looked for in the given number of levels: a text
/// itself, the texts of an array's items one per line, or the first text that
/// an object holds.
pub open spec fn value_text(t: JsonTree, levels: nat) -> Option<Seq<char>>
    decreases levels, 1nat, 0nat,
{
    if levels == 0 {
        None
    } else {
        match t {
            JsonTree::Text(s) => text::non_blank(Some(s)),
            JsonTree::Array(items) => {
                let lines = items_text(items, levels);
                if text::trimmed(lines).len() == 0 {
                    None
                } else {
                    Some(lines)
                }
            },
            JsonTree::Object(_) => or_else(
                own_text(t),
                keyed_text(t, nested_text_keys(), levels),
            ),
            _ => None,
        }
    }
}

/// The texts of the items, one per line.
pub open spec fn items_text(items: Seq<JsonTree>, levels: nat) -> Seq<char>
    decreases levels, 0nat, items.len(),
{
    if items.len() == 0 || levels == 0 {
        Seq::empty()
    } else {
        let lines = items_text(items.drop_last(), levels);
        match value_text(items.last(), (levels - 1) as nat) {
            Some(line) => if lines.len() == 0 {
                line
            } else {
                lines.push('\n') + line
            },
            None => lines,
        }
    }
}

/// The text of the first of the given fields that has one.
pub open spec fn keyed_text(t: JsonTree, keys: Seq<Seq<char>>, levels: nat) -> Option<Seq<char>>
    decreases levels, 0nat, keys.len(),
{
    if keys.len() == 0 || levels == 0 {
        None
    } else {
        let here = match t.field(keys[0]) {
            Some(value) => value_text(value, (levels - 1) as nat),
            None => None,
        };
        or_else(here, keyed_text(t, keys.drop_first(), levels))
    }
}

/// How many levels of a value are searched for text.
pub open spec fn text_levels() -> nat {
    5
}

/// How many levels of a value are searched for thoughts.
pub open spec fn thought_levels() -> nat {
    7
}

// ---------------------------------------------------------------------------
// Functions: text of a value
// ---------------------------------------------------------------------------

/// The first candidate that holds more than white space, trimmed.
pub fn first_non_empty_str<'a>(candidates: &[Option<&'a str>]) -> (r: Option<&'a str>)
    ensures
        text::opt_text(r) == first_non_blank(opt_texts(candidates@)),
{
    let ghost all = opt_texts(candidates@);
    let mut i: usize = 0;
    assert(all.skip(0) =~= all);
    while i < candidates.len()
        invariant
            i <= candidates@.len(),
            all == opt_texts(candidates@),
            first_non_blank(all) == first_non_blank(all.skip(i as int)),
        decreases candidates@.len() - i,
    {
        assert(all.skip(i as int)[0] == text::opt_text(candidates@[i as int]));
        assert(all.skip(i as int).drop_first() =~= all.skip(i + 1));
        let found = text::trim_non_empty(candidates[i]);
        if found.is_some() {
            return found;
        }
        i = i + 1;
    }
    None
}

/// The text of a value that stands `depth` levels down.
pub fn extract_text_from_value(value: &Json, depth: usize) -> (r: Option<String>)
    ensures
        text::opt_string(r) == value_text(value@, levels_left(depth, text_levels())),
    decreases levels_left(depth, text_levels()),
{
    broadcast use {json::lemma_array_tree, json::lemma_object_tree};

    if depth > 4 {
        return None;
    }
    let ghost levels = levels_left(depth, text_levels());
    match value {
        Json::Text(s) => text::own_text(text::trim_non_empty(Some(s.as_str()))),
        Json::Array(items) => {
            let mut merged = String::new();
            let ghost all = json::trees(items@);
            for i in 0..items.len()
                invariant
                    depth <= 4,
                    levels == levels_left(depth, text_levels()),
                    all == json::trees(items@),
                    merged@ == items_text(all.take(i as int), levels),
            {
                proof {
                    assert(all.take(i + 1).drop_last() =~= all.take(i as int));
                    assert(all.take(i + 1).last() == items@[i as int]@);
                }
                if let Some(line) = extract_text_from_value(&items[i], depth + 1) {
                    if !merged.as_str().is_empty() {
                        merged.push('\n');
                    }
                    let ghost start = merged@;
                    merged.append(line.as_str());
                    assert(start.len() == 0 ==> merged@ =~= line@);
                }
            }
            assert(all.take(items@.len() as int) =~= all);
            if text::is_blank(merged.as_str()) {
                None
            } else {
                Some(merged)
            }
        },
        Json::Object(_) => {
            let candidates = [
                value.get_str("delta"),
                value.get_str("text"),
                value.get_str("message"),
                value.get_str("content"),
            ];
            assert(opt_texts(candidates@) =~= seq![
                value@.field_text("delta"@),
                value@.field_text("text"@),
                value@.field_text("message"@),
                value@.field_text("content"@),
            ]);
            if let Some(found) = first_non_empty_str(&candidates) {
                return Some(found.to_owned());
            }
            let keys: [&str; 9] = [
                "content",
                "message",
                "part",
                "parts",
                "result",
                "output",
                "response",
                "data",
                "payload",
            ];
            let ghost all = nested_text_keys();
            assert(all.skip(0) =~= all);
            for i in 0..9
                invariant
                    depth <= 4,
                    levels == levels_left(depth, text_levels()),
                    all == nested_text_keys(),
                    all.len() == 9,
                    value@ is Object,
                    own_text(value@) is None,
                    forall|j: int| 0 <= j < 9 ==> (#[trigger] keys@[j])@ == all[j],
                    keyed_text(value@, all, levels) == keyed_text(
                        value@,
                        all.skip(i as int),
                        levels,
                    ),
            {
                proof {
                    assert(all.skip(i as int)[0] == all[i as int]);
                    assert(all.skip(i as int).drop_first() =~= all.skip(i + 1));
                    assert(keys@[i as int]@ == all[i as int]);
                }
                if let Some(nested) = value.get(keys[i]) {
                    let found = extract_text_from_value(nested, depth + 1);
                    if found.is_some() {
                        return found;
                    }
                }
            }
            None
        },
        _ => None,
    }
}

// ---------------------------------------------------------------------------
// Models: thoughts
// ---------------------------------------------------------------------------

/// The text of one thought: its subject, its description, or both.
pub open spec fn thought_text(t: JsonTree) -> Option<Seq<char>> {
    let subject = first_non_blank(seq![t.field_text("subject"@), t.field_text("title"@)]);
    let description = first_non_blank(
        seq![
            t.field_text("description"@),
            t.field_text("detail"@),
            t.field_text("text"@),
            t.field_text("message"@),
        ],
    );
    match (subject, description) {
        (Some(sub), Some(desc)) => Some(sub + ": "@ + desc),
        (Some(sub), None) => Some(sub),
        (None, desc) => desc,
    }
}

/// The text of the thought under `key`.
pub open spec fn thought_field(t: JsonTree, key: Seq<char>) -> Option<Seq<char>> {
    match t.field(key) {
        Some(thought) => thought_text(thought),
        None => None,
    }
}

/// The text of the single thought that a value names as its own.
pub open spec fn named_thought(t: JsonTree) -> Option<Seq<char>> {
    or_else(
        thought_field(t, "thought"@),
        or_else(thought_field(t, "currentThought"@), thought_field(t, "latestThought"@)),
    )
}

/// The text of the last thought in a list that has one.
pub open spec fn last_thought(thoughts: Seq<JsonTree>) -> Option<Seq<char>>
    decreases thoughts.len(),
{
    if thoughts.len() == 0 {
        None
    } else {
        or_else(thought_text(thoughts.last()), last_thought(thoughts.drop_last()))
    }
}

/// The text of the last thought in the list of thoughts of a value.
pub open spec fn listed_thought(t: JsonTree) -> Option<Seq<char>> {
    match t.field("thoughts"@) {
        Some(JsonTree::Array(thoughts)) => last_thought(thoughts),
        _ => None,
    }
}

/// The keys that are searched for thoughts before all others.
pub open spec fn nested_thought_keys() -> Seq<Seq<char>> {
    seq![
        "message"@,
        "messages"@,
        "item"@,
        "items"@,
        "content"@,
        "data"@,
        "payload"@,
        "result"@,
        "response"@,
        "event"@,
        "turn"@,
    ]
}

/// The text of the latest thought of a value, looked for in the given number
/// of levels: its own thoughts first, then those of its parts, arrays from the
/// end and objects by the preferred keys before the rest.
pub open spec fn latest_thought(t: JsonTree, levels: nat) -> Option<Seq<char>>
    decreases levels, 1nat, 0nat,
{
    if levels == 0 {
        None
    } else {
        or_else(
            listed_thought(t),
            or_else(
                named_thought(t),
                match t {
                    JsonTree::Array(items) => items_thought(items, levels),
                    JsonTree::Object(entries) => or_else(
                        keyed_thought(t, nested_thought_keys(), levels),
                        entries_thought(entries, levels),
                    ),
                    _ => None,
                },
            ),
        )
    }
}

/// The latest thought of the last item that has one.
pub open spec fn items_thought(items: Seq<JsonTree>, levels: nat) -> Option<Seq<char>>
    decreases levels, 0nat, items.len(),
{
    if items.len() == 0 || levels == 0 {
        None
    } else {
        or_else(
            latest_thought(items.last(), (levels - 1) as nat),
            items_thought(items.drop_last(), levels),
        )
    }
}

/// The latest thought of the first of the given fields that has one.
pub open spec fn keyed_thought(t: JsonTree, keys: Seq<Seq<char>>, levels: nat) -> Option<Seq<char>>
    decreases levels, 0nat, keys.len(),
{
    if keys.len() == 0 || levels == 0 {
        None
    } else {
        let here = match t.field(keys[0]) {
            Some(value) => latest_thought(value, (levels - 1) as nat),
            None => None,
        };
        or_else(here, keyed_thought(t, keys.drop_first(), levels))
    }
}

/// The latest thought of the first entry that has one.
pub open spec fn entries_thought(
    entries: Seq<(Seq<char>, JsonTree)>,
    levels: nat,
) -> Option<Seq<char>>
    decreases levels, 0nat, entries.len(),
{
    if entries.len() == 0 || levels == 0 {
        None
    } else {
        or_else(
            latest_thought(entries[0].1, (levels - 1) as nat),
            entries_thought(entries.drop_first(), levels),
        )
    }
}

// ---------------------------------------------------------------------------
// Functions: thoughts
// ---------------------------------------------------------------------------

/// The text of one thought: its subject, its description, or both.
pub fn extract_thought_entry_text(thought: &Json) -> (r: Option<String>)
    ensures
        text::opt_string(r) == thought_text(thought@),
{
    let subjects = [thought.get_str("subject"), thought.get_str("title")];
    assert(opt_texts(subjects@) =~= seq![
        thought@.field_text("subject"@),
        thought@.field_text("title"@),
    ]);
    let subject = first_non_empty_str(&subjects);
    let descriptions = [
        thought.get_str("description"),
        thought.get_str("detail"),
        thought.get_str("text"),
        thought.get_str("message"),
    ];
    assert(opt_texts(descriptions@) =~= seq![
        thought@.field_text("description"@),
        thought@.field_text("detail"@),
        thought@.field_text("text"@),
        thought@.field_text("message"@),
    ]);
    let description = first_non_empty_str(&descriptions);
    match (subject, description) {
        (Some(sub), Some(desc)) => {
            let mut line = text::concat2(sub, ": ");
            line.append(desc);
            Some(line)
        },
        (Some(sub), None) => Some(sub.to_owned()),
        (None, Some(desc)) => Some(desc.to_owned()),
        (None, None) => None,
    }
}

/// The text of the thought under `key`.
fn thought_under(value: &Json, key: &str) -> (r: Option<String>)
    ensures
        text::opt_string(r) == thought_field(value@, key@),
{
    match value.get(key) {
        Some(thought) => extract_thought_entry_text(thought),
        None => None,
    }
}

/// The text of the single thought that a value names as its own.
fn thought_named(value: &Json) -> (r: Option<String>)
    ensures
        text::opt_string(r) == named_thought(value@),
{
    let found = thought_under(value, "thought");
    if found.is_some() {
        return found;
    }
    let found = thought_under(value, "currentThought");
    if found.is_some() {
        return found;
    }
    thought_under(value, "latestThought")
}

/// The text of the last thought in the list of thoughts of a value.
fn thought_listed(value: &Json) -> (r: Option<String>)
    ensures
        text::opt_string(r) == listed_thought(value@),
{
    broadcast use {json::lemma_array_tree, json::lemma_object_tree};

    match value.get("thoughts") {
        Some(Json::Array(thoughts)) => {
            let ghost all = json::trees(thoughts@);
            let mut i: usize = thoughts.len();
            assert(all.take(i as int) =~= all);
            while i > 0
                invariant
                    value@.field("thoughts"@) == Some(JsonTree::Array(all)),
                    i <= thoughts@.len(),
                    all == json::trees(thoughts@),
                    last_thought(all) == last_thought(all.take(i as int)),
                decreases i,
            {
                i = i - 1;
                proof {
                    assert(all.take(i + 1).last() == thoughts@[i as int]@);
                    assert(all.take(i + 1).drop_last() =~= all.take(i as int));
                }
                let found = extract_thought_entry_text(&thoughts[i]);
                if found.is_some() {
                    return found;
                }
            }
            None
        },
        _ => None,
    }
}

/// The text of the latest thought of a value that stands `depth` levels down.
pub fn extract_latest_thought_text_from_value(value: &Json, depth: usize) -> (r: Option<String>)
    ensures
        text::opt_string(r) == latest_thought(value@, levels_left(depth, thought_levels())),
    decreases levels_left(depth, thought_levels()),
{
    broadcast use {json::lemma_array_tree, json::lemma_object_tree};

    if depth > 6 {
        return None;
    }
    let ghost levels = levels_left(depth, thought_levels());
    let listed = thought_listed(value);
    if listed.is_some() {
        return listed;
    }
    let named = thought_named(value);
    if named.is_some() {
        return named;
    }
    match value {
        Json::Array(items) => {
            let ghost all = json::trees(items@);
            let mut i: usize = items.len();
            assert(all.take(i as int) =~= all);
            while i > 0
                invariant
                    depth <= 6,
                    levels == levels_left(depth, thought_levels()),
                    value@ == JsonTree::Array(all),
                    listed_thought(value@) is None,
                    named_thought(value@) is None,
                    i <= items@.len(),
                    all == json::trees(items@),
                    items_thought(all, levels) == items_thought(all.take(i as int), levels),
                decreases i,
            {
                i = i - 1;
                proof {
                    assert(all.take(i + 1).last() == items@[i as int]@);
                    assert(all.take(i + 1).drop_last() =~= all.take(i as int));
                }
                let found = extract_latest_thought_text_from_value(&items[i], depth + 1);
                if found.is_some() {
                    return found;
                }
            }
            None
        },
        Json::Object(entries) => {
            let keys: [&str; 11] = [
                "message",
                "messages",
                "item",
                "items",
                "content",
                "data",
                "payload",
                "result",
                "response",
                "event",
                "turn",
            ];
            let ghost wanted = nested_thought_keys();
            let ghost all = json::entry_trees(entries@);
            assert(wanted.skip(0) =~= wanted);
            for i in 0..11
                invariant
                    depth <= 6,
                    levels == levels_left(depth, thought_levels()),
                    value@ == JsonTree::Object(all),
                    listed_thought(value@) is None,
                    named_thought(value@) is None,
                    wanted == nested_thought_keys(),
                    wanted.len() == 11,
                    forall|j: int| 0 <= j < 11 ==> (#[trigger] keys@[j])@ == wanted[j],
                    keyed_thought(value@, wanted, levels) == keyed_thought(
                        value@,
                        wanted.skip(i as int),
                        levels,
                    ),
            {
                proof {
                    assert(wanted.skip(i as int)[0] == wanted[i as int]);
                    assert(wanted.skip(i as int).drop_first() =~= wanted.skip(i + 1));
                    assert(keys@[i as int]@ == wanted[i as int]);
                }
                if let Some(nested) = value.get(keys[i]) {
                    let found = extract_latest_thought_text_from_value(nested, depth + 1);
                    if found.is_some() {
                        return found;
                    }
                }
            }
            let mut i: usize = 0;
            assert(all.skip(0) =~= all);
            while i < entries.len()
                invariant
                    depth <= 6,
                    levels == levels_left(depth, thought_levels()),
                    value@ == JsonTree::Object(all),
                    listed_thought(value@) is None,
                    named_thought(value@) is None,
                    keyed_thought(value@, nested_thought_keys(), levels) is None,
                    i <= entries@.len(),
                    all == json::entry_trees(entries@),
                    entries_thought(all, levels) == entries_thought(all.skip(i as int), levels),
                decreases entries@.len() - i,
            {
                proof {
                    assert(all.skip(i as int)[0] == all[i as int]);
                    assert(all.skip(i as int).drop_first() =~= all.skip(i + 1));
                }
                let found = extract_latest_thought_text_from_value(&entries[i].1, depth + 1);
                if found.is_some() {
                    return found;
                }
                i = i + 1;
            }
            None
        },
        _ => None,
    }
}

/// The text of the latest thought of an event.
pub fn extract_latest_thought_text(event: &Json) -> (r: Option<String>)
    ensures
        text::opt_string(r) == latest_thought(event@, thought_levels()),
{
    extract_latest_thought_text_from_value(event, 0)
}

// ---------------------------------------------------------------------------
// Models: events
// ---------------------------------------------------------------------------

/// The session id that an `init` event announces.
pub open spec fn announced_session(e: JsonTree) -> Option<Seq<char>> {
    if e.field_text("type"@) == Some("init"@) {
        first_non_blank(seq![e.field_text("session_id"@), e.field_text("sessionId"@)])
    } else {
        None
    }
}

/// The text under `key`, searched through all its levels.
pub open spec fn field_value_text(e: JsonTree, key: Seq<char>) -> Option<Seq<char>> {
    match e.field(key) {
        Some(value) => value_text(value, text_levels()),
        None => None,
    }
}

/// The message of a failed result.
pub open spec fn result_error_message(e: JsonTree) -> Option<Seq<char>> {
    or_else(
        field_value_text(e, "error"@),
        first_non_blank(seq![e.field_text("message"@)]),
    )
}

/// The text of a text event.
pub open spec fn event_text(e: JsonTree) -> Option<Seq<char>> {
    let found = or_else(
        first_non_blank(
            seq![e.field_text("delta"@), e.field_text("text"@), e.field_text("message"@)],
        ),
        or_else(field_value_text(e, "content"@), value_text(e, text_levels())),
    );
    match found {
        Some(s) => if text::trimmed(s).len() == 0 {
            None
        } else {
            Some(s)
        },
        None => None,
    }
}

/// The text of a reasoning event.
pub open spec fn reasoning_text(e: JsonTree) -> Option<Seq<char>> {
    or_else(
        event_text(e),
        or_else(
            thought_text(e),
            or_else(named_thought(e), latest_thought(e, thought_levels())),
        ),
    )
}

/// The trimmed text in ASCII lower case.
pub open spec fn normalized(s: Seq<char>) -> Seq<char> {
    text::lowered(text::trimmed(s))
}

/// The word speaks of reasoning.
pub open spec fn reasoning_keyword(s: Seq<char>) -> bool {
    let n = normalized(s);
    n.len() > 0 && (text::has_text(n, "reason"@) || text::has_text(n, "think"@) || text::has_text(
        n,
        "thought"@,
    ))
}

/// The event types that carry reasoning by name.
pub open spec fn reasoning_type_name(s: Seq<char>) -> bool {
    ||| s == "reasoning"@
    ||| s == "reasoning_delta"@
    ||| s == "thinking"@
    ||| s == "thinking_delta"@
    ||| s == "thought"@
    ||| s == "thought_delta"@
}

/// The event types that carry text by name.
pub open spec fn text_type_name(s: Seq<char>) -> bool {
    ||| s == "text"@
    ||| s == "content_delta"@
    ||| s == "text_delta"@
    ||| s == "output_text_delta"@
    ||| s == "assistant_message_delta"@
    ||| s == "message_delta"@
    ||| s == "assistant_message"@
}

/// The event type is one of reasoning.
pub open spec fn reasoning_type(s: Seq<char>) -> bool {
    let n = normalized(s);
    n.len() > 0 && (reasoning_type_name(n) || reasoning_keyword(n))
}

/// The event type is one of text.
pub open spec fn text_like_type(s: Seq<char>) -> bool {
    let n = normalized(s);
    n.len() > 0 && (text_type_name(n) || text::has_text(n, "message"@) || text::has_text(
        n,
        "text"@,
    ))
}

/// The event type is one that ends a turn.
pub open spec fn completion_type(s: Seq<char>) -> bool {
    let n = normalized(s);
    ||| n == "result"@
    ||| n == "done"@
    ||| n == "complete"@
    ||| n == "completed"@
    ||| n == "final"@
    ||| n == "turn_completed"@
    ||| n == "turn.complete"@
    ||| n == "response_complete"@
    ||| n == "response.completed"@
}

/// A flag that is set, in one of the forms in which flags are written.
pub open spec fn truthy(value: Option<JsonTree>) -> bool {
    match value {
        Some(JsonTree::Bool(flag)) => flag,
        Some(JsonTree::Number(n)) => match json::number_int(n) {
            Some(i) => i != 0,
            None => false,
        },
        Some(JsonTree::Text(raw)) => {
            let n = normalized(raw);
            n == "1"@ || n == "true"@ || n == "yes"@ || n == "on"@
        },
        _ => false,
    }
}

/// The text under `key`, or the empty text.
pub open spec fn text_or_empty(e: JsonTree, key: Seq<char>) -> Seq<char> {
    match e.field_text(key) {
        Some(s) => s,
        None => Seq::empty(),
    }
}

/// A message that carries reasoning.
pub open spec fn message_is_reasoning(e: JsonTree, role: Seq<char>) -> bool {
    ||| reasoning_keyword(role)
    ||| reasoning_keyword(text_or_empty(e, "kind"@))
    ||| reasoning_keyword(text_or_empty(e, "channel"@))
    ||| truthy(or_else(e.field("isThought"@), e.field("is_thought"@)))
    ||| truthy(or_else(e.field("isReasoning"@), e.field("is_reasoning"@)))
}

/// The status of a result, trimmed and in lower case.
pub open spec fn result_status(e: JsonTree) -> Option<Seq<char>> {
    match e.field_text("status"@) {
        Some(s) => if normalized(s).len() == 0 {
            None
        } else {
            Some(normalized(s))
        },
        None => None,
    }
}

/// A status that says that the turn failed.
pub open spec fn failed_status(status: Option<Seq<char>>) -> bool {
    match status {
        Some(s) => s == "error"@ || s == "failed"@ || s == "cancelled"@ || s == "canceled"@,
        None => false,
    }
}

/// The result holds an error.
pub open spec fn has_error_payload(e: JsonTree) -> bool {
    match e.field("error"@) {
        Some(value) => !(value is Null),
        None => false,
    }
}

/// The text that a result carries.
pub open spec fn result_text(e: JsonTree) -> Option<Seq<char>> {
    or_else(
        e.field_text("text"@),
        or_else(field_value_text(e, "response"@), field_value_text(e, "result"@)),
    )
}

/// The object with a text and the event that it came from.
pub open spec fn text_and_raw(s: Seq<char>, e: JsonTree) -> JsonTree {
    JsonTree::Object(json::entries_from(seq![("text"@, JsonTree::Text(s)), ("raw"@, e)]))
}

/// The event for a result.
pub open spec fn completion_event(workspace_id: Seq<char>, e: JsonTree) -> EventView {
    if failed_status(result_status(e)) || has_error_payload(e) {
        let error = match result_error_message(e) {
            Some(message) => message,
            None => match result_status(e) {
                Some(status) => "Gemini result status: "@ + status,
                None => "Gemini returned an error result."@,
            },
        };
        EventView::TurnError { workspace_id, error, code: None }
    } else {
        let result = match result_text(e) {
            Some(s) => text_and_raw(s, e),
            None => e,
        };
        EventView::TurnCompleted { workspace_id, result: Some(result) }
    }
}

/// The text event with the given text, if there is one.
pub open spec fn text_event(workspace_id: Seq<char>, text: Option<Seq<char>>) -> Option<EventView> {
    match text {
        Some(text) => Some(EventView::TextDelta { workspace_id, text }),
        None => None,
    }
}

/// The reasoning event with the given text, if there is one.
pub open spec fn reasoning_event(workspace_id: Seq<char>, text: Option<Seq<char>>) -> Option<
    EventView,
> {
    match text {
        Some(text) => Some(EventView::ReasoningDelta { workspace_id, text }),
        None => None,
    }
}

/// The event for a message.
pub open spec fn message_event(workspace_id: Seq<char>, e: JsonTree) -> Option<EventView> {
    let role = text::lowered(text_or_empty(e, "role"@));
    if role == "user"@ || role == "system"@ {
        None
    } else if message_is_reasoning(e, role) {
        reasoning_event(workspace_id, reasoning_text(e))
    } else {
        text_event(workspace_id, event_text(e))
    }
}

/// The id of the tool that an event speaks of.
pub open spec fn tool_id(e: JsonTree) -> Option<Seq<char>> {
    first_non_blank(seq![e.field_text("tool_id"@), e.field_text("toolId"@), e.field_text("id"@)])
}

/// The event for the start of a tool.
pub open spec fn tool_started_event(workspace_id: Seq<char>, e: JsonTree) -> Option<EventView> {
    match tool_id(e) {
        None => None,
        Some(id) => {
            let name = first_non_blank(
                seq![e.field_text("tool_name"@), e.field_text("toolName"@), e.field_text("name"@)],
            );
            Some(
                EventView::ToolStarted {
                    workspace_id,
                    tool_id: id,
                    tool_name: match name {
                        Some(n) => n,
                        None => "tool"@,
                    },
                    input: or_else(
                        e.field("parameters"@),
                        or_else(e.field("args"@), e.field("input"@)),
                    ),
                },
            )
        },
    }
}

/// The event for the end of a tool.
pub open spec fn tool_completed_event(workspace_id: Seq<char>, e: JsonTree) -> Option<EventView> {
    match tool_id(e) {
        None => None,
        Some(id) => {
            let status = text::lowered(text_or_empty(e, "status"@));
            let failed = text::has_text(status, "fail"@) || text::has_text(status, "error"@);
            let message = first_non_blank(seq![e.field_text("error"@), e.field_text("message"@)]);
            Some(
                EventView::ToolCompleted {
                    workspace_id,
                    tool_id: id,
                    tool_name: e.field_text("tool_name"@),
                    output: or_else(
                        e.field("output"@),
                        or_else(e.field("result"@), e.field("response"@)),
                    ),
                    error: or_else(
                        message,
                        if failed {
                            Some("Tool execution failed"@)
                        } else {
                            None
                        },
                    ),
                },
            )
        },
    }
}

/// The event for an error.
pub open spec fn error_event(workspace_id: Seq<char>, e: JsonTree) -> EventView {
    let message = first_non_blank(seq![e.field_text("error"@), e.field_text("message"@)]);
    let error = match message {
        Some(s) => s,
        None => json::compact_text(e.settled()),
    };
    EventView::TurnError { workspace_id, error, code: None }
}

/// The unified event for an event of the Gemini stream, if it has one.
pub open spec fn gemini_event(workspace_id: Seq<char>, e: JsonTree) -> Option<EventView> {
    match e.field_text("type"@) {
        None => None,
        Some(kind) => if text_type_name(kind) {
            text_event(workspace_id, event_text(e))
        } else if reasoning_type_name(kind) {
            reasoning_event(workspace_id, reasoning_text(e))
        } else if kind == "message"@ {
            message_event(workspace_id, e)
        } else if kind == "tool_use"@ {
            tool_started_event(workspace_id, e)
        } else if kind == "tool_result"@ {
            tool_completed_event(workspace_id, e)
        } else if kind == "error"@ {
            Some(error_event(workspace_id, e))
        } else if completion_type(kind) {
            Some(completion_event(workspace_id, e))
        } else if reasoning_type(kind) {
            reasoning_event(workspace_id, reasoning_text(e))
        } else if text_like_type(kind) {
            text_event(workspace_id, event_text(e))
        } else {
            None
        },
    }
}

// ---------------------------------------------------------------------------
// Functions: events
// ---------------------------------------------------------------------------

/// The session id that an `init` event announces.
pub fn extract_session_id(event: &Json) -> (r: Option<String>)
    ensures
        text::opt_string(r) == announced_session(event@),
{
    match event.get_str("type") {
        Some(kind) => if !text::same(kind, "init") {
            return None;
        },
        None => return None,
    }
    let candidates = [event.get_str("session_id"), event.get_str("sessionId")];
    assert(opt_texts(candidates@) =~= seq![
        event@.field_text("session_id"@),
        event@.field_text("sessionId"@),
    ]);
    text::own_text(first_non_empty_str(&candidates))
}

/// The text under `key`, searched through all its levels.
fn text_under(event: &Json, key: &str) -> (r: Option<String>)
    ensures
        text::opt_string(r) == field_value_text(event@, key@),
{
    match event.get(key) {
        Some(value) => extract_text_from_value(value, 0),
        None => None,
    }
}

/// The message of a failed result.
pub fn extract_result_error_message(event: &Json) -> (r: Option<String>)
    ensures
        text::opt_string(r) == result_error_message(event@),
{
    let found = text_under(event, "error");
    if found.is_some() {
        return found;
    }
    let candidates = [event.get_str("message")];
    assert(opt_texts(candidates@) =~= seq![event@.field_text("message"@)]);
    text::own_text(first_non_empty_str(&candidates))
}

/// The text of a text event.
pub fn extract_event_text(event: &Json) -> (r: Option<String>)
    ensures
        text::opt_string(r) == event_text(event@),
{
    let candidates = [event.get_str("delta"), event.get_str("text"), event.get_str("message")];
    assert(opt_texts(candidates@) =~= seq![
        event@.field_text("delta"@),
        event@.field_text("text"@),
        event@.field_text("message"@),
    ]);
    let mut found = text::own_text(first_non_empty_str(&candidates));
    if found.is_none() {
        found = text_under(event, "content");
    }
    if found.is_none() {
        found = extract_text_from_value(event, 0);
    }
    match found {
        Some(s) => if text::is_blank(s.as_str()) {
            None
        } else {
            Some(s)
        },
        None => None,
    }
}

/// The text of a reasoning event.
pub fn extract_reasoning_event_text(event: &Json) -> (r: Option<String>)
    ensures
        text::opt_string(r) == reasoning_text(event@),
{
    let found = extract_event_text(event);
    if found.is_some() {
        return found;
    }
    let found = extract_thought_entry_text(event);
    if found.is_some() {
        return found;
    }
    let found = thought_named(event);
    if found.is_some() {
        return found;
    }
    extract_latest_thought_text(event)
}

/// The trimmed text in ASCII lower case.
fn normalize(s: &str) -> (r: String)
    ensures
        r@ == normalized(s@),
{
    text::lower(text::trim(s))
}

/// Whether the word speaks of reasoning.
pub fn contains_reasoning_keyword(value: &str) -> (r: bool)
    ensures
        r == reasoning_keyword(value@),
{
    let n = normalize(value);
    let s = n.as_str();
    !s.is_empty() && (text::contains(s, "reason") || text::contains(s, "think") || text::contains(
        s,
        "thought",
    ))
}

/// Whether a flag is set, in one of the forms in which flags are written.
pub fn is_truthy(value: Option<&Json>) -> (r: bool)
    ensures
        r == truthy(json::opt_tree_ref(value)),
{
    match value {
        Some(Json::Bool(flag)) => *flag,
        Some(Json::Text(raw)) => {
            let n = normalize(raw.as_str());
            let s = n.as_str();
            text::same(s, "1") || text::same(s, "true") || text::same(s, "yes") || text::same(
                s,
                "on",
            )
        },
        Some(other) => match other.as_i64() {
            Some(i) => i != 0,
            None => false,
        },
        None => false,
    }
}

/// The text under `key`, or the empty text.
fn str_or_empty<'a>(event: &'a Json, key: &str) -> (r: &'a str)
    ensures
        r@ == text_or_empty(event@, key@),
{
    match event.get_str(key) {
        Some(s) => s,
        None => {
            proof {
                reveal_strlit("");
            }
            assert(""@ =~= Seq::<char>::empty());
            ""
        },
    }
}

/// The value under the first key, or under the second where it is missing.
fn either<'a>(event: &'a Json, first: &str, second: &str) -> (r: Option<&'a Json>)
    ensures
        json::opt_tree_ref(r) == or_else(event@.field(first@), event@.field(second@)),
{
    let found = event.get(first);
    if found.is_some() {
        found
    } else {
        event.get(second)
    }
}

/// Whether a message carries reasoning.
pub fn should_treat_message_as_reasoning(event: &Json, role: &str) -> (r: bool)
    ensures
        r == message_is_reasoning(event@, role@),
{
    contains_reasoning_keyword(role) || contains_reasoning_keyword(str_or_empty(event, "kind"))
        || contains_reasoning_keyword(str_or_empty(event, "channel")) || is_truthy(
        either(event, "isThought", "is_thought"),
    ) || is_truthy(either(event, "isReasoning", "is_reasoning"))
}

/// Whether the event type carries reasoning by name.
fn names_reasoning(s: &str) -> (r: bool)
    ensures
        r == reasoning_type_name(s@),
{
    text::same(s, "reasoning") || text::same(s, "reasoning_delta") || text::same(s, "thinking")
        || text::same(s, "thinking_delta") || text::same(s, "thought") || text::same(
        s,
        "thought_delta",
    )
}

/// Whether the event type carries text by name.
fn names_text(s: &str) -> (r: bool)
    ensures
        r == text_type_name(s@),
{
    text::same(s, "text") || text::same(s, "content_delta") || text::same(s, "text_delta")
        || text::same(s, "output_text_delta") || text::same(s, "assistant_message_delta")
        || text::same(s, "message_delta") || text::same(s, "assistant_message")
}

/// Whether the event type is one of reasoning.
pub fn is_reasoning_event_type(event_type: &str) -> (r: bool)
    ensures
        r == reasoning_type(event_type@),
{
    let n = normalize(event_type);
    let s = n.as_str();
    !s.is_empty() && (names_reasoning(s) || contains_reasoning_keyword(s))
}

/// Whether the event type is one of text.
pub fn is_text_like_event_type(event_type: &str) -> (r: bool)
    ensures
        r == text_like_type(event_type@),
{
    let n = normalize(event_type);
    let s = n.as_str();
    !s.is_empty() && (names_text(s) || text::contains(s, "message") || text::contains(s, "text"))
}

/// Whether the event type is one that ends a turn.
pub fn is_completion_event_type(event_type: &str) -> (r: bool)
    ensures
        r == completion_type(event_type@),
{
    let n = normalize(event_type);
    let s = n.as_str();
    text::same(s, "result") || text::same(s, "done") || text::same(s, "complete") || text::same(
        s,
        "completed",
    ) || text::same(s, "final") || text::same(s, "turn_completed") || text::same(
        s,
        "turn.complete",
    ) || text::same(s, "response_complete") || text::same(s, "response.completed")
}

/// The object with a text and the event that it came from.
fn with_raw(s: String, event: &Json) -> (r: Json)
    ensures
        r@ == text_and_raw(s@, event@),
{
    broadcast use json::lemma_object_tree;

    let ghost pairs = seq![("text"@, JsonTree::Text(s@)), ("raw"@, event@)];
    let mut entries: Vec<(String, Json)> = Vec::new();
    json::set_entry(&mut entries, "text", Json::Text(s));
    json::set_entry(&mut entries, "raw", event.clone());
    proof {
        reveal_with_fuel(json::entries_from, 3);
        assert(pairs.drop_last().drop_last() =~= Seq::<(Seq<char>, JsonTree)>::empty());
        assert(json::entry_trees(Seq::<(String, Json)>::empty()) =~= Seq::<
            (Seq<char>, JsonTree),
        >::empty());
    }
    Json::Object(entries)
}

/// The event for a result.
pub fn parse_completion_event(workspace_id: &str, event: &Json) -> (r: Option<EngineEvent>)
    ensures
        events::opt_event(r) == Some(completion_event(workspace_id@, event@)),
{
    let status = match event.get_str("status") {
        Some(s) => {
            let n = normalize(s);
            if n.as_str().is_empty() {
                None
            } else {
                Some(n)
            }
        },
        None => None,
    };
    assert(text::opt_string(status) == result_status(event@));
    let is_error_status = match &status {
        Some(n) => {
            let s = n.as_str();
            text::same(s, "error") || text::same(s, "failed") || text::same(s, "cancelled")
                || text::same(s, "canceled")
        },
        None => false,
    };
    let has_payload = match event.get("error") {
        Some(value) => !value.is_null(),
        None => false,
    };
    if is_error_status || has_payload {
        let error = match extract_result_error_message(event) {
            Some(message) => message,
            None => match &status {
                Some(s) => text::concat2("Gemini result status: ", s.as_str()),
                None => "Gemini returned an error result.".to_owned(),
            },
        };
        return Some(
            EngineEvent::TurnError { workspace_id: workspace_id.to_owned(), error, code: None },
        );
    }
    let mut found = text::own_text(event.get_str("text"));
    if found.is_none() {
        found = text_under(event, "response");
    }
    if found.is_none() {
        found = text_under(event, "result");
    }
    let result = match found {
        Some(s) => with_raw(s, event),
        None => event.clone(),
    };
    Some(
        EngineEvent::TurnCompleted { workspace_id: workspace_id.to_owned(), result: Some(result) },
    )
}

/// The text event with the given text, if there is one.
fn text_delta(workspace_id: &str, found: Option<String>) -> (r: Option<EngineEvent>)
    ensures
        events::opt_event(r) == text_event(workspace_id@, text::opt_string(found)),
{
    match found {
        Some(text) => Some(EngineEvent::TextDelta { workspace_id: workspace_id.to_owned(), text }),
        None => None,
    }
}

/// The reasoning event with the given text, if there is one.
fn reasoning_delta(workspace_id: &str, found: Option<String>) -> (r: Option<EngineEvent>)
    ensures
        events::opt_event(r) == reasoning_event(workspace_id@, text::opt_string(found)),
{
    match found {
        Some(text) => Some(
            EngineEvent::ReasoningDelta { workspace_id: workspace_id.to_owned(), text },
        ),
        None => None,
    }
}

/// The event for a message.
fn parse_message_event(workspace_id: &str, event: &Json) -> (r: Option<EngineEvent>)
    ensures
        events::opt_event(r) == message_event(workspace_id@, event@),
{
    let role_text = text::lower(str_or_empty(event, "role"));
    let role = role_text.as_str();
    if text::same(role, "user") || text::same(role, "system") {
        None
    } else if should_treat_message_as_reasoning(event, role) {
        reasoning_delta(workspace_id, extract_reasoning_event_text(event))
    } else {
        text_delta(workspace_id, extract_event_text(event))
    }
}

/// The id of the tool that an event speaks of.
fn tool_id_of(event: &Json) -> (r: Option<String>)
    ensures
        text::opt_string(r) == tool_id(event@),
{
    let ids = [event.get_str("tool_id"), event.get_str("toolId"), event.get_str("id")];
    assert(opt_texts(ids@) =~= seq![
        event@.field_text("tool_id"@),
        event@.field_text("toolId"@),
        event@.field_text("id"@),
    ]);
    text::own_text(first_non_empty_str(&ids))
}

/// A copy of the value under the first of three keys that is there.
fn copy_of_three(event: &Json, first: &str, second: &str, third: &str) -> (r: Option<Json>)
    ensures
        json::opt_tree(r) == or_else(
            event@.field(first@),
            or_else(event@.field(second@), event@.field(third@)),
        ),
{
    let found = either(event, first, second);
    if found.is_some() {
        json::copy_json(found)
    } else {
        json::copy_json(event.get(third))
    }
}

/// The event for the start of a tool.
fn parse_tool_use(workspace_id: &str, event: &Json) -> (r: Option<EngineEvent>)
    ensures
        events::opt_event(r) == tool_started_event(workspace_id@, event@),
{
    match tool_id_of(event) {
        None => None,
        Some(tool_id) => {
            let names = [event.get_str("tool_name"), event.get_str("toolName"), event.get_str("name")];
            assert(opt_texts(names@) =~= seq![
                event@.field_text("tool_name"@),
                event@.field_text("toolName"@),
                event@.field_text("name"@),
            ]);
            let tool_name = match first_non_empty_str(&names) {
                Some(name) => name.to_owned(),
                None => "tool".to_owned(),
            };
            let input = copy_of_three(event, "parameters", "args", "input");
            Some(
                EngineEvent::ToolStarted {
                    workspace_id: workspace_id.to_owned(),
                    tool_id,
                    tool_name,
                    input,
                },
            )
        },
    }
}

/// The event for the end of a tool.
fn parse_tool_result(workspace_id: &str, event: &Json) -> (r: Option<EngineEvent>)
    ensures
        events::opt_event(r) == tool_completed_event(workspace_id@, event@),
{
    match tool_id_of(event) {
        None => None,
        Some(tool_id) => {
            let status = text::lower(str_or_empty(event, "status"));
            let messages = [event.get_str("error"), event.get_str("message")];
            assert(opt_texts(messages@) =~= seq![
                event@.field_text("error"@),
                event@.field_text("message"@),
            ]);
            let mut error = text::own_text(first_non_empty_str(&messages));
            if error.is_none() && (text::contains(status.as_str(), "fail") || text::contains(
                status.as_str(),
                "error",
            )) {
                error = Some("Tool execution failed".to_owned());
            }
            let output = copy_of_three(event, "output", "result", "response");
            let tool_name = text::own_text(event.get_str("tool_name"));
            Some(
                EngineEvent::ToolCompleted {
                    workspace_id: workspace_id.to_owned(),
                    tool_id,
                    tool_name,
                    output,
                    error,
                },
            )
        },
    }
}

/// The event for an error.
fn parse_error_event(workspace_id: &str, event: &Json) -> (r: EngineEvent)
    ensures
        r@ == error_event(workspace_id@, event@),
{
    let messages = [event.get_str("error"), event.get_str("message")];
    assert(opt_texts(messages@) =~= seq![
        event@.field_text("error"@),
        event@.field_text("message"@),
    ]);
    let error = match first_non_empty_str(&messages) {
        Some(message) => message.to_owned(),
        None => match event.to_compact() {
            Some(s) => s,
            None => String::new(),
        },
    };
    EngineEvent::TurnError { workspace_id: workspace_id.to_owned(), error, code: None }
}

/// The unified event for an event of the Gemini stream, if it has one.
pub fn parse_gemini_event(workspace_id: &str, event: &Json) -> (r: Option<EngineEvent>)
    ensures
        events::opt_event(r) == gemini_event(workspace_id@, event@),
{
    let kind = match event.get_str("type") {
        Some(kind) => kind,
        None => return None,
    };
    if names_text(kind) {
        text_delta(workspace_id, extract_event_text(event))
    } else if names_reasoning(kind) {
        reasoning_delta(workspace_id, extract_reasoning_event_text(event))
    } else if text::same(kind, "message") {
        parse_message_event(workspace_id, event)
    } else if text::same(kind, "tool_use") {
        parse_tool_use(workspace_id, event)
    } else if text::same(kind, "tool_result") {
        parse_tool_result(workspace_id, event)
    } else if text::same(kind, "error") {
        Some(parse_error_event(workspace_id, event))
    } else if is_completion_event_type(kind) {
        parse_completion_event(workspace_id, event)
    } else if is_reasoning_event_type(kind) {
        reasoning_delta(workspace_id, extract_reasoning_event_text(event))
    } else if is_text_like_event_type(kind) {
        text_delta(workspace_id, extract_event_text(event))
    } else {
        None
    }
}

} // verus!
