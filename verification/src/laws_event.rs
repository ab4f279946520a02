//! What the events of the Gemini stream are read as.
use crate::gemini_event;
use crate::json::JsonTree;
use crate::laws_gemini;
use crate::laws_text;
use crate::text;
use vstd::prelude::*;
use vstd::string::*;

verus! {

// ---------------------------------------------------------------------------
// Texts of values
// ---------------------------------------------------------------------------

/// There is one first candidate that says something.
pub proof fn lemma_first_said(candidates: Seq<Option<Seq<char>>>, found: Option<Seq<char>>)
    requires
        laws_text::first_said(candidates, found),
    ensures
        gemini_event::first_non_blank(candidates) == found,
{
    laws_text::law_first_candidate(candidates);
    let other = gemini_event::first_non_blank(candidates);
    if let Some(t) = found {
        let i = choose|i: int|
            0 <= i < candidates.len() && (#[trigger] candidates[i] matches Some(x) && t
                == text::trimmed(x)) && forall|j: int|
                0 <= j < i ==> (#[trigger] candidates[j] matches Some(y) ==> text::trimmed(y).len()
                    == 0);
        if let Some(u) = other {
            let k = choose|k: int|
                0 <= k < candidates.len() && (#[trigger] candidates[k] matches Some(x) && u
                    == text::trimmed(x)) && forall|j: int|
                    0 <= j < k ==> (#[trigger] candidates[j] matches Some(y) ==> text::trimmed(
                        y,
                    ).len() == 0);
            if i < k {
                assert(candidates[i] is Some);
            }
            if k < i {
                assert(candidates[k] is Some);
            }
        } else {
            assert(candidates[i] is Some);
        }
    } else if let Some(u) = other {
        let k = choose|k: int|
            0 <= k < candidates.len() && (#[trigger] candidates[k] matches Some(x) && u
                == text::trimmed(x)) && forall|j: int|
                0 <= j < k ==> (#[trigger] candidates[j] matches Some(y) ==> text::trimmed(y).len()
                    == 0);
        assert(candidates[k] is Some);
    }
}

/// Five levels are searched for a text and seven for a thought, fewer by those
/// that were gone down already.
pub proof fn law_levels(depth: usize)
    ensures
        gemini_event::levels_left(depth, gemini_event::text_levels()) == if depth < 5 {
            5 - depth
        } else {
            0
        },
        gemini_event::levels_left(depth, gemini_event::thought_levels()) == if depth < 7 {
            7 - depth
        } else {
            0
        },
        gemini_event::text_levels() == 5,
        gemini_event::thought_levels() == 7,
{
}

/// The text of a text is the text without the white space at its ends, if
/// anything is left. Nothing is found in nothing, in flags and in numbers, nor
/// below the last level.
pub proof fn law_text_of_a_plain_value(
    s: Seq<char>,
    b: bool,
    n: serde_json::Number,
    t: JsonTree,
    levels: nat,
)
    ensures
        gemini_event::value_text(t, 0) is None,
        gemini_event::value_text(JsonTree::Null, levels) is None,
        gemini_event::value_text(JsonTree::Bool(b), levels) is None,
        gemini_event::value_text(JsonTree::Number(n), levels) is None,
        levels > 0 ==> gemini_event::value_text(JsonTree::Text(s), levels) == if text::trimmed(
            s,
        ).len() > 0 {
            Some(text::trimmed(s))
        } else {
            None
        },
{
}

proof fn lemma_items_text(items: Seq<JsonTree>, levels: nat)
    ensures
        gemini_event::items_text(items, levels).len() > 0 ==> text::trimmed(
            gemini_event::items_text(items, levels),
        ).len() > 0,
    decreases items.len(),
{
    if items.len() > 0 && levels > 0 {
        let lines = gemini_event::items_text(items.drop_last(), levels);
        lemma_items_text(items.drop_last(), levels);
        laws_gemini::law_value_text_is_never_blank(items.last(), (levels - 1) as nat);
        if let Some(line) = gemini_event::value_text(items.last(), (levels - 1) as nat) {
            if lines.len() > 0 {
                laws_gemini::lemma_later_not_blank(lines.push('\n'), line);
            }
        }
    }
}

proof fn lemma_array_text(items: Seq<JsonTree>, levels: nat)
    requires
        levels > 0,
    ensures
        match gemini_event::value_text(JsonTree::Array(items), levels) {
            Some(lines) => lines == gemini_event::items_text(items, levels) && lines.len() > 0,
            None => gemini_event::items_text(items, levels).len() == 0,
        },
{
    lemma_items_text(items, levels);
    let lines = gemini_event::items_text(items, levels);
    text::lemma_trimmed_blank(lines);
    if lines.len() == 0 {
        assert(text::blank(lines));
    }
}

/// The text of an array is that of its items one level down, one per line, in
/// their order; items without a text are passed over.
pub proof fn law_text_of_an_array(items: Seq<JsonTree>, last: JsonTree, levels: nat)
    ensures
        gemini_event::value_text(JsonTree::Array(Seq::empty()), levels) is None,
        ({
            let all = gemini_event::value_text(JsonTree::Array(items.push(last)), levels + 1);
            let before = gemini_event::value_text(JsonTree::Array(items), levels + 1);
            match (before, gemini_event::value_text(last, levels)) {
                (Some(lines), Some(line)) => all == Some(lines + seq!['\n'] + line),
                (Some(lines), None) => all == Some(lines),
                (None, found) => all == found,
            }
        }),
{
    let more = items.push(last);
    assert(more.drop_last() =~= items);
    lemma_array_text(items, levels + 1);
    lemma_array_text(more, levels + 1);
    laws_gemini::law_value_text_is_never_blank(last, levels);
    if let Some(line) = gemini_event::value_text(last, levels) {
        let lines = gemini_event::items_text(items, levels + 1);
        assert(lines.push('\n') + line =~= lines + seq!['\n'] + line);
        if line.len() == 0 {
            text::lemma_trimmed_blank(line);
        }
    }
    if levels > 0 {
        lemma_array_text(Seq::empty(), levels);
    }
}

/// An object's text is the first that its fields `delta`, `text`, `message` and
/// `content` say, in this order.
pub proof fn law_text_of_own_fields(t: JsonTree, levels: nat, found: Seq<char>)
    requires
        t is Object,
        levels > 0,
        laws_text::first_said(
            seq![
                t.field_text("delta"@),
                t.field_text("text"@),
                t.field_text("message"@),
                t.field_text("content"@),
            ],
            Some(found),
        ),
    ensures
        gemini_event::value_text(t, levels) == Some(found),
{
    lemma_first_said(
        seq![
            t.field_text("delta"@),
            t.field_text("text"@),
            t.field_text("message"@),
            t.field_text("content"@),
        ],
        Some(found),
    );
}

/// The text of the value under a key, one level down.
pub open spec fn text_below(t: JsonTree, key: Seq<char>, levels: nat) -> Option<Seq<char>> {
    match t.field(key) {
        Some(value) => gemini_event::value_text(value, (levels - 1) as nat),
        None => None,
    }
}

proof fn lemma_keyed_text(t: JsonTree, keys: Seq<Seq<char>>, levels: nat, k: int)
    requires
        levels > 0,
        0 <= k <= keys.len(),
        forall|j: int| 0 <= j < k ==> text_below(t, #[trigger] keys[j], levels) is None,
        k < keys.len() ==> text_below(t, keys[k], levels) is Some,
    ensures
        gemini_event::keyed_text(t, keys, levels) == if k < keys.len() {
            text_below(t, keys[k], levels)
        } else {
            None
        },
    decreases keys.len(),
{
    if keys.len() > 0 && k > 0 {
        let rest = keys.drop_first();
        assert(text_below(t, keys[0], levels) is None);
        assert forall|j: int| 0 <= j < k - 1 implies text_below(
            t,
            #[trigger] rest[j],
            levels,
        ) is None by {
            assert(rest[j] == keys[j + 1]);
        }
        lemma_keyed_text(t, rest, levels, k - 1);
    }
}

/// Where an object's own fields say nothing, its text is that of the first of
/// its values that has one, one level down, by the order of these keys. Values
/// under other keys are not looked at.
pub proof fn law_text_of_nested_fields(t: JsonTree, levels: nat, keys: Seq<Seq<char>>, k: int)
    requires
        keys == seq![
            "content"@,
            "message"@,
            "part"@,
            "parts"@,
            "result"@,
            "output"@,
            "response"@,
            "data"@,
            "payload"@,
        ],
        t is Object,
        levels > 0,
        laws_text::first_said(
            seq![
                t.field_text("delta"@),
                t.field_text("text"@),
                t.field_text("message"@),
                t.field_text("content"@),
            ],
            None,
        ),
        0 <= k <= 9,
        forall|j: int| 0 <= j < k ==> text_below(t, #[trigger] keys[j], levels) is None,
        k < 9 ==> text_below(t, keys[k], levels) is Some,
    ensures
        gemini_event::value_text(t, levels) == if k < 9 {
            text_below(t, keys[k], levels)
        } else {
            None
        },
{
    lemma_first_said(
        seq![
            t.field_text("delta"@),
            t.field_text("text"@),
            t.field_text("message"@),
            t.field_text("content"@),
        ],
        None,
    );
    assert(gemini_event::nested_text_keys() =~= keys);
    lemma_keyed_text(t, keys, levels, k);
}

// ---------------------------------------------------------------------------
// Thoughts
// ---------------------------------------------------------------------------

/// A thought reads as its subject or title, and behind it, after a colon and a
/// space, its description, detail, text or message; or as the one of the two
/// that there is.
pub proof fn law_text_of_a_thought(
    t: JsonTree,
    subject: Option<Seq<char>>,
    description: Option<Seq<char>>,
)
    requires
        laws_text::first_said(seq![t.field_text("subject"@), t.field_text("title"@)], subject),
        laws_text::first_said(
            seq![
                t.field_text("description"@),
                t.field_text("detail"@),
                t.field_text("text"@),
                t.field_text("message"@),
            ],
            description,
        ),
    ensures
        gemini_event::thought_text(t) == (match (subject, description) {
            (Some(a), Some(b)) => Some(a + seq![':', ' '] + b),
            (Some(a), None) => Some(a),
            (None, b) => b,
        }),
{
    lemma_first_said(seq![t.field_text("subject"@), t.field_text("title"@)], subject);
    lemma_first_said(
        seq![
            t.field_text("description"@),
            t.field_text("detail"@),
            t.field_text("text"@),
            t.field_text("message"@),
        ],
        description,
    );
    reveal_strlit(": ");
    assert(": "@ =~= seq![':', ' ']);
}

/// No thought in the list of thoughts of a value has a text.
pub open spec fn lists_none(t: JsonTree) -> bool {
    match t.field("thoughts"@) {
        Some(JsonTree::Array(list)) => forall|i: int|
            0 <= i < list.len() ==> gemini_event::thought_text(#[trigger] list[i]) is None,
        _ => true,
    }
}

proof fn lemma_last_thought(list: Seq<JsonTree>, n: int)
    requires
        -1 <= n < list.len(),
        forall|i: int|
            n < i < list.len() ==> gemini_event::thought_text(#[trigger] list[i]) is None,
        n >= 0 ==> gemini_event::thought_text(list[n]) is Some,
    ensures
        gemini_event::last_thought(list) == if n >= 0 {
            gemini_event::thought_text(list[n])
        } else {
            None
        },
    decreases list.len(),
{
    if list.len() > 0 && n < list.len() - 1 {
        let front = list.drop_last();
        assert(list[list.len() - 1] == list.last());
        assert forall|i: int| n < i < front.len() implies gemini_event::thought_text(
            #[trigger] front[i],
        ) is None by {
            assert(front[i] == list[i]);
        }
        lemma_last_thought(front, n);
    }
}

/// The latest thought of a value is the last with a text in its list `thoughts`.
pub proof fn law_listed_thought_comes_first(
    t: JsonTree,
    list: Seq<JsonTree>,
    n: int,
    levels: nat,
)
    requires
        levels > 0,
        t.field("thoughts"@) == Some(JsonTree::Array(list)),
        0 <= n < list.len(),
        gemini_event::thought_text(list[n]) is Some,
        forall|i: int|
            n < i < list.len() ==> gemini_event::thought_text(#[trigger] list[i]) is None,
    ensures
        gemini_event::latest_thought(t, levels) == gemini_event::thought_text(list[n]),
{
    lemma_last_thought(list, n);
}

proof fn lemma_lists_none(t: JsonTree)
    requires
        lists_none(t),
    ensures
        gemini_event::listed_thought(t) is None,
{
    if let Some(JsonTree::Array(list)) = t.field("thoughts"@) {
        lemma_last_thought(list, -1);
    }
}

/// The text of the thought under a key.
pub open spec fn thought_under(t: JsonTree, key: Seq<char>) -> Option<Seq<char>> {
    match t.field(key) {
        Some(thought) => gemini_event::thought_text(thought),
        None => None,
    }
}

/// Without such a list, it is the value's `thought`, else its `currentThought`,
/// else its `latestThought`.
pub proof fn law_named_thought_comes_second(t: JsonTree, levels: nat)
    requires
        levels > 0,
        lists_none(t),
    ensures
        thought_under(t, "thought"@) is Some ==> gemini_event::latest_thought(t, levels)
            == thought_under(t, "thought"@),
        thought_under(t, "thought"@) is None && thought_under(t, "currentThought"@) is Some
            ==> gemini_event::latest_thought(t, levels) == thought_under(t, "currentThought"@),
        thought_under(t, "thought"@) is None && thought_under(t, "currentThought"@) is None
            && thought_under(t, "latestThought"@) is Some ==> gemini_event::latest_thought(
            t,
            levels,
        ) == thought_under(t, "latestThought"@),
{
    lemma_lists_none(t);
}

/// The value has no thought of its own.
pub open spec fn thinks_nothing_itself(t: JsonTree) -> bool {
    &&& lists_none(t)
    &&& thought_under(t, "thought"@) is None
    &&& thought_under(t, "currentThought"@) is None
    &&& thought_under(t, "latestThought"@) is None
}

/// An array without a thought of its own has that of the last item with one, one
/// level down.
pub proof fn law_thought_of_an_array(items: Seq<JsonTree>, last: JsonTree, levels: nat)
    ensures
        gemini_event::latest_thought(JsonTree::Array(Seq::empty()), levels) is None,
        gemini_event::latest_thought(JsonTree::Array(items.push(last)), levels + 1) == (
        match gemini_event::latest_thought(last, levels) {
            Some(thought) => Some(thought),
            None => gemini_event::latest_thought(JsonTree::Array(items), levels + 1),
        }),
{
    assert(items.push(last).drop_last() =~= items);
    lemma_lists_none(JsonTree::Array(items));
    lemma_lists_none(JsonTree::Array(items.push(last)));
    lemma_lists_none(JsonTree::Array(Seq::empty()));
}

/// The latest thought of the value under a key, one level down.
pub open spec fn thought_below(t: JsonTree, key: Seq<char>, levels: nat) -> Option<Seq<char>> {
    match t.field(key) {
        Some(value) => gemini_event::latest_thought(value, (levels - 1) as nat),
        None => None,
    }
}

proof fn lemma_keyed_thought(t: JsonTree, keys: Seq<Seq<char>>, levels: nat, k: int)
    requires
        levels > 0,
        0 <= k <= keys.len(),
        forall|j: int| 0 <= j < k ==> thought_below(t, #[trigger] keys[j], levels) is None,
        k < keys.len() ==> thought_below(t, keys[k], levels) is Some,
    ensures
        gemini_event::keyed_thought(t, keys, levels) == if k < keys.len() {
            thought_below(t, keys[k], levels)
        } else {
            None
        },
    decreases keys.len(),
{
    if keys.len() > 0 && k > 0 {
        let rest = keys.drop_first();
        assert(thought_below(t, keys[0], levels) is None);
        assert forall|j: int| 0 <= j < k - 1 implies thought_below(
            t,
            #[trigger] rest[j],
            levels,
        ) is None by {
            assert(rest[j] == keys[j + 1]);
        }
        lemma_keyed_thought(t, rest, levels, k - 1);
    }
}

proof fn lemma_entries_thought(entries: Seq<(Seq<char>, JsonTree)>, levels: nat, k: int)
    requires
        levels > 0,
        0 <= k <= entries.len(),
        forall|j: int|
            0 <= j < k ==> gemini_event::latest_thought(
                (#[trigger] entries[j]).1,
                (levels - 1) as nat,
            ) is None,
        k < entries.len() ==> gemini_event::latest_thought(
            entries[k].1,
            (levels - 1) as nat,
        ) is Some,
    ensures
        gemini_event::entries_thought(entries, levels) == if k < entries.len() {
            gemini_event::latest_thought(entries[k].1, (levels - 1) as nat)
        } else {
            None
        },
    decreases entries.len(),
{
    if entries.len() > 0 && k > 0 {
        let rest = entries.drop_first();
        assert(gemini_event::latest_thought(entries[0].1, (levels - 1) as nat) is None);
        assert forall|j: int| 0 <= j < k - 1 implies gemini_event::latest_thought(
            (#[trigger] rest[j]).1,
            (levels - 1) as nat,
        ) is None by {
            assert(rest[j] == entries[j + 1]);
        }
        lemma_entries_thought(rest, levels, k - 1);
    }
}

/// An object without a thought of its own has that of the first of its values
/// with one, one level down: by the order of these keys first, and then in the
/// order of its entries.
pub proof fn law_thought_of_an_object(
    entries: Seq<(Seq<char>, JsonTree)>,
    levels: nat,
    keys: Seq<Seq<char>>,
    k: int,
    n: int,
)
    requires
        keys == seq![
            "message"@,
            "messages"@,
            "item"@,
            "items"@,
            "content"@,
            "data"@,
            "payload"@,
            "result"@,
            "response"@,
            "event"@,
            "turn"@,
        ],
        levels > 0,
        thinks_nothing_itself(JsonTree::Object(entries)),
        0 <= k <= 11,
        forall|j: int|
            0 <= j < k ==> thought_below(
                JsonTree::Object(entries),
                #[trigger] keys[j],
                levels,
            ) is None,
        k < 11 ==> thought_below(JsonTree::Object(entries), keys[k], levels) is Some,
        0 <= n <= entries.len(),
        forall|j: int|
            0 <= j < n ==> gemini_event::latest_thought(
                (#[trigger] entries[j]).1,
                (levels - 1) as nat,
            ) is None,
        n < entries.len() ==> gemini_event::latest_thought(
            entries[n].1,
            (levels - 1) as nat,
        ) is Some,
    ensures
        gemini_event::latest_thought(JsonTree::Object(entries), levels) == if k < 11 {
            thought_below(JsonTree::Object(entries), keys[k], levels)
        } else if n < entries.len() {
            gemini_event::latest_thought(entries[n].1, (levels - 1) as nat)
        } else {
            None
        },
{
    let t = JsonTree::Object(entries);
    lemma_lists_none(t);
    assert(gemini_event::nested_thought_keys() =~= keys);
    lemma_keyed_thought(t, keys, levels, k);
    lemma_entries_thought(entries, levels, n);
}

/// Nothing thinks below the last level, nor do texts, flags, numbers and nothing.
pub proof fn law_plain_values_think_nothing(
    s: Seq<char>,
    b: bool,
    n: serde_json::Number,
    t: JsonTree,
    levels: nat,
)
    ensures
        gemini_event::latest_thought(t, 0) is None,
        gemini_event::latest_thought(JsonTree::Text(s), levels) is None,
        gemini_event::latest_thought(JsonTree::Bool(b), levels) is None,
        gemini_event::latest_thought(JsonTree::Number(n), levels) is None,
        gemini_event::latest_thought(JsonTree::Null, levels) is None,
{
}

} // verus!
