//! What holds of ordered lists of texts and of the entries of objects.
use crate::json;
use crate::json::JsonTree;
use vstd::prelude::*;

verus! {

/// No text stands before itself.
proof fn lemma_not_before_itself(a: Seq<char>)
    ensures
        !json::text_before(a, a),
    decreases a.len(),
{
    if a.len() > 0 {
        lemma_not_before_itself(a.drop_first());
    }
}

/// Of two different texts exactly one stands before the other, and no text
/// stands before itself.
pub proof fn law_text_order_is_total(a: Seq<char>, b: Seq<char>)
    ensures
        !json::text_before(a, a),
        a == b || json::text_before(a, b) || json::text_before(b, a),
        !(json::text_before(a, b) && json::text_before(b, a)),
    decreases a.len() + b.len(),
{
    lemma_not_before_itself(a);
    if a.len() > 0 && b.len() > 0 && a[0] == b[0] {
        law_text_order_is_total(a.drop_first(), b.drop_first());
        if a.drop_first() == b.drop_first() {
            assert(a =~= seq![a[0]] + a.drop_first());
            assert(b =~= seq![b[0]] + b.drop_first());
        }
    }
    if a.len() == 0 && b.len() == 0 {
        assert(a =~= b);
    }
}

/// What stands before a text that stands before a third stands before the
/// third.
pub proof fn law_text_order_is_transitive(a: Seq<char>, b: Seq<char>, c: Seq<char>)
    requires
        json::text_before(a, b),
        json::text_before(b, c),
    ensures
        json::text_before(a, c),
    decreases a.len(),
{
    if a.len() > 0 && a[0] == b[0] && b[0] == c[0] {
        law_text_order_is_transitive(a.drop_first(), b.drop_first(), c.drop_first());
    }
}

/// What was set is read back, and every other key reads as before.
pub proof fn law_set_then_read(
    entries: Seq<(Seq<char>, JsonTree)>,
    key: Seq<char>,
    value: JsonTree,
    other: Seq<char>,
)
    ensures
        json::lookup(json::entries_set(entries, key, value), key) == Some(value),
        other != key ==> json::lookup(json::entries_set(entries, key, value), other)
            == json::lookup(entries, other),
    decreases entries.len(),
{
    let after = json::entries_set(entries, key, value);
    if entries.len() == 0 {
        assert(after.drop_first().len() == 0);
        assert(json::lookup(after.drop_first(), other) is None);
    } else if entries[0].0 == key {
        assert(after.drop_first() =~= entries.drop_first());
    } else if json::text_before(key, entries[0].0) {
        assert(after.drop_first() =~= entries);
    } else {
        law_set_then_read(entries.drop_first(), key, value, other);
        assert(after.drop_first() =~= json::entries_set(entries.drop_first(), key, value));
    }
}

/// Every key after a set is the one that was set or was there before.
proof fn lemma_set_keys(entries: Seq<(Seq<char>, JsonTree)>, key: Seq<char>, value: JsonTree)
    ensures
        forall|i: int|
            0 <= i < json::entries_set(entries, key, value).len() ==> {
                ||| (#[trigger] json::entries_set(entries, key, value)[i]).0 == key
                ||| exists|j: int|
                    0 <= j < entries.len() && (#[trigger] entries[j]).0 == json::entries_set(
                        entries,
                        key,
                        value,
                    )[i].0
            },
    decreases entries.len(),
{
    let after = json::entries_set(entries, key, value);
    if entries.len() > 0 && entries[0].0 != key && !json::text_before(key, entries[0].0) {
        let rest = entries.drop_first();
        lemma_set_keys(rest, key, value);
        assert forall|i: int| 0 <= i < after.len() implies {
            ||| (#[trigger] after[i]).0 == key
            ||| exists|j: int| 0 <= j < entries.len() && (#[trigger] entries[j]).0 == after[i].0
        } by {
            if i == 0 {
                assert(entries[0].0 == after[0].0);
            } else {
                assert(after[i] == json::entries_set(rest, key, value)[i - 1]);
                if after[i].0 != key {
                    let j = choose|j: int|
                        0 <= j < rest.len() && (#[trigger] rest[j]).0 == after[i].0;
                    assert(entries[j + 1].0 == after[i].0);
                }
            }
        }
    } else if entries.len() > 0 {
        assert forall|i: int| 0 <= i < after.len() implies {
            ||| (#[trigger] after[i]).0 == key
            ||| exists|j: int| 0 <= j < entries.len() && (#[trigger] entries[j]).0 == after[i].0
        } by {
            if i > 0 {
                if entries[0].0 == key {
                    assert(after[i] == entries[i]);
                } else {
                    assert(after[i] == entries[i - 1]);
                }
            }
        }
    }
}

/// Setting a key keeps the entries in order, with no key twice.
pub proof fn law_set_keeps_order(
    entries: Seq<(Seq<char>, JsonTree)>,
    key: Seq<char>,
    value: JsonTree,
)
    requires
        json::ordered(entries),
    ensures
        json::ordered(json::entries_set(entries, key, value)),
    decreases entries.len(),
{
    let after = json::entries_set(entries, key, value);
    if entries.len() > 0 {
        let rest = entries.drop_first();
        assert(json::ordered(rest)) by {
            assert forall|i: int, j: int| 0 <= i < j < rest.len() implies json::text_before(
                (#[trigger] rest[i]).0,
                (#[trigger] rest[j]).0,
            ) by {
                assert(rest[i] == entries[i + 1] && rest[j] == entries[j + 1]);
            }
        }
        law_set_keeps_order(rest, key, value);
        lemma_set_keys(rest, key, value);
        law_text_order_is_total(key, entries[0].0);
        let tail = json::entries_set(rest, key, value);
        assert forall|i: int, j: int| 0 <= i < j < after.len() implies json::text_before(
            (#[trigger] after[i]).0,
            (#[trigger] after[j]).0,
        ) by {
            if entries[0].0 == key {
                assert(after[j] == entries[j]);
                assert(after[i].0 == entries[i].0);
            } else if json::text_before(key, entries[0].0) {
                assert(after[j] == entries[j - 1]);
                if i > 0 {
                    assert(after[i] == entries[i - 1]);
                } else if j > 1 {
                    law_text_order_is_transitive(key, entries[0].0, entries[j - 1].0);
                }
            } else {
                assert(after[j] == tail[j - 1]);
                if i > 0 {
                    assert(after[i] == tail[i - 1]);
                } else if tail[j - 1].0 != key {
                    let k = choose|k: int|
                        0 <= k < rest.len() && (#[trigger] rest[k]).0 == tail[j - 1].0;
                    assert(rest[k] == entries[k + 1]);
                }
            }
        }
    }
}

/// A map that was filled pair by pair stands in the order of its keys, with no
/// key twice.
pub proof fn law_filled_map_is_ordered(pairs: Seq<(Seq<char>, JsonTree)>)
    ensures
        json::ordered(json::entries_from(pairs)),
    decreases pairs.len(),
{
    if pairs.len() > 0 {
        law_filled_map_is_ordered(pairs.drop_last());
        law_set_keeps_order(
            json::entries_from(pairs.drop_last()),
            pairs.last().0,
            pairs.last().1,
        );
    }
}

/// Of the pairs that were put into a map, the last one with a key is the one
/// that is read.
pub proof fn law_last_pair_is_read(pairs: Seq<(Seq<char>, JsonTree)>, n: int)
    requires
        0 <= n < pairs.len(),
        forall|i: int| n < i < pairs.len() ==> (#[trigger] pairs[i]).0 != pairs[n].0,
    ensures
        json::lookup(json::entries_from(pairs), pairs[n].0) == Some(pairs[n].1),
    decreases pairs.len(),
{
    let before = json::entries_from(pairs.drop_last());
    law_set_then_read(before, pairs.last().0, pairs.last().1, pairs[n].0);
    if n < pairs.len() - 1 {
        assert(pairs[pairs.len() - 1].0 != pairs[n].0);
        law_last_pair_is_read(pairs.drop_last(), n);
    }
}

/// Entries in order are what a map that was filled with them holds.
pub proof fn law_ordered_entries_stay(pairs: Seq<(Seq<char>, JsonTree)>)
    requires
        json::ordered(pairs),
    ensures
        json::entries_from(pairs) == pairs,
    decreases pairs.len(),
{
    if pairs.len() == 0 {
        assert(json::entries_from(pairs) =~= pairs);
    } else {
        let front = pairs.drop_last();
        let key = pairs.last().0;
        let value = pairs.last().1;
        assert forall|i: int, j: int| 0 <= i < j < front.len() implies json::text_before(
            (#[trigger] front[i]).0,
            (#[trigger] front[j]).0,
        ) by {
            assert(front[i] == pairs[i] && front[j] == pairs[j]);
        }
        law_ordered_entries_stay(front);
        assert forall|j: int| 0 <= j < front.len() implies (#[trigger] front[j]).0 != key
            && !json::text_before(key, front[j].0) by {
            assert(front[j] == pairs[j]);
            assert(pairs.last() == pairs[pairs.len() - 1]);
            law_text_order_is_total(front[j].0, key);
        }
        json::lemma_entries_set_skips(front, key, value, front.len() as int);
        assert(front.skip(front.len() as int).len() == 0);
        assert(front.take(front.len() as int) =~= front);
        assert(json::entries_set(front, key, value) =~= pairs);
    }
}

/// A value whose objects are in order is the same when it is put in order.
pub proof fn law_neat_values_are_settled(t: JsonTree)
    requires
        t.neat(),
    ensures
        t.settled() == t,
    decreases t,
{
    match t {
        JsonTree::Array(items) => {
            assert forall|i: int| 0 <= i < items.len() implies items[i].settled()
                == #[trigger] items[i] by {
                assert(items[i].neat());
                json::lemma_item_tree_smaller(t, i);
                law_neat_values_are_settled(items[i]);
            }
            assert(t.settled()->Array_0 =~= items);
        },
        JsonTree::Object(entries) => {
            assert forall|i: int| 0 <= i < entries.len() implies (
            #[trigger] entries[i]).1.settled() == entries[i].1 by {
                assert(entries[i].1.neat());
                json::lemma_entry_tree_smaller(t, i);
                law_neat_values_are_settled(entries[i].1);
            }
            assert(JsonTree::settled_pairs(entries) =~= entries);
            law_ordered_entries_stay(entries);
        },
        _ => {},
    }
}

/// Setting a key to a value in order keeps an object in order.
pub proof fn law_set_keeps_neat(
    entries: Seq<(Seq<char>, JsonTree)>,
    key: Seq<char>,
    value: JsonTree,
)
    requires
        JsonTree::Object(entries).neat(),
        value.neat(),
    ensures
        JsonTree::Object(json::entries_set(entries, key, value)).neat(),
    decreases entries.len(),
{
    law_set_keeps_order(entries, key, value);
    let after = json::entries_set(entries, key, value);
    if entries.len() > 0 {
        let rest = entries.drop_first();
        assert(JsonTree::Object(rest).neat()) by {
            assert forall|i: int, j: int| 0 <= i < j < rest.len() implies json::text_before(
                (#[trigger] rest[i]).0,
                (#[trigger] rest[j]).0,
            ) by {
                assert(rest[i] == entries[i + 1] && rest[j] == entries[j + 1]);
            }
            assert forall|i: int| 0 <= i < rest.len() implies (#[trigger] rest[i]).1.neat() by {
                assert(rest[i] == entries[i + 1]);
            }
        }
        law_set_keeps_neat(rest, key, value);
        let tail = json::entries_set(rest, key, value);
        assert forall|i: int| 0 <= i < after.len() implies (#[trigger] after[i]).1.neat() by {
            if entries[0].0 == key {
                if i > 0 {
                    assert(after[i] == entries[i]);
                }
            } else if json::text_before(key, entries[0].0) {
                if i > 0 {
                    assert(after[i] == entries[i - 1]);
                }
            } else if i > 0 {
                assert(after[i] == tail[i - 1]);
            } else {
                assert(after[0] == entries[0]);
            }
        }
    }
}

/// What is found in an object in order is itself in order.
pub proof fn law_found_is_neat(entries: Seq<(Seq<char>, JsonTree)>, key: Seq<char>)
    requires
        JsonTree::Object(entries).neat(),
    ensures
        match json::lookup(entries, key) {
            Some(value) => value.neat(),
            None => true,
        },
    decreases entries.len(),
{
    if entries.len() > 0 {
        assert(entries[0].1.neat());
        if entries[0].0 != key {
            let rest = entries.drop_first();
            assert(JsonTree::Object(rest).neat()) by {
                assert forall|i: int, j: int| 0 <= i < j < rest.len() implies json::text_before(
                    (#[trigger] rest[i]).0,
                    (#[trigger] rest[j]).0,
                ) by {
                    assert(rest[i] == entries[i + 1] && rest[j] == entries[j + 1]);
                }
                assert forall|i: int| 0 <= i < rest.len() implies (#[trigger] rest[i]).1.neat() by {
                    assert(rest[i] == entries[i + 1]);
                }
            }
            law_found_is_neat(rest, key);
        }
    }
}

// ---------------------------------------------------------------------------
// Reading and order
// ---------------------------------------------------------------------------

/// What is read under a key is the value of the first entry with that key, and
/// nothing where there is none.
pub proof fn law_first_entry_is_read(
    entries: Seq<(Seq<char>, JsonTree)>,
    key: Seq<char>,
    i: int,
)
    requires
        0 <= i <= entries.len(),
        forall|j: int| 0 <= j < i ==> (#[trigger] entries[j]).0 != key,
        i < entries.len() ==> entries[i].0 == key,
    ensures
        i < entries.len() ==> json::lookup(entries, key) == Some(entries[i].1),
        i == entries.len() ==> json::lookup(entries, key) is None,
    decreases i,
{
    if i > 0 {
        assert(entries[0].0 != key);
        let rest = entries.drop_first();
        assert forall|j: int| 0 <= j < i - 1 implies (#[trigger] rest[j]).0 != key by {
            assert(rest[j] == entries[j + 1]);
        }
        law_first_entry_is_read(rest, key, i - 1);
    }
}

/// Only objects have fields, only strings are texts, and only numbers that hold
/// an integer are integers.
pub proof fn law_fields_and_texts(t: JsonTree, key: Seq<char>, s: Seq<char>)
    ensures
        t.field(key) is Some ==> t is Object,
        t matches JsonTree::Object(entries) ==> t.field(key) == json::lookup(entries, key),
        t.text() == Some(s) <==> t == JsonTree::Text(s),
        t.field_text(key) == Some(s) <==> t.field(key) == Some(JsonTree::Text(s)),
        t matches JsonTree::Number(n) ==> t.integer() == json::number_int(n),
        !(t is Number) ==> t.integer() is None,
{
}

/// Texts are ordered by the first character in which they differ; a text that
/// the other goes on from comes first.
pub proof fn law_order_by_first_difference(
    common: Seq<char>,
    a: char,
    rest_a: Seq<char>,
    b: char,
    rest_b: Seq<char>,
)
    ensures
        json::text_before(common, common + seq![a] + rest_a),
        !json::text_before(common, common),
        !json::text_before(common + seq![a] + rest_a, common),
        a != b ==> (json::text_before(common + seq![a] + rest_a, common + seq![b] + rest_b) <==> a
            < b),
    decreases common.len(),
{
    let x = common + seq![a] + rest_a;
    let y = common + seq![b] + rest_b;
    if common.len() > 0 {
        let rest = common.drop_first();
        law_order_by_first_difference(rest, a, rest_a, b, rest_b);
        assert(x.drop_first() =~= rest + seq![a] + rest_a);
        assert(y.drop_first() =~= rest + seq![b] + rest_b);
        assert(x[0] == common[0] && y[0] == common[0]);
    } else {
        assert(x[0] == a && y[0] == b);
    }
}

/// An object that is settled holds under each key the settled form of the last
/// value that it had under it; an array the settled forms of its items; any other
/// value stays.
pub proof fn law_settling(entries: Seq<(Seq<char>, JsonTree)>, items: Seq<JsonTree>, n: int)
    requires
        0 <= n < entries.len(),
        forall|j: int| n < j < entries.len() ==> (#[trigger] entries[j]).0 != entries[n].0,
    ensures
        JsonTree::Object(entries).settled().field(entries[n].0) == Some(entries[n].1.settled()),
        JsonTree::Array(items).settled() matches JsonTree::Array(out) && out.len() == items.len()
            && forall|i: int| 0 <= i < items.len() ==> #[trigger] out[i] == items[i].settled(),
{
    let pairs = JsonTree::settled_pairs(entries);
    assert forall|j: int| n < j < pairs.len() implies (#[trigger] pairs[j]).0 != pairs[n].0 by {
        assert(entries[j].0 != entries[n].0);
    }
    law_last_pair_is_read(pairs, n);
}

/// Plain values are settled as they are.
pub proof fn law_plain_values_are_settled(t: JsonTree)
    requires
        !(t is Array) && !(t is Object),
    ensures
        t.settled() == t,
{
}

} // verus!
