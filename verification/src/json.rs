//! JSON values as plain data, and their passage through `serde_json`.
use crate::text;
use vstd::prelude::*;
use vstd::string::*;

verus! {

/// `serde_json::Value`, carried through as an opaque value.
#[verifier::external_type_specification]
#[verifier::external_body]
pub struct ExValue(serde_json::Value);

/// `serde_json::Number`, carried through as an opaque value.
#[verifier::external_type_specification]
#[verifier::external_body]
pub struct ExNumber(serde_json::Number);

// ---------------------------------------------------------------------------
// Models
// ---------------------------------------------------------------------------

/// What a JSON value holds. An object is the list of its entries in the order
/// in which they are walked.
pub enum JsonTree {
    Null,
    Bool(bool),
    Number(serde_json::Number),
    Text(Seq<char>),
    Array(Seq<JsonTree>),
    Object(Seq<(Seq<char>, JsonTree)>),
}

/// The integer that `serde_json::Number::as_i64` reads from a number.
pub uninterp spec fn number_int(n: serde_json::Number) -> Option<i64>;

/// What a `serde_json::Value` holds, entries in the order of its map.
pub uninterp spec fn value_tree(v: serde_json::Value) -> JsonTree;

/// What `serde_json::from_str::<Value>` reads from a text, if it accepts it.
pub uninterp spec fn json_of_text(text: Seq<char>) -> Option<JsonTree>;

/// What a `serde_json::Value` prints through `Display`.
pub uninterp spec fn display_text(tree: JsonTree) -> Seq<char>;

/// What `serde_json::to_string` gives for a value.
pub uninterp spec fn compact_text(tree: JsonTree) -> Seq<char>;

/// What `serde_json::to_string_pretty` gives for a value.
pub uninterp spec fn pretty_text(tree: JsonTree) -> Seq<char>;

/// `a` stands before `b` in the order of their characters.
pub open spec fn text_before(a: Seq<char>, b: Seq<char>) -> bool
    decreases a.len(),
{
    if b.len() == 0 {
        false
    } else if a.len() == 0 {
        true
    } else if a[0] != b[0] {
        a[0] < b[0]
    } else {
        text_before(a.drop_first(), b.drop_first())
    }
}

/// The entries of an ordered map after `key` was set to `value`.
pub open spec fn entries_set(
    entries: Seq<(Seq<char>, JsonTree)>,
    key: Seq<char>,
    value: JsonTree,
) -> Seq<(Seq<char>, JsonTree)>
    decreases entries.len(),
{
    if entries.len() == 0 {
        seq![(key, value)]
    } else if entries[0].0 == key {
        seq![(key, value)] + entries.drop_first()
    } else if text_before(key, entries[0].0) {
        seq![(key, value)] + entries
    } else {
        seq![entries[0]] + entries_set(entries.drop_first(), key, value)
    }
}

/// The entries of an ordered map into which `pairs` were put one by one.
pub open spec fn entries_from(pairs: Seq<(Seq<char>, JsonTree)>) -> Seq<(Seq<char>, JsonTree)>
    decreases pairs.len(),
{
    if pairs.len() == 0 {
        Seq::empty()
    } else {
        entries_set(entries_from(pairs.drop_last()), pairs.last().0, pairs.last().1)
    }
}

/// The entries stand in the order of their keys, and no key stands twice.
pub open spec fn ordered(entries: Seq<(Seq<char>, JsonTree)>) -> bool {
    forall|i: int, j: int|
        0 <= i < j < entries.len() ==> text_before(
            (#[trigger] entries[i]).0,
            (#[trigger] entries[j]).0,
        )
}

/// The value of the first entry with the given key.
pub open spec fn lookup(entries: Seq<(Seq<char>, JsonTree)>, key: Seq<char>) -> Option<JsonTree>
    decreases entries.len(),
{
    if entries.len() == 0 {
        None
    } else if entries[0].0 == key {
        Some(entries[0].1)
    } else {
        lookup(entries.drop_first(), key)
    }
}

impl JsonTree {
    /// The value under `key`, if this is an object that has the key.
    pub open spec fn field(self, key: Seq<char>) -> Option<JsonTree> {
        match self {
            JsonTree::Object(entries) => lookup(entries, key),
            _ => None,
        }
    }

    /// The text, if this is one.
    pub open spec fn text(self) -> Option<Seq<char>> {
        match self {
            JsonTree::Text(s) => Some(s),
            _ => None,
        }
    }

    /// The text under `key`.
    pub open spec fn field_text(self, key: Seq<char>) -> Option<Seq<char>> {
        match self.field(key) {
            Some(value) => value.text(),
            None => None,
        }
    }

    /// The integer, if this is a number that holds one.
    pub open spec fn integer(self) -> Option<i64> {
        match self {
            JsonTree::Number(n) => number_int(n),
            _ => None,
        }
    }

    /// The entries of every object stand in the order of their keys.
    pub open spec fn neat(self) -> bool
        decreases self,
    {
        match self {
            JsonTree::Array(items) => forall|i: int|
                0 <= i < items.len() ==> (#[trigger] items[i]).neat(),
            JsonTree::Object(entries) => ordered(entries) && forall|i: int|
                0 <= i < entries.len() ==> (#[trigger] entries[i]).1.neat(),
            _ => true,
        }
    }

    /// The tree with the entries of every object put into an ordered map.
    pub open spec fn settled(self) -> JsonTree
        decreases self,
    {
        match self {
            JsonTree::Array(items) => JsonTree::Array(
                Seq::new(
                    items.len(),
                    |i: int|
                        if 0 <= i < items.len() {
                            items[i].settled()
                        } else {
                            JsonTree::Null
                        },
                ),
            ),
            JsonTree::Object(entries) => JsonTree::Object(
                entries_from(Self::settled_pairs(entries)),
            ),
            _ => self,
        }
    }

    /// The entries with every value settled.
    pub open spec fn settled_pairs(entries: Seq<(Seq<char>, JsonTree)>) -> Seq<
        (Seq<char>, JsonTree),
    >
        decreases entries,
    {
        Seq::new(
            entries.len(),
            |i: int|
                if 0 <= i < entries.len() {
                    (entries[i].0, entries[i].1.settled())
                } else {
                    (Seq::empty(), JsonTree::Null)
                },
        )
    }
}

// ---------------------------------------------------------------------------
// Values
// ---------------------------------------------------------------------------

/// A JSON value.
#[derive(Debug, PartialEq)]
pub enum Json {
    Null,
    Bool(bool),
    Number(serde_json::Number),
    Text(String),
    Array(Vec<Json>),
    Object(Vec<(String, Json)>),
}

impl Json {
    pub open spec fn tree(self) -> JsonTree
        decreases self,
    {
        match self {
            Json::Null => JsonTree::Null,
            Json::Bool(b) => JsonTree::Bool(b),
            Json::Number(n) => JsonTree::Number(n),
            Json::Text(s) => JsonTree::Text(s@),
            Json::Array(items) => JsonTree::Array(
                Seq::new(
                    items@.len(),
                    |i: int|
                        if 0 <= i < items@.len() {
                            items@[i].tree()
                        } else {
                            JsonTree::Null
                        },
                ),
            ),
            Json::Object(entries) => JsonTree::Object(
                Seq::new(
                    entries@.len(),
                    |i: int|
                        if 0 <= i < entries@.len() {
                            (entries@[i].0@, entries@[i].1.tree())
                        } else {
                            (Seq::empty(), JsonTree::Null)
                        },
                ),
            ),
        }
    }
}

impl View for Json {
    type V = JsonTree;

    open spec fn view(&self) -> JsonTree {
        self.tree()
    }
}

/// The trees of a list of values.
pub open spec fn trees(items: Seq<Json>) -> Seq<JsonTree> {
    Seq::new(items.len(), |i: int| items[i]@)
}

/// The entries of an object as keys and trees.
pub open spec fn entry_trees(entries: Seq<(String, Json)>) -> Seq<(Seq<char>, JsonTree)> {
    Seq::new(entries.len(), |i: int| (entries[i].0@, entries[i].1@))
}

/// The tree of an optional value.
pub open spec fn opt_tree(j: Option<Json>) -> Option<JsonTree> {
    match j {
        Some(value) => Some(value@),
        None => None,
    }
}

/// The tree of an optional borrowed value.
pub open spec fn opt_tree_ref(j: Option<&Json>) -> Option<JsonTree> {
    match j {
        Some(value) => Some(value@),
        None => None,
    }
}

/// An array's tree is the list of its items' trees.
pub broadcast proof fn lemma_array_tree(items: Vec<Json>)
    ensures
        #[trigger] Json::Array(items).tree() == JsonTree::Array(trees(items@)),
{
    let t = Json::Array(items).tree();
    assert(t->Array_0 =~= trees(items@));
}

/// An object's tree is the list of its entries' keys and trees.
pub broadcast proof fn lemma_object_tree(entries: Vec<(String, Json)>)
    ensures
        #[trigger] Json::Object(entries).tree() == JsonTree::Object(entry_trees(entries@)),
{
    let t = Json::Object(entries).tree();
    assert(t->Object_0 =~= entry_trees(entries@));
}

proof fn lemma_item_smaller(json: Json, i: int)
    requires
        json is Array,
        0 <= i < json->Array_0@.len(),
    ensures
        decreases_to!(json => json->Array_0@[i]),
{
    assert(decreases_to!(json => json->Array_0));
    assert(decreases_to!(json->Array_0 => json->Array_0@));
    assert(decreases_to!(json->Array_0@ => json->Array_0@[i]));
}

proof fn lemma_entry_smaller(json: Json, i: int)
    requires
        json is Object,
        0 <= i < json->Object_0@.len(),
    ensures
        decreases_to!(json => json->Object_0@[i].1),
{
    assert(decreases_to!(json => json->Object_0));
    assert(decreases_to!(json->Object_0 => json->Object_0@));
    assert(decreases_to!(json->Object_0@ => json->Object_0@[i]));
    assert(decreases_to!(json->Object_0@[i] => json->Object_0@[i].1));
}

/// An item of an array is smaller than the array.
pub proof fn lemma_item_tree_smaller(tree: JsonTree, i: int)
    requires
        tree is Array,
        0 <= i < tree->Array_0.len(),
    ensures
        decreases_to!(tree => tree->Array_0[i]),
{
    assert(decreases_to!(tree => tree->Array_0));
    assert(decreases_to!(tree->Array_0 => tree->Array_0[i]));
}

/// A value of an object is smaller than the object.
pub proof fn lemma_entry_tree_smaller(tree: JsonTree, i: int)
    requires
        tree is Object,
        0 <= i < tree->Object_0.len(),
    ensures
        decreases_to!(tree => tree->Object_0[i].1),
{
    assert(decreases_to!(tree => tree->Object_0));
    assert(decreases_to!(tree->Object_0 => tree->Object_0[i]));
    assert(decreases_to!(tree->Object_0[i] => tree->Object_0[i].1));
}

impl Clone for Json {
    fn clone(&self) -> (r: Json)
        ensures
            r@ == self@,
        decreases self,
    {
        broadcast use {lemma_array_tree, lemma_object_tree};

        match self {
            Json::Null => Json::Null,
            Json::Bool(b) => Json::Bool(*b),
            Json::Number(n) => Json::Number(number_copy(n)),
            Json::Text(s) => Json::Text(s.clone()),
            Json::Array(items) => {
                let mut out: Vec<Json> = Vec::new();
                for i in 0..items.len()
                    invariant
                        *self == Json::Array(*items),
                        out@.len() == i,
                        forall|j: int| 0 <= j < i ==> (#[trigger] out@[j])@ == items@[j]@,
                {
                    proof {
                        lemma_item_smaller(*self, i as int);
                    }
                    let item = items[i].clone();
                    out.push(item);
                }
                assert(trees(out@) =~= trees(items@));
                Json::Array(out)
            },
            Json::Object(entries) => {
                let mut out: Vec<(String, Json)> = Vec::new();
                for i in 0..entries.len()
                    invariant
                        *self == Json::Object(*entries),
                        out@.len() == i,
                        forall|j: int|
                            0 <= j < i ==> {
                                &&& (#[trigger] out@[j]).0@ == entries@[j].0@
                                &&& out@[j].1@ == entries@[j].1@
                            },
                {
                    proof {
                        lemma_entry_smaller(*self, i as int);
                    }
                    let key = entries[i].0.clone();
                    let value = entries[i].1.clone();
                    out.push((key, value));
                }
                assert(entry_trees(out@) =~= entry_trees(entries@));
                Json::Object(out)
            },
        }
    }
}

/// `serde_json::Number::clone`: the copy is the same number.
#[verifier::external_body]
fn number_copy(n: &serde_json::Number) -> (r: serde_json::Number)
    ensures
        r == *n,
{
    n.clone()
}

// ---------------------------------------------------------------------------
// Passage through serde_json
// ---------------------------------------------------------------------------

/// One level of a borrowed `serde_json::Value`.
enum ValueRef<'a> {
    Null,
    Bool(bool),
    Number(&'a serde_json::Number),
    Text(&'a String),
    Array(&'a Vec<serde_json::Value>),
    Object(Vec<(&'a String, &'a serde_json::Value)>),
}

/// One level of a `serde_json::Value` to be made.
enum ValueParts {
    Null,
    Bool(bool),
    Number(serde_json::Number),
    Text(String),
    Array(Vec<serde_json::Value>),
    Object(Vec<(String, serde_json::Value)>),
}

spec fn value_trees(items: Seq<serde_json::Value>) -> Seq<JsonTree> {
    Seq::new(items.len(), |i: int| value_tree(items[i]))
}

spec fn pair_trees(pairs: Seq<(String, serde_json::Value)>) -> Seq<(Seq<char>, JsonTree)> {
    Seq::new(pairs.len(), |i: int| (pairs[i].0@, value_tree(pairs[i].1)))
}

spec fn pair_ref_trees(pairs: Seq<(&String, &serde_json::Value)>) -> Seq<(Seq<char>, JsonTree)> {
    Seq::new(pairs.len(), |i: int| (pairs[i].0@, value_tree(*pairs[i].1)))
}

impl<'a> ValueRef<'a> {
    spec fn tree(self) -> JsonTree {
        match self {
            ValueRef::Null => JsonTree::Null,
            ValueRef::Bool(b) => JsonTree::Bool(b),
            ValueRef::Number(n) => JsonTree::Number(*n),
            ValueRef::Text(s) => JsonTree::Text(s@),
            ValueRef::Array(items) => JsonTree::Array(value_trees(items@)),
            ValueRef::Object(pairs) => JsonTree::Object(pair_ref_trees(pairs@)),
        }
    }
}

impl ValueParts {
    spec fn tree(self) -> JsonTree {
        match self {
            ValueParts::Null => JsonTree::Null,
            ValueParts::Bool(b) => JsonTree::Bool(b),
            ValueParts::Number(n) => JsonTree::Number(n),
            ValueParts::Text(s) => JsonTree::Text(s@),
            ValueParts::Array(items) => JsonTree::Array(value_trees(items@)),
            ValueParts::Object(pairs) => JsonTree::Object(entries_from(pair_trees(pairs@))),
        }
    }
}

/// `serde_json::Value`, told apart by its variants: each variant holds what the
/// same variant of the result holds, and the entries of an object come out in
/// the order in which its map is walked, which is that of the keys.
#[verifier::external_body]
fn look_into<'a>(value: &'a serde_json::Value) -> (r: ValueRef<'a>)
    ensures
        r.tree() == value_tree(*value),
        match r {
            ValueRef::Object(pairs) => ordered(pair_ref_trees(pairs@)),
            _ => true,
        },
{
    match value {
        serde_json::Value::Null => ValueRef::Null,
        serde_json::Value::Bool(b) => ValueRef::Bool(*b),
        serde_json::Value::Number(n) => ValueRef::Number(n),
        serde_json::Value::String(s) => ValueRef::Text(s),
        serde_json::Value::Array(items) => ValueRef::Array(items),
        serde_json::Value::Object(map) => ValueRef::Object(map.iter().collect()),
    }
}

/// `serde_json::Value`, made from the contents of one of its variants. Objects
/// are collected with `serde_json::Map::from_iter`: the map orders its entries
/// by key, and of two pairs with one key the later one stays.
#[verifier::external_body]
fn put_together(parts: ValueParts) -> (r: serde_json::Value)
    ensures
        value_tree(r) == parts.tree(),
{
    match parts {
        ValueParts::Null => serde_json::Value::Null,
        ValueParts::Bool(b) => serde_json::Value::Bool(b),
        ValueParts::Number(n) => serde_json::Value::Number(n),
        ValueParts::Text(s) => serde_json::Value::String(s),
        ValueParts::Array(items) => serde_json::Value::Array(items),
        ValueParts::Object(pairs) => serde_json::Value::Object(pairs.into_iter().collect()),
    }
}

/// `serde_json::from_str::<Value>`: the value that the text writes down, or
/// nothing where the text is refused. Which it is depends on the text alone.
#[verifier::external_body]
fn value_from_text(text: &str) -> (r: Option<serde_json::Value>)
    ensures
        match r {
            Some(value) => json_of_text(text@) == Some(value_tree(value)),
            None => json_of_text(text@) is None,
        },
{
    serde_json::from_str::<serde_json::Value>(text).ok()
}

/// `<serde_json::Value as Display>`, through `to_string`: a text that depends
/// on what the value holds.
#[verifier::external_body]
fn value_display(value: &serde_json::Value) -> (r: String)
    ensures
        r@ == display_text(value_tree(*value)),
{
    value.to_string()
}

/// `serde_json::to_string` on a value: no value is refused, and the text depends
/// on what the value holds.
#[verifier::external_body]
fn value_compact(value: &serde_json::Value) -> (r: Option<String>)
    ensures
        text::opt_string(r) == Some(compact_text(value_tree(*value))),
{
    serde_json::to_string(value).ok()
}

/// `serde_json::to_string_pretty` on a value: no value is refused, and the text
/// depends on what the value holds.
#[verifier::external_body]
fn value_pretty(value: &serde_json::Value) -> (r: Option<String>)
    ensures
        text::opt_string(r) == Some(pretty_text(value_tree(*value))),
{
    serde_json::to_string_pretty(value).ok()
}

/// `serde_json::Number::as_i64`: the integer that the number holds, if it is
/// one in that range.
#[verifier::external_body]
fn number_as_i64(n: &serde_json::Number) -> (r: Option<i64>)
    ensures
        r == number_int(*n),
{
    n.as_i64()
}

/// The value as plain data.
fn json_of_value(value: &serde_json::Value) -> (r: Json)
    ensures
        r@ == value_tree(*value),
        r@.neat(),
    decreases value_tree(*value),
{
    broadcast use {lemma_array_tree, lemma_object_tree};

    match look_into(value) {
        ValueRef::Null => Json::Null,
        ValueRef::Bool(b) => Json::Bool(b),
        ValueRef::Number(n) => Json::Number(number_copy(n)),
        ValueRef::Text(s) => Json::Text(s.clone()),
        ValueRef::Array(items) => {
            let mut out: Vec<Json> = Vec::new();
            for i in 0..items.len()
                invariant
                    value_tree(*value) == JsonTree::Array(value_trees(items@)),
                    out@.len() == i,
                    forall|j: int|
                        0 <= j < i ==> (#[trigger] out@[j])@ == value_tree(items@[j])
                            && out@[j]@.neat(),
            {
                assert(value_trees(items@)[i as int] == value_tree(items@[i as int]));
                proof {
                    lemma_item_tree_smaller(value_tree(*value), i as int);
                }
                let item = json_of_value(&items[i]);
                out.push(item);
            }
            assert(trees(out@) =~= value_trees(items@));
            assert forall|j: int| 0 <= j < trees(out@).len() implies (
            #[trigger] trees(out@)[j]).neat() by {
                assert(trees(out@)[j] == out@[j]@);
            }
            Json::Array(out)
        },
        ValueRef::Object(pairs) => {
            let mut out: Vec<(String, Json)> = Vec::new();
            for i in 0..pairs.len()
                invariant
                    value_tree(*value) == JsonTree::Object(pair_ref_trees(pairs@)),
                    ordered(pair_ref_trees(pairs@)),
                    out@.len() == i,
                    forall|j: int|
                        0 <= j < i ==> {
                            &&& (#[trigger] out@[j]).0@ == pairs@[j].0@
                            &&& out@[j].1@ == value_tree(*pairs@[j].1)
                            &&& out@[j].1@.neat()
                        },
            {
                assert(pair_ref_trees(pairs@)[i as int].1 == value_tree(*pairs@[i as int].1));
                proof {
                    lemma_entry_tree_smaller(value_tree(*value), i as int);
                }
                let item = json_of_value(pairs[i].1);
                out.push((pairs[i].0.clone(), item));
            }
            assert(entry_trees(out@) =~= pair_ref_trees(pairs@));
            assert forall|j: int| 0 <= j < entry_trees(out@).len() implies (
            #[trigger] entry_trees(out@)[j]).1.neat() by {
                assert(entry_trees(out@)[j].1 == out@[j].1@);
            }
            Json::Object(out)
        },
    }
}

/// The plain data as a value.
fn value_of_json(json: &Json) -> (r: serde_json::Value)
    ensures
        value_tree(r) == json@.settled(),
    decreases json,
{
    broadcast use {lemma_array_tree, lemma_object_tree};

    match json {
        Json::Null => put_together(ValueParts::Null),
        Json::Bool(b) => put_together(ValueParts::Bool(*b)),
        Json::Number(n) => put_together(ValueParts::Number(number_copy(n))),
        Json::Text(s) => put_together(ValueParts::Text(s.clone())),
        Json::Array(items) => {
            let mut out: Vec<serde_json::Value> = Vec::new();
            for i in 0..items.len()
                invariant
                    *json == Json::Array(*items),
                    out@.len() == i,
                    forall|j: int| 0 <= j < i ==> value_tree(#[trigger] out@[j]) == items@[j]@.settled(),
            {
                proof {
                    lemma_item_smaller(*json, i as int);
                }
                let item = value_of_json(&items[i]);
                out.push(item);
            }
            assert(value_trees(out@) =~= json@.settled()->Array_0);
            put_together(ValueParts::Array(out))
        },
        Json::Object(entries) => {
            let mut out: Vec<(String, serde_json::Value)> = Vec::new();
            for i in 0..entries.len()
                invariant
                    *json == Json::Object(*entries),
                    out@.len() == i,
                    forall|j: int| 0 <= j < i ==> {
                        &&& (#[trigger] out@[j]).0@ == entries@[j].0@
                        &&& value_tree(out@[j].1) == entries@[j].1@.settled()
                    },
            {
                proof {
                    lemma_entry_smaller(*json, i as int);
                }
                let item = value_of_json(&entries[i].1);
                out.push((entries[i].0.clone(), item));
            }
            assert(pair_trees(out@) =~= JsonTree::settled_pairs(entry_trees(entries@)));
            put_together(ValueParts::Object(out))
        },
    }
}

/// The value that a text writes down, or nothing where it is no JSON. The
/// entries of its objects stand in the order of their keys.
pub fn parse_json(text: &str) -> (r: Option<Json>)
    ensures
        opt_tree(r) == json_of_text(text@),
        match r {
            Some(json) => json@.neat(),
            None => true,
        },
{
    match value_from_text(text) {
        Some(value) => Some(json_of_value(&value)),
        None => None,
    }
}

impl Json {
    /// The text that the value prints.
    pub fn to_display(&self) -> (r: String)
        ensures
            r@ == display_text(self@.settled()),
    {
        value_display(&value_of_json(self))
    }

    /// The compact text of the value.
    pub fn to_compact(&self) -> (r: Option<String>)
        ensures
            text::opt_string(r) == Some(compact_text(self@.settled())),
    {
        value_compact(&value_of_json(self))
    }

    /// The indented text of the value.
    pub fn to_pretty(&self) -> (r: Option<String>)
        ensures
            text::opt_string(r) == Some(pretty_text(self@.settled())),
    {
        value_pretty(&value_of_json(self))
    }
}

// ---------------------------------------------------------------------------
// Reading and building
// ---------------------------------------------------------------------------

/// Whether `a` stands before `b` in the order of their characters.
pub fn stands_before(a: &str, b: &str) -> (r: bool)
    ensures
        r == text_before(a@, b@),
{
    let x = text::chars_of(a);
    let y = text::chars_of(b);
    let mut i: usize = 0;
    assert(a@.skip(0) =~= a@ && b@.skip(0) =~= b@);
    while i < x.len() && i < y.len() && x[i] == y[i]
        invariant
            x@ == a@,
            y@ == b@,
            i <= x@.len(),
            i <= y@.len(),
            text_before(a@, b@) == text_before(a@.skip(i as int), b@.skip(i as int)),
        decreases x@.len() - i,
    {
        assert(a@.skip(i as int).drop_first() =~= a@.skip(i + 1));
        assert(b@.skip(i as int).drop_first() =~= b@.skip(i + 1));
        i = i + 1;
    }
    if i == y.len() {
        false
    } else if i == x.len() {
        true
    } else {
        x[i] < y[i]
    }
}

/// Up to an entry that is neither `key` nor behind it, setting `key` leaves the
/// entries as they are.
pub proof fn lemma_entries_set_skips(
    entries: Seq<(Seq<char>, JsonTree)>,
    key: Seq<char>,
    value: JsonTree,
    n: int,
)
    requires
        0 <= n <= entries.len(),
        forall|j: int|
            0 <= j < n ==> (#[trigger] entries[j]).0 != key && !text_before(key, entries[j].0),
    ensures
        entries_set(entries, key, value) == entries.take(n) + entries_set(
            entries.skip(n),
            key,
            value,
        ),
    decreases n,
{
    if n == 0 {
        assert(entries.skip(0) =~= entries);
        assert(entries.take(0) + entries_set(entries, key, value) =~= entries_set(
            entries,
            key,
            value,
        ));
    } else {
        assert(entries[0].0 != key);
        let rest = entries.drop_first();
        assert forall|j: int| 0 <= j < n - 1 implies (#[trigger] rest[j]).0 != key && !text_before(
            key,
            rest[j].0,
        ) by {
            assert(rest[j] == entries[j + 1]);
        }
        lemma_entries_set_skips(rest, key, value, n - 1);
        assert(rest.skip(n - 1) =~= entries.skip(n));
        assert(seq![entries[0]] + (rest.take(n - 1) + entries_set(entries.skip(n), key, value))
            =~= entries.take(n) + entries_set(entries.skip(n), key, value));
    }
}

/// Sets `key` to `value` in an ordered list of entries.
pub fn set_entry(entries: &mut Vec<(String, Json)>, key: &str, value: Json)
    ensures
        entry_trees(final(entries)@) == entries_set(entry_trees(old(entries)@), key@, value@),
{
    let ghost before = entry_trees(entries@);
    let mut i: usize = 0;
    while i < entries.len() && !text::same(entries[i].0.as_str(), key) && !stands_before(
        key,
        entries[i].0.as_str(),
    )
        invariant
            i <= entries@.len(),
            before == entry_trees(entries@),
            *entries == *old(entries),
            forall|j: int|
                0 <= j < i ==> (#[trigger] before[j]).0 != key@ && !text_before(key@, before[j].0),
        decreases entries@.len() - i,
    {
        assert(before[i as int].0 == entries@[i as int].0@);
        i = i + 1;
    }
    proof {
        lemma_entries_set_skips(before, key@, value@, i as int);
    }
    if i < entries.len() {
        proof {
            assert(before.skip(i as int)[0] == before[i as int]);
            assert(before[i as int].0 == entries@[i as int].0@);
        }
        if text::same(entries[i].0.as_str(), key) {
            entries.set(i, (key.to_owned(), value));
            assert(entry_trees(entries@) =~= before.take(i as int) + (seq![(key@, value@)]
                + before.skip(i as int).drop_first()));
        } else {
            entries.insert(i, (key.to_owned(), value));
            assert(entry_trees(entries@) =~= before.take(i as int) + (seq![(key@, value@)]
                + before.skip(i as int)));
        }
    } else {
        entries.push((key.to_owned(), value));
        assert(before.skip(i as int).len() == 0);
        assert(entry_trees(entries@) =~= before.take(i as int) + seq![(key@, value@)]);
    }
}

/// The value of the first entry with the given key.
pub fn find_entry<'a>(entries: &'a Vec<(String, Json)>, key: &str) -> (r: Option<&'a Json>)
    ensures
        opt_tree_ref(r) == lookup(entry_trees(entries@), key@),
{
    let ghost listed = entry_trees(entries@);
    let mut i: usize = 0;
    assert(listed.skip(0) =~= listed);
    while i < entries.len()
        invariant
            i <= entries@.len(),
            listed == entry_trees(entries@),
            lookup(listed, key@) == lookup(listed.skip(i as int), key@),
        decreases entries@.len() - i,
    {
        assert(listed.skip(i as int)[0] == listed[i as int]);
        assert(listed.skip(i as int).drop_first() =~= listed.skip(i + 1));
        if text::same(entries[i].0.as_str(), key) {
            return Some(&entries[i].1);
        }
        i = i + 1;
    }
    None
}

impl Json {
    /// The value under `key`, if this is an object that has the key.
    pub fn get<'a>(&'a self, key: &str) -> (r: Option<&'a Json>)
        ensures
            opt_tree_ref(r) == self@.field(key@),
    {
        broadcast use lemma_object_tree;

        match self {
            Json::Object(entries) => find_entry(entries, key),
            _ => None,
        }
    }

    /// The text, if this is one.
    pub fn as_str<'a>(&'a self) -> (r: Option<&'a str>)
        ensures
            text::opt_text(r) == self@.text(),
    {
        match self {
            Json::Text(s) => Some(s.as_str()),
            _ => None,
        }
    }

    /// The text under `key`.
    pub fn get_str<'a>(&'a self, key: &str) -> (r: Option<&'a str>)
        ensures
            text::opt_text(r) == self@.field_text(key@),
    {
        match self.get(key) {
            Some(value) => value.as_str(),
            None => None,
        }
    }

    /// The integer, if this is a number that holds one.
    pub fn as_i64(&self) -> (r: Option<i64>)
        ensures
            r == self@.integer(),
    {
        match self {
            Json::Number(n) => number_as_i64(n),
            _ => None,
        }
    }

    /// Whether this is the null value.
    pub fn is_null(&self) -> (r: bool)
        ensures
            r == (self@ is Null),
    {
        match self {
            Json::Null => true,
            _ => false,
        }
    }
}

/// A copy of an optional value.
pub fn copy_json(j: Option<&Json>) -> (r: Option<Json>)
    ensures
        opt_tree(r) == opt_tree_ref(j),
{
    match j {
        Some(value) => Some(value.clone()),
        None => None,
    }
}

} // verus!
