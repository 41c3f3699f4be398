//! A JSON document as the library reads it.
//!
//! Documents are parsed and printed by the caller (with `serde_json`); the
//! library holds the parsed tree with object entries in the order the parser
//! produced them, and numbers as their integer value (when they have one)
//! together with their text.
use vstd::prelude::*;
use crate::text::{chars_of, eq_str};

verus! {

/// A JSON number: its value as an `i64` when it is one, and its text.
#[derive(Clone, Debug)]
pub struct JsonNumber {
    pub integer: Option<i64>,
    pub text: String,
}

/// A JSON value.
pub enum JsonValue {
    Null,
    Bool(bool),
    Number(JsonNumber),
    Str(String),
    Array(Vec<JsonValue>),
    Object(Vec<(String, JsonValue)>),
}

/// Index of the first entry with this key, or the number of entries.
pub open spec fn entry_index(entries: Seq<(String, JsonValue)>, key: Seq<char>) -> int
    decreases entries.len(),
{
    if entries.len() == 0 {
        0
    } else if entries[0].0@ == key {
        0
    } else {
        1 + entry_index(entries.drop_first(), key)
    }
}

pub proof fn lemma_entry_index(entries: Seq<(String, JsonValue)>, key: Seq<char>)
    ensures
        0 <= entry_index(entries, key) <= entries.len(),
        entry_index(entries, key) < entries.len() ==> entries[entry_index(entries, key)].0@
            == key,
        forall|k: int| 0 <= k < entry_index(entries, key) ==> (#[trigger] entries[k]).0@ != key,
    decreases entries.len(),
{
    if entries.len() > 0 && entries[0].0@ != key {
        lemma_entry_index(entries.drop_first(), key);
        assert forall|k: int| 0 <= k < entry_index(entries, key) implies (
        #[trigger] entries[k]).0@ != key by {
            if k > 0 {
                assert(entries[k] == entries.drop_first()[k - 1]);
            }
        }
    }
}

/// `Value::get` with a key: the member of an object, `None` otherwise.
pub open spec fn get_spec(v: JsonValue, key: Seq<char>) -> Option<JsonValue> {
    match v {
        JsonValue::Object(entries) => {
            let i = entry_index(entries@, key);
            if i < entries@.len() {
                Some(entries@[i].1)
            } else {
                None
            }
        },
        _ => None,
    }
}

/// `Value::get` with a key.
pub fn get<'a>(v: &'a JsonValue, key: &str) -> (r: Option<&'a JsonValue>)
    ensures
        match get_spec(*v, key@) {
            Some(x) => r matches Some(y) && *y == x,
            None => r is None,
        },
{
    match v {
        JsonValue::Object(entries) => {
            let mut i: usize = 0;
            while i < entries.len()
                invariant
                    i <= entries.len(),
                    *v == JsonValue::Object(*entries),
                    forall|k: int| 0 <= k < i ==> (#[trigger] entries@[k]).0@ != key@,
                decreases entries.len() - i,
            {
                let name = chars_of(entries[i].0.as_str());
                if eq_str(&name, key) {
                    proof {
                        lemma_entry_index(entries@, key@);
                        lemma_entry_index_unique(entries@, key@, i as int);
                        assert(entries@[i as int].0@ == key@);
                        assert(*v == JsonValue::Object(*entries));
                        assert(entry_index(entries@, key@) == i);
                        assert(get_spec(*v, key@) == Some(entries@[i as int].1));
                    }
                    return Some(&entries[i].1);
                }
                i = i + 1;
            }
            proof {
                lemma_entry_index_unique(entries@, key@, i as int);
            }
            None
        },
        _ => None,
    }
}

pub proof fn lemma_entry_index_unique(entries: Seq<(String, JsonValue)>, key: Seq<char>, i: int)
    requires
        0 <= i <= entries.len(),
        i < entries.len() ==> entries[i].0@ == key,
        forall|k: int| 0 <= k < i ==> (#[trigger] entries[k]).0@ != key,
    ensures
        entry_index(entries, key) == i,
    decreases entries.len(),
{
    if entries.len() > 0 && i > 0 {
        assert(entries[0].0@ != key);
        assert forall|k: int| 0 <= k < i - 1 implies (
        #[trigger] entries.drop_first()[k]).0@ != key by {
            assert(entries.drop_first()[k] == entries[k + 1]);
        }
        lemma_entry_index_unique(entries.drop_first(), key, i - 1);
    }
}

/// A JSON value with its text as character sequences.
pub enum JsonView {
    Null,
    Bool(bool),
    Number(Option<i64>, Seq<char>),
    Str(Seq<char>),
    Array(Seq<JsonView>),
    Object(Seq<(Seq<char>, JsonView)>),
}

pub open spec fn json_view(v: JsonValue) -> JsonView
    decreases v, 0int,
{
    match v {
        JsonValue::Null => JsonView::Null,
        JsonValue::Bool(b) => JsonView::Bool(b),
        JsonValue::Number(n) => JsonView::Number(n.integer, n.text@),
        JsonValue::Str(s) => JsonView::Str(s@),
        JsonValue::Array(items) => JsonView::Array(items_view(items@)),
        JsonValue::Object(entries) => JsonView::Object(entries_view(entries@)),
    }
}

pub open spec fn items_view(items: Seq<JsonValue>) -> Seq<JsonView>
    decreases items, 1int,
{
    if items.len() == 0 {
        seq![]
    } else {
        seq![json_view(items[0])] + items_view(items.drop_first())
    }
}

pub open spec fn entries_view(entries: Seq<(String, JsonValue)>) -> Seq<(Seq<char>, JsonView)>
    decreases entries, 1int,
{
    if entries.len() == 0 {
        seq![]
    } else {
        seq![(entries[0].0@, json_view(entries[0].1))] + entries_view(entries.drop_first())
    }
}

pub proof fn lemma_items_view(items: Seq<JsonValue>)
    ensures
        items_view(items).len() == items.len(),
        forall|i: int| 0 <= i < items.len() ==> #[trigger] items_view(items)[i] == json_view(items[i]),
    decreases items.len(),
{
    if items.len() > 0 {
        lemma_items_view(items.drop_first());
        assert forall|i: int| 0 <= i < items.len() implies #[trigger] items_view(items)[i]
            == json_view(items[i]) by {
            if i > 0 {
                assert(items_view(items)[i] == items_view(items.drop_first())[i - 1]);
                assert(items.drop_first()[i - 1] == items[i]);
            }
        }
    }
}

pub proof fn lemma_entries_view(entries: Seq<(String, JsonValue)>)
    ensures
        entries_view(entries).len() == entries.len(),
        forall|i: int|
            0 <= i < entries.len() ==> #[trigger] entries_view(entries)[i] == (
                entries[i].0@,
                json_view(entries[i].1),
            ),
    decreases entries.len(),
{
    if entries.len() > 0 {
        lemma_entries_view(entries.drop_first());
        assert forall|i: int| 0 <= i < entries.len() implies #[trigger] entries_view(entries)[i]
            == (entries[i].0@, json_view(entries[i].1)) by {
            if i > 0 {
                assert(entries_view(entries)[i] == entries_view(entries.drop_first())[i - 1]);
                assert(entries.drop_first()[i - 1] == entries[i]);
            }
        }
    }
}

/// A sequence of views is the view of a sequence of values when it agrees
/// element by element.
pub proof fn lemma_items_view_ext(items: Seq<JsonValue>, views: Seq<JsonView>)
    requires
        views.len() == items.len(),
        forall|i: int| 0 <= i < items.len() ==> #[trigger] views[i] == json_view(items[i]),
    ensures
        items_view(items) == views,
{
    lemma_items_view(items);
    assert(items_view(items) =~= views);
}

pub proof fn lemma_entries_view_ext(
    entries: Seq<(String, JsonValue)>,
    views: Seq<(Seq<char>, JsonView)>,
)
    requires
        views.len() == entries.len(),
        forall|i: int|
            0 <= i < entries.len() ==> #[trigger] views[i] == (
                entries[i].0@,
                json_view(entries[i].1),
            ),
    ensures
        entries_view(entries) == views,
{
    lemma_entries_view(entries);
    assert(entries_view(entries) =~= views);
}

} // verus!
