//! JSON values as the library reads them, and the bytes `serde_json`
//! writes for them.

use vstd::prelude::*;
use vstd::string::*;

use crate::authoring::diff::key_order;
use crate::text::text_eq;

verus! {

broadcast use vstd::string::group_string_axioms;

/// A JSON value. A number is held as its JSON text (`1`, `-3`, `0.5`); an
/// object as its entries in order.
#[derive(Debug, PartialEq, Eq)]
pub enum JsonValue {
    Null,
    Bool(bool),
    Number(String),
    String(String),
    Array(Vec<JsonValue>),
    Object(Vec<(String, JsonValue)>),
}

/// A JSON value as plain values.
pub enum JsonView {
    Null,
    Bool(bool),
    Number(Seq<char>),
    String(Seq<char>),
    Array(Seq<JsonView>),
    Object(Seq<(Seq<char>, JsonView)>),
}

pub open spec fn json_view(v: JsonValue) -> JsonView
    decreases v,
{
    match v {
        JsonValue::Null => JsonView::Null,
        JsonValue::Bool(b) => JsonView::Bool(b),
        JsonValue::Number(n) => JsonView::Number(n@),
        JsonValue::String(s) => JsonView::String(s@),
        JsonValue::Array(a) => JsonView::Array(
            Seq::new(
                a@.len(),
                |i: int|
                    if 0 <= i < a@.len() {
                        json_view(a@[i])
                    } else {
                        JsonView::Null
                    },
            ),
        ),
        JsonValue::Object(o) => JsonView::Object(
            Seq::new(
                o@.len(),
                |i: int|
                    if 0 <= i < o@.len() {
                        (o@[i].0@, json_view(o@[i].1))
                    } else {
                        (Seq::empty(), JsonView::Null)
                    },
            ),
        ),
    }
}

impl View for JsonValue {
    type V = JsonView;

    open spec fn view(&self) -> JsonView {
        json_view(*self)
    }
}

} // verus!

verus! {

/// The keys of an object's entries.
pub open spec fn entry_keys(es: Seq<(Seq<char>, JsonView)>) -> Set<Seq<char>> {
    Set::new(|k: Seq<char>| entry_lookup(es, k) is Some)
}

/// An object's entries as `serde_json` keeps them: each key once, with
/// the value of its last entry, in ascending key order.
pub open spec fn sorted_entries(es: Seq<(Seq<char>, JsonView)>) -> Seq<(Seq<char>, JsonView)> {
    key_order(entry_keys(es)).map_values(|k: Seq<char>| (k, entry_lookup(es, k)->Some_0))
}

/// An object's entries with their values in normal form.
pub open spec fn normal_entries(es: Seq<(Seq<char>, JsonView)>) -> Seq<(Seq<char>, JsonView)>
    decreases es,
{
    Seq::new(
        es.len(),
        |i: int|
            if 0 <= i < es.len() {
                (es[i].0, json_normal(es[i].1))
            } else {
                (Seq::<char>::empty(), JsonView::Null)
            },
    )
}

/// A JSON value as `serde_json` holds it: every object, nested ones too,
/// with its entries as `sorted_entries` leaves them.
pub open spec fn json_normal(v: JsonView) -> JsonView
    decreases v,
{
    match v {
        JsonView::Array(a) => JsonView::Array(
            Seq::new(
                a.len(),
                |i: int|
                    if 0 <= i < a.len() {
                        json_normal(a[i])
                    } else {
                        JsonView::Null
                    },
            ),
        ),
        JsonView::Object(es) => JsonView::Object(sorted_entries(normal_entries(es))),
        _ => v,
    }
}

/// The bytes `serde_json::to_vec` writes for a JSON value as `serde_json`
/// holds it: compact, a number as `serde_json` writes the number its text
/// parses to.
pub uninterp spec fn json_bytes(v: JsonView) -> Seq<u8>;

/// The text `serde_json::to_string` writes for a JSON value as
/// `serde_json` holds it.
pub uninterp spec fn json_text(v: JsonView) -> Seq<char>;

/// The JSON value `serde_json::from_str` reads from a text, as `serde_json`
/// holds it; `None` when the text is not JSON.
pub uninterp spec fn json_parse(text: Seq<char>) -> Option<JsonView>;

/// A JSON value as a `serde_json::Value`, entry for entry (a later entry
/// of a key replaces an earlier one); a number text that does not parse as
/// a number becomes null.
#[verifier::external_body]
fn to_serde_json(v: &JsonValue) -> serde_json::Value {
    match v {
        JsonValue::Null => serde_json::Value::Null,
        JsonValue::Bool(b) => serde_json::Value::Bool(*b),
        JsonValue::Number(n) => n.parse::<serde_json::Number>().map_or(serde_json::Value::Null, serde_json::Value::Number),
        JsonValue::String(s) => serde_json::Value::String(s.clone()),
        JsonValue::Array(a) => serde_json::Value::Array(a.iter().map(to_serde_json).collect()),
        JsonValue::Object(o) => serde_json::Value::Object(o.iter().map(|(k, x)| (k.clone(), to_serde_json(x))).collect()),
    }
}

/// A `serde_json::Value` as a JSON value, entry for entry; a number as the
/// text `serde_json` writes for it.
#[verifier::external_body]
fn from_serde_json(v: &serde_json::Value) -> JsonValue {
    match v {
        serde_json::Value::Null => JsonValue::Null,
        serde_json::Value::Bool(b) => JsonValue::Bool(*b),
        serde_json::Value::Number(n) => JsonValue::Number(n.to_string()),
        serde_json::Value::String(s) => JsonValue::String(s.clone()),
        serde_json::Value::Array(a) => JsonValue::Array(a.iter().map(from_serde_json).collect()),
        serde_json::Value::Object(o) => JsonValue::Object(o.iter().map(|(k, x)| (k.clone(), from_serde_json(x))).collect()),
    }
}

/// `serde_json::to_vec` on a JSON value (which cannot fail on a
/// `serde_json::Value`). The value's map keeps its keys in ascending order
/// (`serde_json` is built without `preserve_order`), so the bytes are those
/// of the value's normal form.
#[verifier::external_body]
pub(crate) fn json_value_bytes(v: &JsonValue) -> (r: Vec<u8>)
    ensures
        r@ == json_bytes(json_normal(v@)),
{
    serde_json::to_vec(&to_serde_json(v)).unwrap_or_default()
}

/// `serde_json::to_string` on a JSON value (which cannot fail on a
/// `serde_json::Value`); as for the bytes, the text is that of the value's
/// normal form.
#[verifier::external_body]
pub(crate) fn json_value_text(v: &JsonValue) -> (r: String)
    ensures
        r@ == json_text(json_normal(v@)),
{
    serde_json::to_string(&to_serde_json(v)).unwrap_or_default()
}

/// `serde_json::from_str::<serde_json::Value>` on a text.
#[verifier::external_body]
pub(crate) fn parse_json_text(text: &str) -> (r: Option<JsonValue>)
    ensures
        match r {
            Some(v) => json_parse(text@) == Some(v@),
            None => json_parse(text@) is None,
        },
{
    serde_json::from_str::<serde_json::Value>(text).ok().map(|v| from_serde_json(&v))
}

/// The value under `key` among an object's entries: the last entry with
/// that key.
pub open spec fn entry_lookup(es: Seq<(Seq<char>, JsonView)>, key: Seq<char>) -> Option<JsonView>
    decreases es.len(),
{
    if es.len() == 0 {
        None
    } else if es.last().0 == key {
        Some(es.last().1)
    } else {
        entry_lookup(es.drop_last(), key)
    }
}

/// The value under `key` of an object; nothing for any other value.
pub open spec fn json_get(v: JsonView, key: Seq<char>) -> Option<JsonView> {
    match v {
        JsonView::Object(es) => entry_lookup(es, key),
        _ => None,
    }
}

/// `key` is absent from `v`, or null there.
pub open spec fn null_or_absent(v: JsonView, key: Seq<char>) -> bool {
    match json_get(v, key) {
        None => true,
        Some(JsonView::Null) => true,
        Some(_) => false,
    }
}

/// Whether `key` is absent from the object `v`, or null there.
pub fn is_null_or_absent(v: &JsonValue, key: &str) -> (r: bool)
    ensures
        r == null_or_absent(v@, key@),
{
    match v {
        JsonValue::Object(o) => {
            let ghost es = match v@ {
                JsonView::Object(es) => es,
                _ => Seq::empty(),
            };
            assert(v@ == JsonView::Object(es));
            assert(es.len() == o@.len());
            let mut i: usize = o.len();
            assert(es.take(i as int) =~= es);
            while i > 0
                invariant
                    i <= o@.len(),
                    es.len() == o@.len(),
                    v@ == JsonView::Object(es),
                    forall|j: int| 0 <= j < o@.len() ==> #[trigger] es[j] == (o@[j].0@, json_view(o@[j].1)),
                    entry_lookup(es, key@) == entry_lookup(es.take(i as int), key@),
                decreases i,
            {
                assert(es.take(i as int).drop_last() =~= es.take(i - 1));
                assert(es.take(i as int).last() == es[i - 1]);
                assert(es[i - 1] == (o@[i - 1].0@, json_view(o@[i - 1].1)));
                if text_eq(o[i - 1].0.as_str(), key) {
                    assert(entry_lookup(es, key@) == Some(json_view(o@[i - 1].1)));
                    assert(json_get(v@, key@) == Some(json_view(o@[i - 1].1)));
                    return match &o[i - 1].1 {
                        JsonValue::Null => true,
                        _ => {
                            assert(!(json_view(o@[i - 1].1) is Null));
                            false
                        },
                    };
                }
                i -= 1;
            }
            true
        },
        _ => true,
    }
}

proof fn lemma_lookup_mapped(es: Seq<(Seq<char>, JsonView)>, k: Seq<char>)
    ensures
        entry_lookup(
            normal_entries(es),
            k,
        ) == match entry_lookup(es, k) {
            Some(x) => Some(json_normal(x)),
            None => None,
        },
    decreases es.len(),
{
    let ns = normal_entries(es);
    if es.len() > 0 {
        let d = es.drop_last();
        lemma_lookup_mapped(d, k);
        let nd = normal_entries(d);
        assert(ns.drop_last() =~= nd);
        assert(ns.last() == (es.last().0, json_normal(es.last().1)));
    }
}

/// Two objects with the same entries, whatever their order (and whatever
/// earlier entries a repeated key had), are the same JSON value as
/// `serde_json` holds it.
pub proof fn lemma_entry_order_irrelevant(es1: Seq<(Seq<char>, JsonView)>, es2: Seq<(Seq<char>, JsonView)>)
    requires
        forall|k: Seq<char>| #[trigger] entry_lookup(es1, k) == entry_lookup(es2, k),
    ensures
        json_normal(JsonView::Object(es1)) == json_normal(JsonView::Object(es2)),
{
    let n1 = normal_entries(es1);
    let n2 = normal_entries(es2);
    assert forall|k: Seq<char>| entry_lookup(n1, k) == entry_lookup(n2, k) by {
        lemma_lookup_mapped(es1, k);
        lemma_lookup_mapped(es2, k);
        assert(entry_lookup(es1, k) == entry_lookup(es2, k));
    }
    assert(entry_keys(n1) =~= entry_keys(n2));
    assert(sorted_entries(n1) =~= sorted_entries(n2));
    assert(json_normal(JsonView::Object(es1)) == JsonView::Object(sorted_entries(n1)));
    assert(json_normal(JsonView::Object(es2)) == JsonView::Object(sorted_entries(n2)));
}

} // verus!
