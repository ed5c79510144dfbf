//! JSON text: reading and writing documents with `serde_json`.
//!
//! Documents cross into `serde_json` as its own `Value`. The conversion in both
//! directions is verified here; what is trusted is how one layer of a `Value`
//! is opened and closed, and that `serde_json` reads and writes text.

use vstd::prelude::*;
use vstd::utf8::encode_utf8;

use crate::json::{entries_view, items_view, number_json, Json, JsonView};

verus! {

/// A document as `serde_json` holds it.
#[verifier::external_type_specification]
#[verifier::external_body]
pub struct ExValue(serde_json::Value);

/// What a `serde_json` document says.
pub uninterp spec fn value_view(value: serde_json::Value) -> JsonView;

/// What `serde_json::from_str` makes of a text: the document, or the words of
/// the error.
pub uninterp spec fn json_parse(text: Seq<char>) -> Result<JsonView, Seq<char>>;

/// What `serde_json::from_slice` makes of some bytes: the document, or the
/// words of the error.
pub uninterp spec fn json_parse_bytes(bytes: Seq<u8>) -> Result<JsonView, Seq<char>>;

/// The compact text that `serde_json` writes for a document.
pub uninterp spec fn json_text(json: JsonView) -> Seq<char>;

/// The indented text that `serde_json` writes for a document.
pub uninterp spec fn json_pretty(json: JsonView) -> Seq<char>;

/// Whether reading gave `json`.
pub open spec fn gives(read: Result<JsonView, Seq<char>>, json: JsonView) -> bool {
    read == Ok::<JsonView, Seq<char>>(json)
}

/// How many levels of arrays and objects `serde_json` reads.
pub const MAX_NESTING: usize = 127;

/// Whether writing a document and reading it again loses nothing: its numbers
/// are integers of 64 bits, and its arrays and objects are nested at most
/// `levels` deep.
pub open spec fn storable(json: JsonView, levels: int) -> bool
    decreases json,
{
    match json {
        JsonView::Integer(n) => i64::MIN <= n <= u64::MAX,
        JsonView::Float(_) => false,
        JsonView::Array(items) => levels > 0 && (forall|i: int|
            0 <= i < items.len() ==> storable(#[trigger] items[i], levels - 1)),
        JsonView::Object(m) => levels > 0 && m.dom().finite() && (forall|k: Seq<char>|
            m.dom().contains(k) ==> storable(#[trigger] m[k], levels - 1)),
        _ => true,
    }
}

/// One layer of a `serde_json` document.
enum Layer {
    Null,
    Bool(bool),
    Number(serde_json::Number),
    String(String),
    Array(Vec<serde_json::Value>),
    Object(Vec<(String, serde_json::Value)>),
}

spec fn fields_view(entries: Seq<(String, serde_json::Value)>) -> Map<Seq<char>, JsonView>
    decreases entries.len(),
{
    if entries.len() == 0 {
        Map::empty()
    } else {
        fields_view(entries.drop_last()).insert(entries.last().0@, value_view(entries.last().1))
    }
}

spec fn layer_view(layer: Layer) -> JsonView {
    match layer {
        Layer::Null => JsonView::Null,
        Layer::Bool(b) => JsonView::Bool(b),
        Layer::Number(n) => number_json(n),
        Layer::String(s) => JsonView::String(s@),
        Layer::Array(items) => JsonView::Array(
            Seq::new(items@.len(), |i: int| value_view(items@[i])),
        ),
        Layer::Object(entries) => JsonView::Object(fields_view(entries@)),
    }
}

spec fn distinct_keys(entries: Seq<(String, serde_json::Value)>) -> bool {
    forall|i: int, j: int|
        0 <= i < j < entries.len() ==> (#[trigger] entries[i]).0@ != (#[trigger] entries[j]).0@
}

/// The variants of `serde_json::Value`, told apart. An object hands out each of
/// its entries once, so no key comes twice.
#[verifier::external_body]
fn open_value(value: serde_json::Value) -> (r: Layer)
    ensures
        layer_view(r) == value_view(value),
        r matches Layer::Object(entries) ==> distinct_keys(entries@),
{
    match value {
        serde_json::Value::Null => Layer::Null,
        serde_json::Value::Bool(b) => Layer::Bool(b),
        serde_json::Value::Number(n) => Layer::Number(n),
        serde_json::Value::String(s) => Layer::String(s),
        serde_json::Value::Array(items) => Layer::Array(items),
        serde_json::Value::Object(map) => Layer::Object(map.into_iter().collect()),
    }
}

/// The variants of `serde_json::Value`, put together. An object starts empty
/// and is filled with [`put_entry`].
#[verifier::external_body]
fn close_value(layer: Layer) -> (r: serde_json::Value)
    requires
        layer matches Layer::Object(entries) ==> entries@.len() == 0,
    ensures
        value_view(r) == layer_view(layer),
{
    match layer {
        Layer::Null => serde_json::Value::Null,
        Layer::Bool(b) => serde_json::Value::Bool(b),
        Layer::Number(n) => serde_json::Value::Number(n),
        Layer::String(s) => serde_json::Value::String(s),
        Layer::Array(items) => serde_json::Value::Array(items),
        Layer::Object(_) => serde_json::Value::Object(serde_json::Map::new()),
    }
}

/// `IndexMut` of `serde_json::Value`: writing under a key of an object puts the
/// value there, in place of what stood there before.
#[verifier::external_body]
fn put_entry(object: &mut serde_json::Value, key: String, value: serde_json::Value)
    requires
        value_view(*old(object)) is Object,
    ensures
        value_view(*final(object)) == value_view(*old(object)).with(key@, value_view(value)),
{
    object[key] = value;
}

/// `serde_json::from_str`: the document that the text holds, or the words of the
/// error.
#[verifier::external_body]
fn value_from_str(text: &str) -> (r: Result<serde_json::Value, String>)
    ensures
        match r {
            Ok(value) => json_parse(text@) == Ok::<JsonView, Seq<char>>(value_view(value)),
            Err(words) => json_parse(text@) == Err::<JsonView, Seq<char>>(words@),
        },
{
    match serde_json::from_str(text) {
        Ok(value) => Ok(value),
        Err(error) => Err(error.to_string()),
    }
}

/// `serde_json::from_slice`: the document that the bytes hold, or the words of
/// the error.
#[verifier::external_body]
fn value_from_slice(bytes: &[u8]) -> (r: Result<serde_json::Value, String>)
    ensures
        match r {
            Ok(value) => json_parse_bytes(bytes@) == Ok::<JsonView, Seq<char>>(value_view(value)),
            Err(words) => json_parse_bytes(bytes@) == Err::<JsonView, Seq<char>>(words@),
        },
{
    match serde_json::from_slice(bytes) {
        Ok(value) => Ok(value),
        Err(error) => Err(error.to_string()),
    }
}

/// `serde_json::Value` as compact text. Read again with `serde_json::from_str`,
/// the text of a storable document gives the same document.
#[verifier::external_body]
fn value_to_string(value: &serde_json::Value) -> (r: String)
    ensures
        r@ == json_text(value_view(*value)),
        storable(value_view(*value), MAX_NESTING as int) ==> gives(json_parse(r@), value_view(*value)),
{
    value.to_string()
}

/// `serde_json::to_string_pretty`, which does not fail on a document. Read again
/// with `serde_json::from_slice`, the bytes of a storable document give the same
/// document.
#[verifier::external_body]
fn value_to_string_pretty(value: &serde_json::Value) -> (r: String)
    ensures
        r@ == json_pretty(value_view(*value)),
        storable(value_view(*value), MAX_NESTING as int) ==> gives(json_parse_bytes(encode_utf8(r@)), value_view(*value)),
{
    serde_json::to_string_pretty(value).unwrap_or_default()
}

/// The keys of a list of entries without doubles are the keys of its map, each
/// with its own value.
proof fn lemma_fields(entries: Seq<(String, serde_json::Value)>, i: int)
    requires
        distinct_keys(entries),
        0 <= i < entries.len(),
    ensures
        fields_view(entries).dom().finite(),
        fields_view(entries).dom().contains(entries[i].0@),
        fields_view(entries)[entries[i].0@] == value_view(entries[i].1),
    decreases entries.len(),
{
    lemma_fields_finite(entries);
    if i < entries.len() - 1 {
        assert(distinct_keys(entries.drop_last())) by {
            assert forall|a: int, b: int| 0 <= a < b < entries.len() - 1 implies (
            #[trigger] entries.drop_last()[a]).0@ != (#[trigger] entries.drop_last()[b]).0@ by {
                assert(entries[a].0@ != entries[b].0@);
            }
        }
        lemma_fields(entries.drop_last(), i);
        assert(entries[i].0@ != entries[entries.len() - 1].0@);
    }
}

proof fn lemma_fields_finite(entries: Seq<(String, serde_json::Value)>)
    ensures
        fields_view(entries).dom().finite(),
    decreases entries.len(),
{
    if entries.len() > 0 {
        lemma_fields_finite(entries.drop_last());
    }
}

/// The document that a `serde_json` value holds.
pub fn from_value(value: serde_json::Value) -> (r: Json)
    ensures
        r@ == value_view(value),
    decreases value_view(value),
{
    let ghost view = value_view(value);
    match open_value(value) {
        Layer::Null => Json::Null,
        Layer::Bool(b) => Json::Bool(b),
        Layer::Number(n) => Json::Number(n),
        Layer::String(s) => Json::String(s),
        Layer::Array(items) => {
            let ghost values = items@;
            let ghost n = items@.len() as int;
            let mut rest = items;
            let mut tail: Vec<Json> = Vec::new();
            while rest.len() > 0
                invariant
                    view == value_view(value),
                    view == JsonView::Array(Seq::new(values.len(), |i: int| value_view(values[i]))),
                    rest@ == values.take(rest@.len() as int),
                    rest@.len() <= values.len(),
                    tail@.len() == values.len() - rest@.len(),
                    forall|i: int|
                        0 <= i < tail@.len() ==> (#[trigger] tail@[i])@ == value_view(
                            values[values.len() - 1 - i],
                        ),
                decreases rest@.len(),
            {
                let item = rest.pop().unwrap();
                assert(view->Array_0[rest@.len() as int] == value_view(item));
                assert(decreases_to!(view => view->Array_0));
                assert(decreases_to!(view->Array_0 => view->Array_0[rest@.len() as int]));
                tail.push(from_value(item));
            }
            let mut out: Vec<Json> = Vec::new();
            while tail.len() > 0
                invariant
                    tail@.len() + out@.len() == values.len(),
                    forall|i: int|
                        0 <= i < tail@.len() ==> (#[trigger] tail@[i])@ == value_view(
                            values[values.len() - 1 - i],
                        ),
                    forall|i: int|
                        0 <= i < out@.len() ==> (#[trigger] out@[i])@ == value_view(values[i]),
                decreases tail@.len(),
            {
                out.push(tail.pop().unwrap());
            }
            assert(items_view(out@) == view->Array_0);
            Json::Array(out)
        },
        Layer::Object(entries) => {
            let ghost all = entries@;
            let mut rest = entries;
            let mut tail: Vec<(String, Json)> = Vec::new();
            while rest.len() > 0
                invariant
                    view == value_view(value),
                    view == JsonView::Object(fields_view(all)),
                    distinct_keys(all),
                    rest@ == all.take(rest@.len() as int),
                    rest@.len() <= all.len(),
                    tail@.len() == all.len() - rest@.len(),
                    forall|i: int|
                        0 <= i < tail@.len() ==> (#[trigger] tail@[i]).0@
                            == all[all.len() - 1 - i].0@ && tail@[i].1@ == value_view(
                            all[all.len() - 1 - i].1,
                        ),
                decreases rest@.len(),
            {
                let (key, item) = rest.pop().unwrap();
                proof {
                    lemma_fields(all, rest@.len() as int);
                    assert(view->Object_0[key@] == value_view(item));
                    assert(decreases_to!(view => view->Object_0));
                    assert(decreases_to!(view->Object_0 => view->Object_0[key@]));
                }
                tail.push((key, from_value(item)));
            }
            let mut out: Vec<(String, Json)> = Vec::new();
            assert(all.take(0) == Seq::<(String, serde_json::Value)>::empty());
            while tail.len() > 0
                invariant
                    tail@.len() + out@.len() == all.len(),
                    forall|i: int|
                        0 <= i < tail@.len() ==> (#[trigger] tail@[i]).0@
                            == all[all.len() - 1 - i].0@ && tail@[i].1@ == value_view(
                            all[all.len() - 1 - i].1,
                        ),
                    entries_view(out@) == fields_view(all.take(out@.len() as int)),
                decreases tail@.len(),
            {
                let ghost before = out@;
                out.push(tail.pop().unwrap());
                assert(out@.drop_last() == before);
                assert(all.take(out@.len() as int).drop_last() == all.take(before.len() as int));
            }
            assert(all.take(out@.len() as int) == all);
            Json::Object(out)
        },
    }
}

/// The document as `serde_json` holds it.
pub fn to_value(json: &Json) -> (r: serde_json::Value)
    ensures
        value_view(r) == json@,
    decreases json,
{
    match json {
        Json::Null => close_value(Layer::Null),
        Json::Bool(b) => close_value(Layer::Bool(*b)),
        Json::Number(n) => close_value(Layer::Number(n.clone())),
        Json::String(s) => close_value(Layer::String(s.clone())),
        Json::Array(items) => {
            let mut values: Vec<serde_json::Value> = Vec::new();
            let mut i: usize = 0;
            while i < items.len()
                invariant
                    i <= items@.len(),
                    json matches Json::Array(v) && v@ == items@,
                    values@.len() == i,
                    forall|k: int|
                        0 <= k < i ==> value_view(#[trigger] values@[k]) == items@[k]@,
                decreases items@.len() - i,
            {
                values.push(to_value(&items[i]));
                i = i + 1;
            }
            assert(Seq::new(values@.len(), |i: int| value_view(values@[i])) == items_view(items@));
            close_value(Layer::Array(values))
        },
        Json::Object(entries) => {
            let mut object = close_value(Layer::Object(Vec::new()));
            let mut i: usize = 0;
            while i < entries.len()
                invariant
                    i <= entries@.len(),
                    json matches Json::Object(v) && v@ == entries@,
                    value_view(object) == JsonView::Object(entries_view(entries@.take(i as int))),
                decreases entries@.len() - i,
            {
                let value = to_value(&entries[i].1);
                put_entry(&mut object, entries[i].0.clone(), value);
                assert(entries@.take(i + 1).drop_last() == entries@.take(i as int));
                i = i + 1;
            }
            assert(entries@.take(i as int) == entries@);
            object
        },
    }
}

/// The document that a text holds, or the words of the error.
pub fn parse(text: &str) -> (r: Result<Json, String>)
    ensures
        match r {
            Ok(json) => json_parse(text@) == Ok::<JsonView, Seq<char>>(json@),
            Err(words) => json_parse(text@) == Err::<JsonView, Seq<char>>(words@),
        },
{
    match value_from_str(text) {
        Ok(value) => Ok(from_value(value)),
        Err(words) => Err(words),
    }
}

/// The document that some bytes hold, or the words of the error.
pub fn parse_bytes(bytes: &[u8]) -> (r: Result<Json, String>)
    ensures
        match r {
            Ok(json) => json_parse_bytes(bytes@) == Ok::<JsonView, Seq<char>>(json@),
            Err(words) => json_parse_bytes(bytes@) == Err::<JsonView, Seq<char>>(words@),
        },
{
    match value_from_slice(bytes) {
        Ok(value) => Ok(from_value(value)),
        Err(words) => Err(words),
    }
}

/// The document as compact text. Reading the text of a storable document gives
/// the document back.
pub fn render(json: &Json) -> (r: String)
    ensures
        r@ == json_text(json@),
        storable(json@, MAX_NESTING as int) ==> gives(json_parse(r@), json@),
{
    value_to_string(&to_value(json))
}

/// The document as indented text. Reading the bytes of a storable document
/// gives the document back.
pub fn render_pretty(json: &Json) -> (r: String)
    ensures
        r@ == json_pretty(json@),
        storable(json@, MAX_NESTING as int) ==> gives(json_parse_bytes(encode_utf8(r@)), json@),
{
    value_to_string_pretty(&to_value(json))
}

/// Whether all the numbers of a document are integers.
pub open spec fn integral(json: JsonView) -> bool
    decreases json,
{
    match json {
        JsonView::Float(_) => false,
        JsonView::Array(items) => forall|i: int|
            0 <= i < items.len() ==> integral(#[trigger] items[i]),
        JsonView::Object(m) => forall|k: Seq<char>|
            m.dom().contains(k) ==> integral(#[trigger] m[k]),
        _ => true,
    }
}

/// `==` on `serde_json` values: whether they are the same document, in whatever
/// order an object has its entries. Of numbers that are no integers nothing is
/// said.
#[verifier::external_body]
fn values_equal(a: &serde_json::Value, b: &serde_json::Value) -> (r: bool)
    ensures
        integral(value_view(*a)) ==> r == (value_view(*a) == value_view(*b)),
{
    a == b
}

/// Whether two documents are the same, in whatever order an object has its
/// entries.
pub fn equal(a: &Json, b: &Json) -> (r: bool)
    ensures
        integral(a@) ==> r == (a@ == b@),
{
    values_equal(&to_value(a), &to_value(b))
}

}
