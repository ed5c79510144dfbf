//! JSON values: what tool inputs, tool schemas and wire messages are made of.
//!
//! A [`Json`] holds a JSON document as plain values. Contracts speak of its
//! view, a [`JsonView`], in which an object is a map from key to value.

use vstd::prelude::*;

use crate::codec::{equal, integral};
use crate::duplicate::{lemma_pushed, Duplicate};
use crate::text::same;

verus! {

/// A JSON number as `serde_json` holds it.
#[verifier::external_type_specification]
#[verifier::external_body]
pub struct ExNumber(serde_json::Number);

/// The integer that a `serde_json` number is, if it is one.
pub uninterp spec fn number_view(number: serde_json::Number) -> Option<int>;

/// `serde_json::Number::as_u64`: the number, where it is an integer and not
/// negative. No integer of `serde_json` is above `u64::MAX`.
#[verifier::external_body]
fn number_as_u64(number: &serde_json::Number) -> (r: Option<u64>)
    ensures
        r matches Some(n) ==> number_view(*number) == Some(n as int),
        r is None ==> (number_view(*number) matches Some(n) ==> n < 0),
{
    number.as_u64()
}

/// `serde_json::Number` from an integer without a sign.
#[verifier::external_body]
fn number_from_u64(n: u64) -> (r: serde_json::Number)
    ensures
        number_view(r) == Some(n as int),
{
    serde_json::Number::from(n)
}

/// Cloning a `serde_json` number gives the same number.
pub assume_specification[ <serde_json::Number as Clone>::clone ](n: &serde_json::Number) -> (r:
    serde_json::Number)
    ensures
        r == *n,
;

/// A JSON document.
///
/// An object is a list of entries. Where a key occurs twice, the later entry
/// counts.
#[derive(Debug)]
pub enum Json {
    Null,
    Bool(bool),
    Number(serde_json::Number),
    String(String),
    Array(Vec<Json>),
    Object(Vec<(String, Json)>),
}

/// What a JSON document says.
#[verifier::ext_equal]
pub enum JsonView {
    Null,
    Bool(bool),
    Integer(int),
    /// A number that is no integer.
    Float(serde_json::Number),
    String(Seq<char>),
    Array(Seq<JsonView>),
    Object(Map<Seq<char>, JsonView>),
}

/// What a number says.
pub open spec fn number_json(number: serde_json::Number) -> JsonView {
    match number_view(number) {
        Some(n) => JsonView::Integer(n),
        None => JsonView::Float(number),
    }
}

/// The map that a list of entries stands for: later entries win.
pub open spec fn entries_view(entries: Seq<(String, Json)>) -> Map<Seq<char>, JsonView>
    decreases entries,
{
    if entries.len() == 0 {
        Map::empty()
    } else {
        entries_view(entries.drop_last()).insert(entries.last().0@, json_view(entries.last().1))
    }
}

/// The items of an array, each by its view.
pub open spec fn items_view(items: Seq<Json>) -> Seq<JsonView>
    decreases items,
{
    Seq::new(
        items.len(),
        |i: int|
            if 0 <= i < items.len() {
                json_view(items[i])
            } else {
                JsonView::Null
            },
    )
}

/// What `json` says.
pub open spec fn json_view(json: Json) -> JsonView
    decreases json,
{
    match json {
        Json::Null => JsonView::Null,
        Json::Bool(b) => JsonView::Bool(b),
        Json::Number(n) => number_json(n),
        Json::String(s) => JsonView::String(s@),
        Json::Array(items) => JsonView::Array(items_view(items@)),
        Json::Object(entries) => JsonView::Object(entries_view(entries@)),
    }
}

impl View for Json {
    type V = JsonView;

    open spec fn view(&self) -> JsonView {
        json_view(*self)
    }
}

impl DeepView for Json {
    type V = JsonView;

    open spec fn deep_view(&self) -> JsonView {
        self@
    }
}

impl JsonView {
    /// The empty object.
    pub open spec fn empty_object() -> JsonView {
        JsonView::Object(Map::empty())
    }

    /// The value under `key`: null where there is none, or no object.
    pub open spec fn at(self, key: Seq<char>) -> JsonView {
        match self {
            JsonView::Object(m) => if m.contains_key(key) {
                m[key]
            } else {
                JsonView::Null
            },
            _ => JsonView::Null,
        }
    }

    /// The first item of an array that has one.
    pub open spec fn head(self) -> Option<JsonView> {
        match self {
            JsonView::Array(items) => if items.len() > 0 {
                Some(items[0])
            } else {
                None
            },
            _ => None,
        }
    }

    /// The text of a string.
    pub open spec fn as_str(self) -> Option<Seq<char>> {
        match self {
            JsonView::String(s) => Some(s),
            _ => None,
        }
    }

    /// The text of a string, and the empty text for anything else.
    pub open spec fn text(self) -> Seq<char> {
        match self {
            JsonView::String(s) => s,
            _ => Seq::empty(),
        }
    }

    /// The value of an integer that fits in 64 bits without a sign.
    pub open spec fn as_u64(self) -> Option<u64> {
        match self {
            JsonView::Integer(n) => if 0 <= n <= u64::MAX {
                Some(n as u64)
            } else {
                None
            },
            _ => None,
        }
    }

    /// The value of such an integer, and 0 for anything else.
    pub open spec fn count(self) -> u64 {
        match self.as_u64() {
            Some(n) => n,
            None => 0,
        }
    }

    /// The value of a boolean.
    pub open spec fn as_bool(self) -> Option<bool> {
        match self {
            JsonView::Bool(b) => Some(b),
            _ => None,
        }
    }

    /// The items of an array.
    pub open spec fn as_array(self) -> Option<Seq<JsonView>> {
        match self {
            JsonView::Array(items) => Some(items),
            _ => None,
        }
    }

    /// The object with `value` under `key` in place of what stood there.
    pub open spec fn with(self, key: Seq<char>, value: JsonView) -> JsonView {
        match self {
            JsonView::Object(m) => JsonView::Object(m.insert(key, value)),
            _ => self,
        }
    }
}

impl Clone for Json {
    fn clone(&self) -> (r: Json)
        ensures
            r@ == self@,
        decreases self,
    {
        match self {
            Json::Null => Json::Null,
            Json::Bool(b) => Json::Bool(*b),
            Json::Number(n) => Json::Number(n.clone()),
            Json::String(s) => Json::String(s.clone()),
            Json::Array(items) => {
                let mut copy: Vec<Json> = Vec::new();
                let mut i: usize = 0;
                while i < items.len()
                    invariant
                        i <= items@.len(),
                        copy@.len() == i,
                        self matches Json::Array(v) && v@ == items@,
                        items_view(copy@) == items_view(items@).take(i as int),
                    decreases items@.len() - i,
                {
                    let item = items[i].clone();
                    copy.push(item);
                    i = i + 1;
                }
                assert(items_view(items@).take(i as int) == items_view(items@));
                Json::Array(copy)
            },
            Json::Object(entries) => {
                let mut copy: Vec<(String, Json)> = Vec::new();
                let mut i: usize = 0;
                while i < entries.len()
                    invariant
                        i <= entries@.len(),
                        self matches Json::Object(v) && v@ == entries@,
                        entries_view(copy@) == entries_view(entries@.take(i as int)),
                    decreases entries@.len() - i,
                {
                    let key = entries[i].0.clone();
                    let value = entries[i].1.clone();
                    let ghost before = copy@;
                    copy.push((key, value));
                    proof {
                        assert(copy@.drop_last() == before);
                        assert(entries@.take(i + 1).drop_last() == entries@.take(i as int));
                    }
                    i = i + 1;
                }
                assert(entries@.take(i as int) == entries@);
                Json::Object(copy)
            },
        }
    }
}

impl vstd::std_specs::cmp::PartialEqSpecImpl for Json {
    open spec fn obeys_eq_spec() -> bool {
        false
    }

    open spec fn eq_spec(&self, other: &Json) -> bool {
        arbitrary()
    }
}

impl PartialEq for Json {
    fn eq(&self, other: &Json) -> (r: bool)
        ensures
            integral(self@) ==> r == (self@ == other@),
    {
        equal(self, other)
    }
}

impl Duplicate for Json {
    fn duplicate(&self) -> (r: Json) {
        self.clone()
    }
}

impl Json {
    /// A string.
    pub fn text(s: &str) -> (r: Json)
        ensures
            r@ == JsonView::String(s@),
    {
        Json::String(s.to_owned())
    }

    /// An integer.
    pub fn integer(n: u64) -> (r: Json)
        ensures
            r@ == JsonView::Integer(n as int),
    {
        Json::Number(number_from_u64(n))
    }

    /// An array.
    pub fn array(items: Vec<Json>) -> (r: Json)
        ensures
            r@ == JsonView::Array(items.deep_view()),
    {
        assert(items.deep_view() == items_view(items@));
        Json::Array(items)
    }

    /// An array of strings.
    pub fn texts(items: &Vec<String>) -> (r: Json)
        ensures
            r@ == JsonView::Array(items.deep_view().map_values(|s: Seq<char>| JsonView::String(s))),
    {
        let mut out: Vec<Json> = Vec::new();
        let mut i: usize = 0;
        let ghost all = items.deep_view().map_values(|s: Seq<char>| JsonView::String(s));
        while i < items.len()
            invariant
                i <= items@.len(),
                all == items.deep_view().map_values(|s: Seq<char>| JsonView::String(s)),
                out.deep_view() == all.take(i as int),
            decreases items@.len() - i,
        {
            let item = Json::text(items[i].as_str());
            let ghost before = out;
            out.push(item);
            i = i + 1;
            proof {
                lemma_pushed(before, out, item);
            }
            assert(out.deep_view() == all.take(i as int));
        }
        assert(all.take(i as int) == all);
        Json::array(out)
    }

    /// The empty object.
    pub fn object() -> (r: Json)
        ensures
            r@ == JsonView::empty_object(),
    {
        Json::Object(Vec::new())
    }

    /// The object with `value` under `key` in place of what stood there.
    /// Anything but an object stays as it is.
    pub fn with(self, key: &str, value: Json) -> (r: Json)
        ensures
            r@ == self@.with(key@, value@),
    {
        match self {
            Json::Object(entries) => {
                let mut entries = entries;
                let ghost before = entries@;
                entries.push((key.to_owned(), value));
                assert(entries@.drop_last() == before);
                Json::Object(entries)
            },
            other => other,
        }
    }

    /// The value under `key`: null where there is none, or no object.
    pub fn at(&self, key: &str) -> (r: &Json)
        ensures
            r@ == self@.at(key@),
    {
        match self.get(key) {
            Some(value) => value,
            None => &Json::Null,
        }
    }

    /// The value under `key`, where there is one.
    pub fn get(&self, key: &str) -> (r: Option<&Json>)
        ensures
            match r {
                Some(value) => (self@ matches JsonView::Object(m) && m.contains_key(key@))
                    && value@ == self@.at(key@),
                None => !(self@ matches JsonView::Object(m) && m.contains_key(key@)),
            },
    {
        if let Json::Object(entries) = self {
            let mut i: usize = entries.len();
            assert(entries@.take(i as int) == entries@);
            while i > 0
                invariant
                    i <= entries@.len(),
                    self@ == JsonView::Object(entries_view(entries@)),
                    entries_view(entries@).contains_key(key@) == entries_view(
                        entries@.take(i as int),
                    ).contains_key(key@),
                    self@.at(key@) == JsonView::Object(entries_view(entries@.take(i as int))).at(key@),
                decreases i,
            {
                assert(entries@.take(i as int).drop_last() == entries@.take(i - 1));
                i = i - 1;
                if same(entries[i].0.as_str(), key) {
                    return Some(&entries[i].1);
                }
            }
        }
        None
    }

    /// The first item of an array that has one.
    pub fn head(&self) -> (r: Option<&Json>)
        ensures
            r.deep_view() == self@.head(),
    {
        match self {
            Json::Array(items) => if items.len() > 0 {
                Some(&items[0])
            } else {
                None
            },
            _ => None,
        }
    }

    /// The text of a string.
    pub fn as_str(&self) -> (r: Option<&str>)
        ensures
            r.deep_view() == self@.as_str(),
    {
        match self {
            Json::String(s) => Some(s.as_str()),
            _ => None,
        }
    }

    /// The text of a string, and the empty text for anything else.
    pub fn text_or_empty(&self) -> (r: &str)
        ensures
            r@ == self@.text(),
    {
        match self {
            Json::String(s) => s.as_str(),
            _ => {
                proof {
                    reveal_strlit("");
                }
                assert(""@ == Seq::<char>::empty());
                ""
            },
        }
    }

    /// The value of an integer that fits in 64 bits without a sign.
    pub fn as_u64(&self) -> (r: Option<u64>)
        ensures
            r == self@.as_u64(),
    {
        match self {
            Json::Number(n) => number_as_u64(n),
            _ => None,
        }
    }

    /// The value of such an integer, and 0 for anything else.
    pub fn count(&self) -> (r: u64)
        ensures
            r == self@.count(),
    {
        match self.as_u64() {
            Some(n) => n,
            None => 0,
        }
    }

    /// The value of a boolean.
    pub fn as_bool(&self) -> (r: Option<bool>)
        ensures
            r == self@.as_bool(),
    {
        match self {
            Json::Bool(b) => Some(*b),
            _ => None,
        }
    }

    /// The items of an array.
    pub fn as_array(&self) -> (r: Option<&Vec<Json>>)
        ensures
            r.deep_view() == self@.as_array(),
    {
        match self {
            Json::Array(items) => {
                assert(items.deep_view() == items_view(items@));
                Some(items)
            },
            _ => None,
        }
    }

    /// Whether this is an object.
    pub fn is_object(&self) -> (r: bool)
        ensures
            r == (self@ is Object),
    {
        match self {
            Json::Object(_) => true,
            _ => false,
        }
    }
}

/// An entry that is set is there, and the others stay.
pub proof fn law_entries_are_kept_apart(
    json: JsonView,
    key: Seq<char>,
    value: JsonView,
    other: Seq<char>,
)
    requires
        json is Object,
        other != key,
    ensures
        json.with(key, value) is Object,
        json.with(key, value).at(key) == value,
        json.with(key, value).at(other) == json.at(other),
        JsonView::empty_object().at(key) is Null,
{
}

/// A value is read as what it is, and as nothing else.
pub proof fn law_values_are_read_as_what_they_are(
    json: JsonView,
    text: Seq<char>,
    number: u64,
    truth: bool,
    items: Seq<JsonView>,
)
    ensures
        JsonView::String(text).as_str() == Some(text),
        JsonView::String(text).text() == text,
        json !is String ==> json.as_str() is None && json.text().len() == 0,
        JsonView::Integer(number as int).as_u64() == Some(number),
        JsonView::Integer(number as int).count() == number,
        json !is Integer ==> json.as_u64() is None && json.count() == 0,
        json matches JsonView::Integer(n) ==> (n < 0 || n > u64::MAX ==> json.as_u64() is None
            && json.count() == 0),
        JsonView::Bool(truth).as_bool() == Some(truth),
        json !is Bool ==> json.as_bool() is None,
        JsonView::Array(items).as_array() == Some(items),
        json !is Array ==> json.as_array() is None && json.head() is None,
        JsonView::Array(items).head() == (if items.len() > 0 {
            Some(items[0])
        } else {
            None
        }),
{
}

}
