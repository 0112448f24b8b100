//! JSON values as the engine reads and writes them, with their mathematical
//! model, and the codec that turns text into values and back.

use crate::keyed::{
    distinct_keys, lemma_pairs_absent, lemma_pairs_lookup, lemma_pairs_push, lemma_pairs_remove,
    lemma_pairs_update, pairs_to_map, position_of,
};
use crate::selection::{kept_places, lemma_kept_places, lemma_kept_places_agree};
use serde_json::Value;
use vstd::prelude::*;

verus! {

/// `serde_json::Number`: a number as the parser read it. A value of it is
/// carried along and handed back to the writer; nothing is read from it.
#[verifier::external_type_specification]
#[verifier::external_body]
pub struct ExNumber(serde_json::Number);

/// `serde_json::Value`: what the parser gives and the writer takes. It only
/// passes between the codec and the conversions below.
#[verifier::external_type_specification]
#[verifier::external_body]
pub struct ExValue(Value);

/// A JSON number. Integers are held as such; any other number is carried
/// along unread.
#[derive(Debug, PartialEq, Eq)]
pub enum JsonNumber {
    PosInt(u64),
    NegInt(i64),
    Other(serde_json::Number),
}

/// A JSON object: fields with pairwise different names. Its model is the
/// map from the names to the values; `==` also looks at the order in which
/// the fields are held, which is that in which their names were first set.
#[derive(Debug, PartialEq, Eq)]
pub struct JsonObject {
    entries: Vec<(String, JsonValue)>,
}

/// A JSON value.
#[derive(Debug, PartialEq, Eq)]
pub enum JsonValue {
    Null,
    Bool(bool),
    Number(JsonNumber),
    String(String),
    Array(Vec<JsonValue>),
    Object(JsonObject),
}

/// The mathematical model of a JSON value. An object is a map from field
/// names to values: the order of its fields is no part of it.
pub enum JsonView {
    Null,
    Bool(bool),
    Number(JsonNumber),
    String(Seq<char>),
    Array(Seq<JsonView>),
    Object(Map<Seq<char>, JsonView>),
}

/// The models of a list of values.
pub open spec fn values_view(values: Seq<JsonValue>) -> Seq<JsonView>
    decreases values,
{
    Seq::new(
        values.len(),
        |i: int|
            if 0 <= i < values.len() {
                values[i].view()
            } else {
                JsonView::Null
            },
    )
}

/// The names and models of a list of fields.
pub open spec fn entries_view(entries: Seq<(String, JsonValue)>) -> Seq<(Seq<char>, JsonView)>
    decreases entries,
{
    Seq::new(
        entries.len(),
        |i: int|
            if 0 <= i < entries.len() {
                (entries[i].0@, entries[i].1.view())
            } else {
                (Seq::empty(), JsonView::Null)
            },
    )
}

impl JsonObject {
    #[verifier::type_invariant]
    spec fn well_formed(self) -> bool {
        distinct_keys(entries_view(self.entries@))
    }

    /// The fields as pairs of name and model, in the order they are held.
    pub closed spec fn pairs(self) -> Seq<(Seq<char>, JsonView)>
        decreases self,
    {
        entries_view(self.entries@)
    }

    /// The object as a map from field names to models.
    pub open spec fn view(self) -> Map<Seq<char>, JsonView> {
        pairs_to_map(self.pairs())
    }
}

impl JsonValue {
    /// The model of the value.
    pub open spec fn view(self) -> JsonView
        decreases self,
    {
        match self {
            JsonValue::Null => JsonView::Null,
            JsonValue::Bool(b) => JsonView::Bool(b),
            JsonValue::Number(n) => JsonView::Number(n),
            JsonValue::String(s) => JsonView::String(s@),
            JsonValue::Array(a) => JsonView::Array(values_view(a@)),
            JsonValue::Object(o) => JsonView::Object(pairs_to_map(o.pairs())),
        }
    }
}

impl JsonView {
    /// The fields of an object; no fields for any other value.
    pub open spec fn fields(self) -> Map<Seq<char>, JsonView> {
        match self {
            JsonView::Object(m) => m,
            _ => Map::empty(),
        }
    }

    /// The field `key` of an object, if the value is an object that has it.
    pub open spec fn field(self, key: Seq<char>) -> Option<JsonView> {
        if self.fields().contains_key(key) {
            Some(self.fields()[key])
        } else {
            None
        }
    }

    /// The text of a string value.
    pub open spec fn text(self) -> Option<Seq<char>> {
        match self {
            JsonView::String(s) => Some(s),
            _ => None,
        }
    }

    /// The text of the field `key`, if the value is an object whose field
    /// `key` is a string.
    pub open spec fn text_field(self, key: Seq<char>) -> Option<Seq<char>> {
        match self.field(key) {
            Some(v) => v.text(),
            None => None,
        }
    }
}

impl JsonObject {
    /// An object without fields.
    pub fn new() -> (r: JsonObject)
        ensures
            r@ == Map::<Seq<char>, JsonView>::empty(),
    {
        let r = JsonObject { entries: Vec::new() };
        assert(r@ =~= Map::<Seq<char>, JsonView>::empty());
        r
    }

    /// The number of fields.
    pub fn len(&self) -> (n: usize)
        ensures
            self@.dom().finite(),
            n == self@.dom().len(),
    {
        proof {
            use_type_invariant(self);
            let pairs = self.pairs();
            let names = pairs.map_values(|p: (Seq<char>, JsonView)| p.0);
            assert(names.no_duplicates()) by {
                assert forall|i: int, j: int|
                    0 <= i < names.len() && 0 <= j < names.len() && i != j implies names[i]
                    != names[j] by {
                    if i < j {
                        assert(pairs[i].0 != pairs[j].0);
                    } else {
                        assert(pairs[j].0 != pairs[i].0);
                    }
                }
            }
            names.unique_seq_to_set();
            assert(names.to_set() =~= self@.dom()) by {
                assert forall|k: Seq<char>| names.to_set().contains(k) <==> self@.dom().contains(
                    k,
                ) by {
                    if names.contains(k) {
                        let i = choose|i: int| 0 <= i < names.len() && names[i] == k;
                        assert(pairs[i].0 == k);
                        lemma_pairs_lookup(pairs, i);
                    }
                    if self@.dom().contains(k) {
                        let i = crate::keyed::index_of_key(pairs, k);
                        assert(names[i] == k);
                    }
                }
            }
        }
        self.entries.len()
    }

    /// The value of the field `key`, if the object has it.
    pub fn get(&self, key: &str) -> (r: Option<&JsonValue>)
        ensures
            match r {
                Some(v) => self@.contains_key(key@) && self@[key@] == v@,
                None => !self@.contains_key(key@),
            },
    {
        proof {
            use_type_invariant(self);
        }
        match position_of(&self.entries, key) {
            Some(at) => {
                proof {
                    lemma_pairs_lookup(self.pairs(), at as int);
                }
                Some(&self.entries[at].1)
            },
            None => {
                proof {
                    assert forall|j: int| 0 <= j < self.pairs().len() implies self.pairs()[j].0
                        != key@ by {
                        assert(self.entries@[j].0@ != key@);
                    }
                    lemma_pairs_absent(self.pairs(), key@);
                }
                None
            },
        }
    }

    /// Sets the field `key` to `value`, whether or not the object had it.
    pub fn insert(&mut self, key: String, value: JsonValue)
        ensures
            final(self)@ == old(self)@.insert(key@, value@),
    {
        proof {
            use_type_invariant(&*self);
        }
        let ghost before = self.pairs();
        let found = position_of(&self.entries, key.as_str());
        proof {
            if found is None {
                assert forall|j: int| 0 <= j < before.len() implies before[j].0 != key@ by {
                    assert(self.entries@[j].0@ != key@);
                }
            }
        }
        let mut entries: Vec<(String, JsonValue)> = Vec::new();
        std::mem::swap(&mut self.entries, &mut entries);
        match found {
            Some(at) => {
                proof {
                    lemma_pairs_update(before, at as int, value@);
                    assert(entries_view(entries@.update(at as int, (key, value)))
                        =~= before.update(at as int, (before[at as int].0, value@)));
                }
                entries.set(at, (key, value));
            },
            None => {
                proof {
                    lemma_pairs_push(before, key@, value@);
                    assert(entries_view(entries@.push((key, value))) =~= before.push(
                        (key@, value@),
                    ));
                }
                entries.push((key, value));
            },
        }
        self.entries = entries;
    }

    /// Takes the field `key` out of the object and returns its value, if the
    /// object has it.
    pub fn remove(&mut self, key: &str) -> (r: Option<JsonValue>)
        ensures
            final(self)@ == old(self)@.remove(key@),
            match r {
                Some(v) => old(self)@.contains_key(key@) && old(self)@[key@] == v@,
                None => !old(self)@.contains_key(key@),
            },
    {
        proof {
            use_type_invariant(&*self);
        }
        let ghost before = self.pairs();
        let found = position_of(&self.entries, key);
        proof {
            if found is None {
                assert forall|j: int| 0 <= j < before.len() implies before[j].0 != key@ by {
                    assert(self.entries@[j].0@ != key@);
                }
            }
        }
        let mut entries: Vec<(String, JsonValue)> = Vec::new();
        std::mem::swap(&mut self.entries, &mut entries);
        let r = match found {
            Some(at) => {
                proof {
                    lemma_pairs_remove(before, at as int);
                    lemma_pairs_lookup(before, at as int);
                    assert(entries_view(entries@.remove(at as int)) =~= before.remove(at as int));
                }
                let (_, value) = entries.remove(at);
                Some(value)
            },
            None => {
                proof {
                    lemma_pairs_absent(before, key@);
                    assert(pairs_to_map(before).remove(key@) =~= pairs_to_map(before));
                }
                None
            },
        };
        self.entries = entries;
        r
    }
}

impl JsonValue {
    /// The text of a string value.
    pub fn as_str(&self) -> (r: Option<&str>)
        ensures
            match r {
                Some(s) => self@.text() == Some(s@),
                None => self@.text() is None,
            },
    {
        match self {
            JsonValue::String(s) => Some(s.as_str()),
            _ => None,
        }
    }

    /// The items of an array value.
    pub fn as_array(&self) -> (r: Option<&Vec<JsonValue>>)
        ensures
            match r {
                Some(items) => self@ == JsonView::Array(values_view(items@)),
                None => !(self@ is Array),
            },
    {
        match self {
            JsonValue::Array(items) => Some(items),
            _ => None,
        }
    }

    /// The object of an object value.
    pub fn as_object(&self) -> (r: Option<&JsonObject>)
        ensures
            match r {
                Some(o) => self@ == JsonView::Object(o@),
                None => !(self@ is Object),
            },
    {
        match self {
            JsonValue::Object(o) => Some(o),
            _ => None,
        }
    }

    /// The field `key`, if the value is an object that has it.
    pub fn get(&self, key: &str) -> (r: Option<&JsonValue>)
        ensures
            match r {
                Some(v) => self@.field(key@) == Some(v@),
                None => self@.field(key@) is None,
            },
    {
        match self {
            JsonValue::Object(o) => o.get(key),
            _ => None,
        }
    }

    /// The text of the field `key`, if the value is an object whose field
    /// `key` is a string.
    pub fn get_str(&self, key: &str) -> (r: Option<&str>)
        ensures
            match r {
                Some(s) => self@.text_field(key@) == Some(s@),
                None => self@.text_field(key@) is None,
            },
    {
        match self.get(key) {
            Some(v) => v.as_str(),
            None => None,
        }
    }

    /// Takes the field `key` out of an object and returns its value; null
    /// where the value is no object or has no such field.
    pub fn take(&mut self, key: &str) -> (r: JsonValue)
        ensures
            final(self)@ == (match old(self)@ {
                JsonView::Object(m) => JsonView::Object(m.remove(key@)),
                other => other,
            }),
            r@ == (match old(self)@.field(key@) {
                Some(v) => v,
                None => JsonView::Null,
            }),
    {
        match self {
            JsonValue::Object(o) => match o.remove(key) {
                Some(v) => v,
                None => JsonValue::Null,
            },
            _ => JsonValue::Null,
        }
    }

    /// Sets the field `key` of an object to `value`. A null value becomes an
    /// object with that one field.
    pub fn set(&mut self, key: &str, value: JsonValue)
        requires
            old(self)@ is Null || old(self)@ is Object,
        ensures
            final(self)@ == JsonView::Object(old(self)@.fields().insert(key@, value@)),
    {
        if let JsonValue::Null = self {
            *self = JsonValue::Object(JsonObject::new());
        }
        match self {
            JsonValue::Object(o) => {
                o.insert(key.to_string(), value);
            },
            _ => {},
        }
    }
}

/// What `serde_json::from_str` reads from a text: the value, or nothing
/// where the text is no JSON document.
pub uninterp spec fn json_parse(text: Seq<char>) -> Option<JsonView>;

/// What `serde_json::to_string` writes for a value: its text on one line.
pub uninterp spec fn json_compact(value: JsonView) -> Seq<char>;

/// What `serde_json::to_string_pretty` writes for a value: its text over
/// several lines, indented.
pub uninterp spec fn json_pretty(value: JsonView) -> Seq<char>;

/// Tells the three kinds of `serde_json::Number` apart with `as_u64` and
/// `as_i64`; a number that is neither is kept as it is.
#[verifier::external_body]
fn number_from_outside(n: serde_json::Number) -> JsonNumber {
    match (n.as_u64(), n.as_i64()) {
        (Some(u), _) => JsonNumber::PosInt(u),
        (None, Some(i)) => JsonNumber::NegInt(i),
        (None, None) => JsonNumber::Other(n),
    }
}

/// Turns a `serde_json::Value` into a value of this library, variant by
/// variant. The fields of a `serde_json::Map` have different names, so the
/// object made of them is well formed.
#[verifier::external_body]
fn from_outside(value: Value) -> JsonValue {
    match value {
        Value::Null => JsonValue::Null,
        Value::Bool(b) => JsonValue::Bool(b),
        Value::Number(n) => JsonValue::Number(number_from_outside(n)),
        Value::String(s) => JsonValue::String(s),
        Value::Array(a) => JsonValue::Array(a.into_iter().map(from_outside).collect()),
        Value::Object(o) => JsonValue::Object(
            JsonObject { entries: o.into_iter().map(|(k, v)| (k, from_outside(v))).collect() },
        ),
    }
}

/// Turns a value of this library into a `serde_json::Value`, variant by
/// variant. A `serde_json::Map` keeps its fields in the order of their
/// names, so the value made does not depend on the order in which an object
/// holds its fields.
#[verifier::external_body]
fn to_outside(value: &JsonValue) -> Value {
    match value {
        JsonValue::Null => Value::Null,
        JsonValue::Bool(b) => Value::Bool(*b),
        JsonValue::Number(JsonNumber::PosInt(n)) => Value::Number((*n).into()),
        JsonValue::Number(JsonNumber::NegInt(n)) => Value::Number((*n).into()),
        JsonValue::Number(JsonNumber::Other(n)) => Value::Number(n.clone()),
        JsonValue::String(s) => Value::String(s.clone()),
        JsonValue::Array(a) => Value::Array(a.iter().map(to_outside).collect()),
        JsonValue::Object(o) => Value::Object(
            o.entries.iter().map(|(k, v)| (k.clone(), to_outside(v))).collect(),
        ),
    }
}

/// Calls `serde_json::from_str`: the result is what that function reads
/// from `text`, and nothing where it reports an error.
#[verifier::external_body]
fn parse_text(text: &str) -> (r: Option<JsonValue>)
    ensures
        match r {
            Some(v) => json_parse(text@) == Some(v@),
            None => json_parse(text@) is None,
        },
{
    match serde_json::from_str::<Value>(text) {
        Ok(v) => Some(from_outside(v)),
        Err(_) => None,
    }
}

/// Calls `serde_json::to_string`, which cannot fail on a value.
#[verifier::external_body]
fn compact_text(value: &JsonValue) -> (r: String)
    ensures
        r@ == json_compact(value@),
{
    serde_json::to_string(&to_outside(value)).unwrap_or_default()
}

/// Calls `serde_json::to_string_pretty`, which cannot fail on a value.
#[verifier::external_body]
fn pretty_text(value: &JsonValue) -> (r: String)
    ensures
        r@ == json_pretty(value@),
{
    serde_json::to_string_pretty(&to_outside(value)).unwrap_or_default()
}

impl JsonValue {
    /// Reads a JSON document.
    pub fn parse(text: &str) -> (r: Option<JsonValue>)
        ensures
            match r {
                Some(v) => json_parse(text@) == Some(v@),
                None => json_parse(text@) is None,
            },
    {
        parse_text(text)
    }

    /// The value as JSON text on one line.
    pub fn to_string(&self) -> (r: String)
        ensures
            r@ == json_compact(self@),
    {
        compact_text(self)
    }

    /// The value as indented JSON text.
    pub fn to_string_pretty(&self) -> (r: String)
        ensures
            r@ == json_pretty(self@),
    {
        pretty_text(self)
    }
}

/// The values of those texts that are JSON documents, in the order of the
/// texts.
pub open spec fn parse_each(texts: Seq<Seq<char>>) -> Seq<JsonView>
    decreases texts.len(),
{
    if texts.len() == 0 {
        Seq::empty()
    } else {
        let head = parse_each(texts.drop_last());
        match json_parse(texts.last()) {
            Some(v) => head.push(v),
            None => head,
        }
    }
}

/// The places of those texts that are JSON documents, from left to right.
pub open spec fn parsed_places(texts: Seq<Seq<char>>) -> Seq<int> {
    kept_places(texts.len(), |i: int| json_parse(texts[i]) is Some)
}

/// The values read from a list of texts come in the order of the texts:
/// they are what the texts that are JSON documents hold, from left to right.
pub proof fn lemma_parse_each_in_order(texts: Seq<Seq<char>>)
    ensures
        parse_each(texts).len() == parsed_places(texts).len(),
        forall|i: int|
            0 <= i < parse_each(texts).len() ==> json_parse(texts[parsed_places(texts)[i]])
                == Some(#[trigger] parse_each(texts)[i]),
        forall|i: int, j: int|
            0 <= i < j < parsed_places(texts).len() ==> parsed_places(texts)[i] < parsed_places(
                texts,
            )[j],
        forall|i: int|
            0 <= i < parsed_places(texts).len() ==> 0 <= (#[trigger] parsed_places(texts)[i])
                < texts.len(),
    decreases texts.len(),
{
    lemma_kept_places(texts.len(), |i: int| json_parse(texts[i]) is Some);
    if texts.len() > 0 {
        let front = texts.drop_last();
        let n = texts.len();
        let keep = |i: int| json_parse(texts[i]) is Some;
        let keep_front = |i: int| json_parse(front[i]) is Some;
        lemma_parse_each_in_order(front);
        assert forall|k: int| 0 <= k < n - 1 implies (#[trigger] keep(k)) == keep_front(k) by {
            assert(front[k] == texts[k]);
        }
        lemma_kept_places_agree((n - 1) as nat, keep, keep_front);
        lemma_kept_places((n - 1) as nat, keep);
        let head = kept_places((n - 1) as nat, keep);
        assert(head == parsed_places(front));
        assert forall|i: int| 0 <= i < parse_each(texts).len() implies json_parse(
            texts[parsed_places(texts)[i]],
        ) == Some(#[trigger] parse_each(texts)[i]) by {
            if i < head.len() {
                assert(parsed_places(texts)[i] == head[i]);
                assert(parse_each(texts)[i] == parse_each(front)[i]);
                assert(front[head[i]] == texts[head[i]]);
            }
        }
    }
}

/// The array of the string values with the given texts.
pub open spec fn array_of_texts(items: Seq<Seq<char>>) -> JsonView {
    JsonView::Array(items.map_values(|t: Seq<char>| JsonView::String(t)))
}

/// The object with the one field `key`.
pub open spec fn object_of(key: Seq<char>, value: JsonView) -> JsonView {
    JsonView::Object(Map::<Seq<char>, JsonView>::empty().insert(key, value))
}

/// The object with the fields `first` and `second`; where the two names are
/// the same, with the second value.
pub open spec fn object_of_two(
    first: Seq<char>,
    first_value: JsonView,
    second: Seq<char>,
    second_value: JsonView,
) -> JsonView {
    JsonView::Object(
        Map::<Seq<char>, JsonView>::empty().insert(first, first_value).insert(second, second_value),
    )
}

impl JsonValue {
    /// The array of the given strings.
    pub fn from_strings(items: &Vec<String>) -> (r: JsonValue)
        ensures
            r@ == array_of_texts(items@.map_values(|s: String| s@)),
    {
        let mut values: Vec<JsonValue> = Vec::new();
        let mut i: usize = 0;
        while i < items.len()
            invariant
                i <= items.len(),
                values@.len() == i,
                forall|j: int| 0 <= j < i ==> (#[trigger] values@[j])@ == JsonView::String(items@[j]@),
            decreases items.len() - i,
        {
            values.push(JsonValue::String(items[i].clone()));
            i += 1;
        }
        let r = JsonValue::Array(values);
        assert(values_view(values@) =~= items@.map_values(|s: String| s@).map_values(
            |t: Seq<char>| JsonView::String(t),
        ));
        r
    }

    /// The object with the one field `key`.
    pub fn object_with(key: &str, value: JsonValue) -> (r: JsonValue)
        ensures
            r@ == object_of(key@, value@),
    {
        let mut o = JsonObject::new();
        o.insert(key.to_string(), value);
        JsonValue::Object(o)
    }

    /// The object with the fields `first` and `second`.
    pub fn object_with_two(
        first: &str,
        first_value: JsonValue,
        second: &str,
        second_value: JsonValue,
    ) -> (r: JsonValue)
        ensures
            r@ == object_of_two(first@, first_value@, second@, second_value@),
    {
        let mut o = JsonObject::new();
        o.insert(first.to_string(), first_value);
        o.insert(second.to_string(), second_value);
        JsonValue::Object(o)
    }
}

} // verus!
