//! JSON values as the room and sync rules read and build them.
use vstd::prelude::*;

verus! {

/// `serde_json::Value`, declared so that the parse below can hand one to
/// its conversion; Verus sees nothing inside it.
#[verifier::external_type_specification]
#[verifier::external_body]
pub struct ExSerdeJsonValue(serde_json::Value);

/// The JSON value that `serde_json` reads from a text, as the library holds
/// it, or `None` when the text is not JSON.
pub uninterp spec fn json_text(text: Seq<char>) -> Option<Json>;

/// Turns a `serde_json::Value` into the library's JSON value, variant for
/// variant: an integer that fits `i64` or `u64` as an integer, any other
/// number as its text. This only changes the type; what it gives for a
/// parsed text is claimed by `parse_json_text`.
#[verifier::external_body]
fn json_value_from_serde(value: serde_json::Value) -> JsonValue {
    match value {
        serde_json::Value::Null => JsonValue::Null,
        serde_json::Value::Bool(b) => JsonValue::Bool(b),
        serde_json::Value::Number(n) => match (n.as_i64(), n.as_u64()) {
            (Some(i), _) => JsonValue::Int(i),
            (None, Some(u)) => JsonValue::UInt(u),
            (None, None) => JsonValue::Float(n.to_string()),
        },
        serde_json::Value::String(s) => JsonValue::Str(s),
        serde_json::Value::Array(items) => JsonValue::Array(items.into_iter().map(json_value_from_serde).collect()),
        serde_json::Value::Object(map) => JsonValue::Object(map.into_iter().map(|(k, v)| (k, json_value_from_serde(v))).collect()),
    }
}

/// Calls `serde_json::from_str::<serde_json::Value>` on `text` and hands
/// the value back as the library's JSON value. The result is a function of
/// the text alone, named `json_text`; what it is for a given text (the JSON
/// grammar, which of two equal keys stays, the order of object members) is
/// left to `serde_json` and not stated here.
#[verifier::external_body]
pub fn parse_json_text(text: &str) -> (r: Option<JsonValue>)
    ensures
        match json_text(text@) {
            Some(j) => r matches Some(v) && v@ == j,
            None => r is None,
        },
{
    serde_json::from_str::<serde_json::Value>(text).ok().map(json_value_from_serde)
}

/// A JSON value. Numbers that fit `i64` or `u64` are held as integers, any
/// other number as its JSON text.
#[derive(Debug)]
pub enum JsonValue {
    Null,
    Bool(bool),
    Int(i64),
    UInt(u64),
    Float(String),
    Str(String),
    Array(Vec<JsonValue>),
    Object(Vec<(String, JsonValue)>),
}

/// The mathematical content of a JSON value.
pub enum Json {
    Null,
    Bool(bool),
    Number(int),
    Float(Seq<char>),
    Str(Seq<char>),
    Array(Seq<Json>),
    Object(Seq<(Seq<char>, Json)>),
}

pub open spec fn json_view(v: JsonValue) -> Json
    decreases v,
{
    match v {
        JsonValue::Null => Json::Null,
        JsonValue::Bool(b) => Json::Bool(b),
        JsonValue::Int(n) => Json::Number(n as int),
        JsonValue::UInt(n) => Json::Number(n as int),
        JsonValue::Float(s) => Json::Float(s@),
        JsonValue::Str(s) => Json::Str(s@),
        JsonValue::Array(items) => Json::Array(
            Seq::new(
                items@.len(),
                |i: int|
                    if 0 <= i < items@.len() {
                        json_view(items@[i])
                    } else {
                        Json::Null
                    },
            ),
        ),
        JsonValue::Object(entries) => Json::Object(
            Seq::new(
                entries@.len(),
                |i: int|
                    if 0 <= i < entries@.len() {
                        (entries@[i].0@, json_view(entries@[i].1))
                    } else {
                        (Seq::empty(), Json::Null)
                    },
            ),
        ),
    }
}

impl View for JsonValue {
    type V = Json;

    open spec fn view(&self) -> Json {
        json_view(*self)
    }
}

/// The value stored under `key` in object entries: the first entry with that key.
pub open spec fn entries_get(entries: Seq<(Seq<char>, Json)>, key: Seq<char>) -> Option<Json>
    decreases entries.len(),
{
    if entries.len() == 0 {
        None
    } else if entries[0].0 == key {
        Some(entries[0].1)
    } else {
        entries_get(entries.drop_first(), key)
    }
}

/// `serde_json::Value::get` with a string key: the member of an object.
pub open spec fn json_get(j: Json, key: Seq<char>) -> Option<Json> {
    match j {
        Json::Object(entries) => entries_get(entries, key),
        _ => None,
    }
}

pub open spec fn json_as_str(j: Json) -> Option<Seq<char>> {
    match j {
        Json::Str(s) => Some(s),
        _ => None,
    }
}

pub open spec fn json_as_bool(j: Json) -> Option<bool> {
    match j {
        Json::Bool(b) => Some(b),
        _ => None,
    }
}

/// `serde_json::Value::as_u64`: an integer that is not negative.
pub open spec fn json_as_u64(j: Json) -> Option<int> {
    match j {
        Json::Number(n) => if n >= 0 {
            Some(n)
        } else {
            None
        },
        _ => None,
    }
}

pub open spec fn json_is_object(j: Json) -> bool {
    j is Object
}

/// The string member `field` of an optional object.
pub open spec fn json_string_member(value: Option<Json>, field: Seq<char>) -> Option<Seq<char>> {
    match value {
        Some(v) => match json_get(v, field) {
            Some(m) => json_as_str(m),
            None => None,
        },
        None => None,
    }
}

/// Object entries after `insert(key, value)`: the first entry with `key`
/// takes the new value, or the entry is added at the end.
pub open spec fn entries_insert(entries: Seq<(Seq<char>, Json)>, key: Seq<char>, value: Json) -> Seq<
    (Seq<char>, Json),
>
    decreases entries.len(),
{
    if entries.len() == 0 {
        seq![(key, value)]
    } else if entries[0].0 == key {
        entries.update(0, (key, value))
    } else {
        seq![entries[0]] + entries_insert(entries.drop_first(), key, value)
    }
}

pub proof fn lemma_entries_get_insert(
    entries: Seq<(Seq<char>, Json)>,
    key: Seq<char>,
    value: Json,
    other: Seq<char>,
)
    ensures
        entries_get(entries_insert(entries, key, value), other) == if other == key {
            Some(value)
        } else {
            entries_get(entries, other)
        },
    decreases entries.len(),
{
    let t = entries_insert(entries, key, value);
    if entries.len() == 0 {
        assert(t.drop_first() =~= Seq::<(Seq<char>, Json)>::empty());
        assert(entries_get(t.drop_first(), other) is None);
    } else if entries[0].0 != key {
        lemma_entries_get_insert(entries.drop_first(), key, value, other);
        assert(t[0] == entries[0]);
        assert(t.drop_first() =~= entries_insert(entries.drop_first(), key, value));
        if entries[0].0 != other {
            assert(entries_get(t, other) == entries_get(t.drop_first(), other));
            assert(entries_get(entries, other) == entries_get(entries.drop_first(), other));
        }
    } else {
        assert(t[0] == (key, value));
        assert(t.drop_first() =~= entries.drop_first());
        if other != key {
            assert(entries_get(t, other) == entries_get(t.drop_first(), other));
            assert(entries_get(entries, other) == entries_get(entries.drop_first(), other));
        }
    }
}

/// After inserting `key`, a key has a member exactly when it is `key` or
/// had one before.
pub proof fn lemma_entries_insert_keys(es: Seq<(Seq<char>, Json)>, key: Seq<char>, value: Json)
    ensures
        forall|other: Seq<char>|
            (#[trigger] entries_get(entries_insert(es, key, value), other) is Some) <==> (other == key
                || entries_get(es, other) is Some),
{
    assert forall|other: Seq<char>|
        (#[trigger] entries_get(entries_insert(es, key, value), other) is Some) <==> (other == key
            || entries_get(es, other) is Some) by {
        lemma_entries_get_insert(es, key, value, other);
    }
}

/// Entries with `key` at `i` and not before.
pub proof fn lemma_entries_get_first(es: Seq<(Seq<char>, Json)>, key: Seq<char>, i: int)
    requires
        0 <= i < es.len(),
        es[i].0 == key,
        forall|k: int| 0 <= k < i ==> es[k].0 != key,
    ensures
        entries_get(es, key) == Some(es[i].1),
    decreases i,
{
    if i > 0 {
        let t = es.drop_first();
        lemma_entries_get_first(t, key, i - 1);
    }
}

pub proof fn lemma_entries_get_absent(es: Seq<(Seq<char>, Json)>, key: Seq<char>)
    requires
        forall|k: int| 0 <= k < es.len() ==> es[k].0 != key,
    ensures
        entries_get(es, key) is None,
    decreases es.len(),
{
    if es.len() > 0 {
        let t = es.drop_first();
        lemma_entries_get_absent(t, key);
    }
}

/// The view of object entries.
pub open spec fn entries_view(entries: Seq<(String, JsonValue)>) -> Seq<(Seq<char>, Json)> {
    Seq::new(entries.len(), |k: int| (entries[k].0@, json_view(entries[k].1)))
}

pub proof fn lemma_object_view(entries: Vec<(String, JsonValue)>)
    ensures
        json_view(JsonValue::Object(entries)) == Json::Object(entries_view(entries@)),
{
    if let Json::Object(e) = json_view(JsonValue::Object(entries)) {
        assert(e =~= entries_view(entries@));
    }
}

/// The view of an array's items.
pub open spec fn items_view(items: Seq<JsonValue>) -> Seq<Json> {
    Seq::new(items.len(), |k: int| json_view(items[k]))
}

pub proof fn lemma_array_view(items: Vec<JsonValue>)
    ensures
        json_view(JsonValue::Array(items)) == Json::Array(items_view(items@)),
{
    if let Json::Array(e) = json_view(JsonValue::Array(items)) {
        assert(e =~= items_view(items@));
    }
}

/// JSON strings for each of `values`.
pub open spec fn strings_json(values: Seq<String>) -> Seq<Json> {
    Seq::new(values.len(), |k: int| Json::Str(values[k]@))
}

/// A JSON array of the strings in `values`, in order.
pub fn string_array(values: &Vec<String>) -> (r: JsonValue)
    ensures
        r@ == Json::Array(strings_json(values@)),
{
    let mut items: Vec<JsonValue> = Vec::new();
    let mut i: usize = 0;
    while i < values.len()
        invariant
            i <= values@.len(),
            items@.len() == i,
            forall|k: int| 0 <= k < i ==> json_view(#[trigger] items@[k]) == Json::Str(values@[k]@),
        decreases values.len() - i,
    {
        items.push(JsonValue::Str(values[i].clone()));
        i = i + 1;
    }
    proof {
        lemma_array_view(items);
        assert(items_view(items@) =~= strings_json(values@));
    }
    JsonValue::Array(items)
}

/// A copy of object entries.
pub fn clone_entries(entries: &Vec<(String, JsonValue)>) -> (r: Vec<(String, JsonValue)>)
    ensures
        entries_view(r@) == entries_view(entries@),
    decreases entries, 0nat,
{
    let mut copy: Vec<(String, JsonValue)> = Vec::new();
    let mut i: usize = 0;
    while i < entries.len()
        invariant
            i <= entries@.len(),
            copy@.len() == i,
            forall|k: int|
                0 <= k < i ==> (#[trigger] copy@[k]).0@ == entries@[k].0@ && json_view(copy@[k].1)
                    == json_view(entries@[k].1),
        decreases entries.len() - i,
    {
        assert(decreases_to!(*entries => entries@[i as int].1));
        let value = entries[i].1.deep_clone();
        copy.push((entries[i].0.clone(), value));
        i = i + 1;
    }
    assert(entries_view(copy@) =~= entries_view(entries@));
    copy
}

/// The position of the first entry with `key`.
fn find_key(entries: &Vec<(String, JsonValue)>, key: &str) -> (r: Option<usize>)
    ensures
        r matches Some(i) ==> i < entries@.len() && entries_view(entries@)[i as int].0 == key@
            && forall|k: int| 0 <= k < i ==> entries_view(entries@)[k].0 != key@,
        r is None ==> forall|k: int| 0 <= k < entries@.len() ==> entries_view(entries@)[k].0 != key@,
{
    let mut i: usize = 0;
    while i < entries.len()
        invariant
            i <= entries@.len(),
            forall|k: int| 0 <= k < i ==> entries_view(entries@)[k].0 != key@,
        decreases entries.len() - i,
    {
        if crate::text::str_eq(entries[i].0.as_str(), key) {
            return Some(i);
        }
        i = i + 1;
    }
    None
}

impl JsonValue {
    /// A copy of the value.
    pub fn deep_clone(&self) -> (r: JsonValue)
        ensures
            r@ == self@,
        decreases self, 1nat,
    {
        match self {
            JsonValue::Null => JsonValue::Null,
            JsonValue::Bool(b) => JsonValue::Bool(*b),
            JsonValue::Int(n) => JsonValue::Int(*n),
            JsonValue::UInt(n) => JsonValue::UInt(*n),
            JsonValue::Float(s) => JsonValue::Float(s.clone()),
            JsonValue::Str(s) => JsonValue::Str(s.clone()),
            JsonValue::Array(items) => {
                let mut copy: Vec<JsonValue> = Vec::new();
                let mut i: usize = 0;
                while i < items.len()
                    invariant
                        *self == JsonValue::Array(*items),
                        i <= items@.len(),
                        copy@.len() == i,
                        forall|k: int| 0 <= k < i ==> json_view(#[trigger] copy@[k]) == json_view(items@[k]),
                    decreases items.len() - i,
                {
                    assert(decreases_to!(*items => items@[i as int]));
                    assert(decreases_to!(*self => (*self)->Array_0));
                    copy.push(items[i].deep_clone());
                    i = i + 1;
                }
                let r = JsonValue::Array(copy);
                assert(r@ == self@) by {
                    if let (Json::Array(a), Json::Array(b)) = (r@, self@) {
                        assert(a =~= b);
                    }
                }
                r
            },
            JsonValue::Object(entries) => {
                let copy = clone_entries(entries);
                proof {
                    lemma_object_view(copy);
                    lemma_object_view(*entries);
                }
                JsonValue::Object(copy)
            },
        }
    }

    /// An empty JSON object.
    pub fn new_object() -> (r: JsonValue)
        ensures
            r@ == Json::Object(Seq::empty()),
    {
        let r = JsonValue::Object(Vec::new());
        assert(r@ == Json::Object(Seq::empty())) by {
            if let Json::Object(e) = r@ {
                assert(e =~= Seq::<(Seq<char>, Json)>::empty());
            }
        }
        r
    }

    /// A JSON string.
    pub fn from_str(s: &str) -> (r: JsonValue)
        ensures
            r@ == Json::Str(s@),
    {
        JsonValue::Str(String::from_str(s))
    }

    pub fn get(&self, key: &str) -> (r: Option<&JsonValue>)
        ensures
            r matches Some(v) ==> json_get(self@, key@) == Some(v@),
            r is None ==> json_get(self@, key@) is None,
    {
        match self {
            JsonValue::Object(entries) => {
                proof {
                    lemma_object_view(*entries);
                }
                match find_key(entries, key) {
                    Some(i) => {
                        proof {
                            lemma_entries_get_first(entries_view(entries@), key@, i as int);
                        }
                        Some(&entries[i].1)
                    },
                    None => {
                        proof {
                            lemma_entries_get_absent(entries_view(entries@), key@);
                        }
                        None
                    },
                }
            },
            _ => None,
        }
    }

    pub fn as_str(&self) -> (r: Option<&str>)
        ensures
            r matches Some(s) ==> json_as_str(self@) == Some(s@),
            r is None ==> json_as_str(self@) is None,
    {
        match self {
            JsonValue::Str(s) => Some(s.as_str()),
            _ => None,
        }
    }

    pub fn as_bool(&self) -> (r: Option<bool>)
        ensures
            r == json_as_bool(self@),
    {
        match self {
            JsonValue::Bool(b) => Some(*b),
            _ => None,
        }
    }

    pub fn as_u64(&self) -> (r: Option<u64>)
        ensures
            r matches Some(n) ==> json_as_u64(self@) == Some(n as int),
            r is None ==> json_as_u64(self@) is None,
    {
        match self {
            JsonValue::Int(n) => if *n >= 0 {
                Some(*n as u64)
            } else {
                None
            },
            JsonValue::UInt(n) => Some(*n),
            _ => None,
        }
    }

    pub fn as_array(&self) -> (r: Option<&Vec<JsonValue>>)
        ensures
            r matches Some(items) ==> self@ == Json::Array(
                Seq::new(items@.len(), |i: int| json_view(items@[i])),
            ),
            r is None ==> !(self@ is Array),
    {
        match self {
            JsonValue::Array(items) => {
                assert(self@ == Json::Array(Seq::new(items@.len(), |i: int| json_view(items@[i])))) by {
                    if let Json::Array(s) = self@ {
                        assert(s =~= Seq::new(items@.len(), |i: int| json_view(items@[i])));
                    }
                }
                Some(items)
            },
            _ => None,
        }
    }

    pub fn is_object(&self) -> (r: bool)
        ensures
            r == json_is_object(self@),
    {
        match self {
            JsonValue::Object(_) => true,
            _ => false,
        }
    }

    /// Sets `key` to `value` in an object; anything else is left unchanged.
    pub fn insert(&mut self, key: &str, value: JsonValue)
        ensures
            match old(self)@ {
                Json::Object(entries) => final(self)@ == Json::Object(
                    entries_insert(entries, key@, value@),
                ),
                _ => final(self)@ == old(self)@,
            },
    {
        match self {
            JsonValue::Object(entries) => {
                let ghost es = entries_view(entries@);
                proof {
                    lemma_object_view(*entries);
                }
                let ghost value_view = value@;
                match find_key(entries, key) {
                    Some(i) => {
                        proof {
                            lemma_entries_insert_at(es, key@, value_view, i as int);
                        }
                        entries.set(i, (String::from_str(key), value));
                        assert(entries_view(entries@) =~= es.update(i as int, (key@, value_view)));
                    },
                    None => {
                        proof {
                            lemma_entries_insert_absent(es, key@, value_view);
                        }
                        entries.push((String::from_str(key), value));
                        assert(entries_view(entries@) =~= es.push((key@, value_view)));
                    },
                }
                proof {
                    lemma_object_view(*entries);
                }
            },
            _ => {},
        }
    }
}

proof fn lemma_entries_insert_at(
    es: Seq<(Seq<char>, Json)>,
    key: Seq<char>,
    value: Json,
    i: int,
)
    requires
        0 <= i < es.len(),
        es[i].0 == key,
        forall|k: int| 0 <= k < i ==> es[k].0 != key,
    ensures
        entries_insert(es, key, value) == es.update(i, (key, value)),
    decreases i,
{
    if i > 0 {
        let t = es.drop_first();
        lemma_entries_insert_at(t, key, value, i - 1);
        assert(seq![es[0]] + t.update(i - 1, (key, value)) =~= es.update(i, (key, value)));
    }
}

proof fn lemma_entries_insert_absent(es: Seq<(Seq<char>, Json)>, key: Seq<char>, value: Json)
    requires
        forall|k: int| 0 <= k < es.len() ==> es[k].0 != key,
    ensures
        entries_insert(es, key, value) == es.push((key, value)),
    decreases es.len(),
{
    if es.len() > 0 {
        let t = es.drop_first();
        lemma_entries_insert_absent(t, key, value);
        assert(seq![es[0]] + t.push((key, value)) =~= es.push((key, value)));
    }
}

} // verus!
