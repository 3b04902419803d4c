//! JSON values: the library's own tree, and the reading and printing of JSON text.
//!
//! Text is read and printed by `serde_json`. Its values stay inside this module: what
//! the rest of the library handles is [`Json`].

use crate::text::{decimal, same_text};
use serde_json::{Number, Value};
use vstd::prelude::*;
use vstd::string::*;

verus! {

/// A JSON value. Where two fields of an object have the same name, the later one counts.
#[derive(Debug, PartialEq)]
pub enum Json {
    Null,
    Bool(bool),
    Number(Number),
    Text(String),
    List(Vec<Json>),
    Object(Vec<(String, Json)>),
}

/// What a JSON value says: an object is the map from its names to their values.
pub enum JsonView {
    Null,
    Bool(bool),
    Number(Number),
    Text(Seq<char>),
    List(Seq<JsonView>),
    Object(Map<Seq<char>, JsonView>),
}

impl View for Json {
    type V = JsonView;

    open spec fn view(&self) -> JsonView {
        json_view(*self)
    }
}

/// What a JSON value says.
pub open spec fn json_view(j: Json) -> JsonView
    decreases j,
{
    match j {
        Json::Null => JsonView::Null,
        Json::Bool(b) => JsonView::Bool(b),
        Json::Number(n) => JsonView::Number(n),
        Json::Text(s) => JsonView::Text(s@),
        Json::List(items) => JsonView::List(
            Seq::new(
                items@.len(),
                |i: int|
                    if 0 <= i < items@.len() {
                        json_view(items@[i])
                    } else {
                        JsonView::Null
                    },
            ),
        ),
        Json::Object(fields) => JsonView::Object(fields_view(fields@, fields@.len())),
    }
}

/// The map that the first `n` fields make.
pub open spec fn fields_view(fields: Seq<(String, Json)>, n: nat) -> Map<Seq<char>, JsonView>
    decreases fields, n,
{
    if n == 0 || n > fields.len() {
        Map::empty()
    } else {
        fields_view(fields, (n - 1) as nat).insert(fields[n - 1].0@, json_view(fields[n - 1].1))
    }
}

/// What each of a sequence of JSON values says.
pub open spec fn list_view(items: Seq<Json>) -> Seq<JsonView> {
    items.map_values(|j: Json| json_view(j))
}

/// The characters of each of a sequence of texts.
pub open spec fn texts_view(items: Seq<String>) -> Seq<Seq<char>> {
    items.map_values(|s: String| s@)
}

/// The value of a field: `None` where the value is no object or has no such field.
pub open spec fn field_of(v: JsonView, key: Seq<char>) -> Option<JsonView> {
    match v {
        JsonView::Object(m) => if m.contains_key(key) {
            Some(m[key])
        } else {
            None
        },
        _ => None,
    }
}

/// The text of a value that is a string.
pub open spec fn text_of(v: Option<JsonView>) -> Option<Seq<char>> {
    match v {
        Some(JsonView::Text(t)) => Some(t),
        _ => None,
    }
}

/// The items of a value that is an array.
pub open spec fn items_of(v: Option<JsonView>) -> Option<Seq<JsonView>> {
    match v {
        Some(JsonView::List(s)) => Some(s),
        _ => None,
    }
}

/// The object without fields.
pub open spec fn no_fields() -> JsonView {
    JsonView::Object(Map::empty())
}

/// An object with a field set; a value that is no object stays as it is.
pub open spec fn with_field(v: JsonView, key: Seq<char>, j: JsonView) -> JsonView {
    match v {
        JsonView::Object(m) => JsonView::Object(m.insert(key, j)),
        _ => v,
    }
}

/// The array of texts.
pub open spec fn text_list(texts: Seq<Seq<char>>) -> JsonView {
    JsonView::List(texts.map_values(|t: Seq<char>| JsonView::Text(t)))
}

/// What an array says is what its items say.
pub proof fn lemma_list_view(items: Vec<Json>)
    ensures
        json_view(Json::List(items)) == JsonView::List(list_view(items@)),
{
    assert(json_view(Json::List(items))->List_0 =~= list_view(items@));
}

/// Fields past the first `n` do not change the map of the first `n`.
pub proof fn lemma_fields_view_prefix(a: Seq<(String, Json)>, b: Seq<(String, Json)>, n: nat)
    requires
        n <= a.len(),
        n <= b.len(),
        forall|i: int| 0 <= i < n ==> a[i] == b[i],
    ensures
        fields_view(a, n) == fields_view(b, n),
    decreases n,
{
    if n > 0 {
        lemma_fields_view_prefix(a, b, (n - 1) as nat);
    }
}

/// One more field is one more entry of the map.
pub proof fn lemma_fields_view_push(a: Seq<(String, Json)>, f: (String, Json))
    ensures
        fields_view(a.push(f), a.len() + 1) == fields_view(a, a.len()).insert(
            f.0@,
            json_view(f.1),
        ),
{
    lemma_fields_view_prefix(a.push(f), a, a.len());
}

impl Json {
    /// The value of a field of an object: `None` where this is no object or has no such field.
    pub fn get(&self, key: &str) -> (r: Option<&Json>)
        ensures
            match r {
                Some(j) => field_of(self@, key@) == Some(j@),
                None => field_of(self@, key@) is None,
            },
    {
        match self {
            Json::Object(fields) => {
                let mut n: usize = fields.len();
                while n > 0
                    invariant
                        n <= fields@.len(),
                        json_view(*self) == JsonView::Object(
                            fields_view(fields@, fields@.len()),
                        ),
                        fields_view(fields@, fields@.len()).contains_key(key@)
                            == fields_view(fields@, n as nat).contains_key(key@),
                        fields_view(fields@, fields@.len()).contains_key(key@)
                            ==> fields_view(fields@, fields@.len())[key@] == fields_view(
                            fields@,
                            n as nat,
                        )[key@],
                    decreases n,
                {
                    let field = &fields[n - 1];
                    if same_text(field.0.as_str(), key) {
                        return Some(&field.1);
                    }
                    n -= 1;
                }
                None
            },
            _ => None,
        }
    }

    /// The text of a string: `None` for any other value.
    pub fn as_str(&self) -> (r: Option<&str>)
        ensures
            match r {
                Some(s) => text_of(Some(self@)) == Some(s@),
                None => text_of(Some(self@)) is None,
            },
    {
        match self {
            Json::Text(s) => Some(s.as_str()),
            _ => None,
        }
    }

    /// The items of an array: `None` for any other value.
    pub fn as_array(&self) -> (r: Option<&Vec<Json>>)
        ensures
            match r {
                Some(v) => items_of(Some(self@)) == Some(list_view(v@)),
                None => items_of(Some(self@)) is None,
            },
    {
        match self {
            Json::List(items) => {
                proof {
                    lemma_list_view(*items);
                }
                Some(items)
            },
            _ => None,
        }
    }
}

impl Json {
    /// The object without fields.
    pub fn object() -> (r: Json)
        ensures
            r@ == no_fields(),
    {
        let fields: Vec<(String, Json)> = Vec::new();
        proof {
            assert(fields_view(fields@, 0) =~= Map::empty());
        }
        Json::Object(fields)
    }

    /// The string of a text.
    pub fn text(t: &str) -> (r: Json)
        ensures
            r@ == JsonView::Text(t@),
    {
        Json::Text(t.to_owned())
    }

    /// An object with a field set; a value that is no object stays as it is.
    pub fn with(self, key: &str, j: Json) -> (r: Json)
        ensures
            r@ == with_field(self@, key@, j@),
    {
        match self {
            Json::Object(fields) => {
                let mut fields = fields;
                let name = key.to_owned();
                proof {
                    lemma_fields_view_push(fields@, (name, j));
                }
                fields.push((name, j));
                Json::Object(fields)
            },
            other => other,
        }
    }

    /// The array of texts.
    pub fn texts(texts: Vec<String>) -> (r: Json)
        ensures
            r@ == text_list(texts_view(texts@)),
    {
        let ghost all = texts@;
        let mut items: Vec<Json> = Vec::new();
        for t in it: texts.into_iter()
            invariant
                it.seq() == all,
                items@.len() == it.index(),
                forall|i: int|
                    0 <= i < items@.len() ==> (#[trigger] items@[i])@ == JsonView::Text(all[i]@),
        {
            items.push(Json::Text(t));
        }
        proof {
            lemma_list_view(items);
            assert(list_view(items@) =~= text_list(texts_view(all))->List_0);
        }
        Json::List(items)
    }
}

/// The text of a field that holds a string.
pub fn text_field<'a>(body: &'a Json, key: &str) -> (r: Option<&'a str>)
    ensures
        match r {
            Some(s) => text_of(field_of(body@, key@)) == Some(s@),
            None => text_of(field_of(body@, key@)) is None,
        },
{
    match body.get(key) {
        Some(j) => j.as_str(),
        None => None,
    }
}

/// `serde_json::Value`, carried through and told apart by `open_value` and `close_value`.
#[verifier::external_type_specification]
#[verifier::external_body]
pub struct ExValue(serde_json::Value);

/// `serde_json::Number`, carried through unread.
#[verifier::external_type_specification]
#[verifier::external_body]
pub struct ExNumber(serde_json::Number);

/// `serde_json::Error`, what a failed reading returns.
#[verifier::external_type_specification]
#[verifier::external_body]
pub struct ExError(serde_json::Error);

/// `serde_json::Map`, the fields of an object.
#[verifier::external_type_specification]
#[verifier::external_body]
#[verifier::reject_recursive_types(K)]
#[verifier::reject_recursive_types(V)]
pub struct ExMap<K, V>(serde_json::Map<K, V>);

/// What a `serde_json::Value` holds.
pub uninterp spec fn value_tree(v: Value) -> JsonView;

/// What a `serde_json::Map` holds.
pub uninterp spec fn map_fields(m: serde_json::Map<String, Value>) -> Map<Seq<char>, JsonView>;

/// The JSON number of an integer.
pub uninterp spec fn integer_number(n: i64) -> Number;

/// The value that JSON text stands for: `None` for text that is not JSON, or whose arrays
/// and objects are nested too deep.
pub uninterp spec fn parsed_json(text: Seq<char>) -> Option<JsonView>;

/// A value as compact JSON text.
pub uninterp spec fn json_text(v: JsonView) -> Seq<char>;

/// `Number::clone` gives the same number.
pub assume_specification[ <serde_json::Number as Clone>::clone ](n: &serde_json::Number) -> (r:
    serde_json::Number)
    ensures
        r == *n,
;

/// `Number::from` on an `i64`: the number of that integer.
#[verifier::external_body]
pub(crate) fn number_from(n: i64) -> (r: Number)
    ensures
        r == integer_number(n),
{
    Number::from(n)
}

/// The outermost layer of a `serde_json::Value`, one variant for each of its variants.
enum Layer {
    Null,
    Bool(bool),
    Number(Number),
    Text(String),
    List(Vec<Value>),
    Object(serde_json::Map<String, Value>),
}

/// What a value with that outermost layer holds.
spec fn layer_tree(l: Layer) -> JsonView {
    match l {
        Layer::Null => JsonView::Null,
        Layer::Bool(b) => JsonView::Bool(b),
        Layer::Number(n) => JsonView::Number(n),
        Layer::Text(s) => JsonView::Text(s@),
        Layer::List(items) => JsonView::List(items@.map_values(|v: Value| value_tree(v))),
        Layer::Object(m) => JsonView::Object(map_fields(m)),
    }
}

/// Tells the variants of `serde_json::Value` apart: the layer holds what the value held.
#[verifier::external_body]
fn open_value(v: Value) -> (r: Layer)
    ensures
        layer_tree(r) == value_tree(v),
{
    match v {
        Value::Null => Layer::Null,
        Value::Bool(b) => Layer::Bool(b),
        Value::Number(n) => Layer::Number(n),
        Value::String(s) => Layer::Text(s),
        Value::Array(a) => Layer::List(a),
        Value::Object(m) => Layer::Object(m),
    }
}

/// The variants of `serde_json::Value`: the value holds what the layer held.
#[verifier::external_body]
fn close_value(l: Layer) -> (r: Value)
    ensures
        value_tree(r) == layer_tree(l),
{
    match l {
        Layer::Null => Value::Null,
        Layer::Bool(b) => Value::Bool(b),
        Layer::Number(n) => Value::Number(n),
        Layer::Text(s) => Value::String(s),
        Layer::List(a) => Value::Array(a),
        Layer::Object(m) => Value::Object(m),
    }
}

/// `serde_json::Map::into_iter`: each field once, and nothing else.
#[verifier::external_body]
fn map_entries(m: serde_json::Map<String, Value>) -> (r: Vec<(String, Value)>)
    ensures
        forall|i: int, j: int|
            0 <= i < j < r@.len() ==> (#[trigger] r@[i]).0@ != (#[trigger] r@[j]).0@,
        forall|i: int|
            0 <= i < r@.len() ==> map_fields(m).contains_pair(
                (#[trigger] r@[i]).0@,
                value_tree(r@[i].1),
            ),
        forall|k: Seq<char>| #[trigger]
            map_fields(m).contains_key(k) ==> exists|i: int|
                0 <= i < r@.len() && (#[trigger] r@[i]).0@ == k,
{
    m.into_iter().collect()
}

/// `serde_json::Map::new`: no field.
#[verifier::external_body]
fn map_new() -> (r: serde_json::Map<String, Value>)
    ensures
        (map_fields(r) == Map::<Seq<char>, JsonView>::empty()),
{
    serde_json::Map::new()
}

/// `serde_json::Map::insert`: the field has the new value, whatever it had before.
#[verifier::external_body]
fn map_insert(m: &mut serde_json::Map<String, Value>, k: String, v: Value)
    ensures
        map_fields(*final(m)) == map_fields(*old(m)).insert(k@, value_tree(v)),
{
    m.insert(k, v);
}

/// A value that comes back from its own text: its numbers are integers of 64 bits, and its
/// arrays and objects are nested at most `levels` deep.
pub open spec fn readable(v: JsonView, levels: nat) -> bool
    decreases levels,
{
    match v {
        JsonView::Null => true,
        JsonView::Bool(_) => true,
        JsonView::Text(_) => true,
        JsonView::Number(n) => exists|i: i64| n == #[trigger] integer_number(i),
        JsonView::List(s) => levels > 0 && forall|i: int|
            0 <= i < s.len() ==> readable(#[trigger] s[i], (levels - 1) as nat),
        JsonView::Object(m) => levels > 0 && forall|k: Seq<char>| #[trigger]
            m.contains_key(k) ==> readable(m[k], (levels - 1) as nat),
    }
}

/// `serde_json::from_str` to a `Value`.
#[verifier::external_body]
fn read_value(text: &str) -> (r: Result<Value, serde_json::Error>)
    ensures
        match r {
            Ok(v) => parsed_json(text@) == Some(value_tree(v)),
            Err(_) => parsed_json(text@) is None,
        },
{
    serde_json::from_str::<Value>(text)
}

/// `Value::to_string`: compact JSON text, which is never empty. An integer is printed in decimal, and
/// `serde_json::from_str` reads from the text of a readable value that value again; its
/// reader gives up past 127 levels, and may round a number that is no integer.
#[verifier::external_body]
fn print_value(v: &Value) -> (r: String)
    ensures
        r@ == json_text(value_tree(*v)),
        r@.len() > 0,
        readable(value_tree(*v), 127) ==> parsed_json(r@) == Some(value_tree(*v)),
        forall|i: i64|
            value_tree(*v) == JsonView::Number(#[trigger] integer_number(i)) ==> r@ == decimal(
                i as int,
            ),
{
    v.to_string()
}

/// The library's tree of a `serde_json::Value`.
fn json_of(value: Value) -> (r: Json)
    ensures
        r@ == value_tree(value),
    decreases value_tree(value),
{
    let ghost tree = value_tree(value);
    match open_value(value) {
        Layer::Null => Json::Null,
        Layer::Bool(b) => Json::Bool(b),
        Layer::Number(n) => Json::Number(n),
        Layer::Text(s) => Json::Text(s),
        Layer::List(values) => {
            let ghost all = values@;
            let mut items: Vec<Json> = Vec::new();
            for v in it: values.into_iter()
                invariant
                    it.seq() == all,
                    tree == value_tree(value),
                    tree == JsonView::List(all.map_values(|v: Value| value_tree(v))),
                    items@.len() == it.index(),
                    forall|i: int|
                        0 <= i < items@.len() ==> (#[trigger] items@[i])@ == value_tree(all[i]),
            {
                proof {
                    let s = tree->List_0;
                    assert(s[it.index()] == value_tree(v));
                    assert(decreases_to!(tree => tree->List_0));
                    assert(decreases_to!(s => s[it.index()]));
                }
                items.push(json_of(v));
            }
            proof {
                lemma_list_view(items);
                assert(list_view(items@) =~= all.map_values(|v: Value| value_tree(v)));
            }
            Json::List(items)
        },
        Layer::Object(m) => {
            let entries = map_entries(m);
            let ghost all = entries@;
            let ghost map = map_fields(m);
            let mut fields: Vec<(String, Json)> = Vec::new();
            proof {
                lemma_entries_finite(all, map);
            }
            for e in it: entries.into_iter()
                invariant
                    it.seq() == all,
                    tree == value_tree(value),
                    tree == JsonView::Object(map),
                    map.dom().finite(),
                    forall|i: int|
                        0 <= i < all.len() ==> map.contains_pair(
                            (#[trigger] all[i]).0@,
                            value_tree(all[i].1),
                        ),
                    fields@.len() == it.index(),
                    forall|i: int|
                        0 <= i < fields@.len() ==> (#[trigger] fields@[i]).0 == all[i].0
                            && fields@[i].1@ == value_tree(all[i].1),
                    fields_view(fields@, fields@.len()) == entries_map(all, it.index() as nat),
            {
                let (k, v) = e;
                proof {
                    assert(all[it.index()] == e);
                    assert(map.contains_pair(k@, value_tree(v)));
                    assert(decreases_to!(tree => tree->Object_0));
                    assert(decreases_to!(map => map[k@]));
                }
                let j = json_of(v);
                proof {
                    lemma_fields_view_push(fields@, (k, j));
                }
                fields.push((k, j));
            }
            proof {
                lemma_entries_map(all, all.len(), map);
                assert(entries_map(all, all.len()) =~= map);
            }
            Json::Object(fields)
        },
    }
}

/// The `serde_json::Value` of the library's tree.
fn value_of(j: &Json) -> (r: Value)
    ensures
        value_tree(r) == j@,
    decreases j,
{
    match j {
        Json::Null => close_value(Layer::Null),
        Json::Bool(b) => close_value(Layer::Bool(*b)),
        Json::Number(n) => close_value(Layer::Number(n.clone())),
        Json::Text(s) => close_value(Layer::Text(s.clone())),
        Json::List(items) => {
            let mut values: Vec<Value> = Vec::new();
            let mut i: usize = 0;
            while i < items.len()
                invariant
                    i <= items@.len(),
                    *j == Json::List(*items),
                    values@.len() == i,
                    forall|k: int|
                        0 <= k < i ==> value_tree(#[trigger] values@[k]) == json_view(items@[k]),
                decreases items@.len() - i,
            {
                proof {
                    assert(decreases_to!(j => j->List_0));
                    assert(decreases_to!(*items => items[i as int]));
                }
                values.push(value_of(&items[i]));
                i += 1;
            }
            proof {
                lemma_list_view(*items);
                assert(values@.map_values(|v: Value| value_tree(v)) =~= list_view(items@));
            }
            close_value(Layer::List(values))
        },
        Json::Object(fields) => {
            let mut m = map_new();
            let mut i: usize = 0;
            while i < fields.len()
                invariant
                    i <= fields@.len(),
                    *j == Json::Object(*fields),
                    map_fields(m) == fields_view(fields@, i as nat),
                decreases fields@.len() - i,
            {
                proof {
                    assert(decreases_to!(j => j->Object_0));
                    assert(decreases_to!(*fields => fields[i as int]));
                    assert(decreases_to!(fields[i as int] => fields[i as int].1));
                }
                let v = value_of(&fields[i].1);
                map_insert(&mut m, fields[i].0.clone(), v);
                i += 1;
            }
            close_value(Layer::Object(m))
        },
    }
}

/// Reads JSON text: `None` for text that cannot be read.
pub fn parse_json(text: &str) -> (r: Option<Json>)
    ensures
        match r {
            Some(j) => parsed_json(text@) == Some(j@),
            None => parsed_json(text@) is None,
        },
{
    match read_value(text) {
        Ok(v) => Some(json_of(v)),
        Err(_) => None,
    }
}

impl Json {
    /// Compact JSON text. A readable value comes back from it, and the text of an integer
    /// is its decimal.
    pub fn to_text(&self) -> (r: String)
        ensures
            r@ == json_text(self@),
            r@.len() > 0,
            readable(self@, 127) ==> parsed_json(r@) == Some(self@),
            forall|i: i64|
                self@ == JsonView::Number(#[trigger] integer_number(i)) ==> r@ == decimal(
                    i as int,
                ),
    {
        print_value(&value_of(self))
    }
}

/// The map that the first `n` entries make.
spec fn entries_map(entries: Seq<(String, Value)>, n: nat) -> Map<Seq<char>, JsonView>
    decreases n,
{
    if n == 0 || n > entries.len() {
        Map::empty()
    } else {
        entries_map(entries, (n - 1) as nat).insert(
            entries[n - 1].0@,
            value_tree(entries[n - 1].1),
        )
    }
}

proof fn lemma_entries_map(entries: Seq<(String, Value)>, n: nat, m: Map<Seq<char>, JsonView>)
    requires
        n <= entries.len(),
        forall|i: int|
            0 <= i < entries.len() ==> m.contains_pair(
                (#[trigger] entries[i]).0@,
                value_tree(entries[i].1),
            ),
    ensures
        forall|k: Seq<char>| #[trigger]
            entries_map(entries, n).contains_key(k) <==> exists|i: int|
                0 <= i < n && (#[trigger] entries[i]).0@ == k,
        forall|k: Seq<char>| #[trigger]
            entries_map(entries, n).contains_key(k) ==> m.contains_key(k) && entries_map(
                entries,
                n,
            )[k] == m[k],
    decreases n,
{
    if n > 0 {
        let before = entries_map(entries, (n - 1) as nat);
        let last = entries[n - 1];
        lemma_entries_map(entries, (n - 1) as nat, m);
        assert(m.contains_pair(last.0@, value_tree(last.1)));
        assert forall|k: Seq<char>|
            (#[trigger] entries_map(entries, n).contains_key(k) <==> exists|i: int|
                0 <= i < n && (#[trigger] entries[i]).0@ == k) && (entries_map(
                entries,
                n,
            ).contains_key(k) ==> m.contains_key(k) && entries_map(entries, n)[k] == m[k]) by {
            assert(entries_map(entries, n) == before.insert(last.0@, value_tree(last.1)));
            assert(before.contains_key(k) <==> exists|i: int|
                0 <= i < n - 1 && (#[trigger] entries[i]).0@ == k);
            if before.contains_key(k) {
                let i = choose|i: int| 0 <= i < n - 1 && (#[trigger] entries[i]).0@ == k;
                assert(0 <= i < n && entries[i].0@ == k);
            }
            if k == last.0@ {
                assert(0 <= n - 1 < n && entries[n - 1].0@ == k);
            }
            if exists|i: int| 0 <= i < n && (#[trigger] entries[i]).0@ == k {
                let i = choose|i: int| 0 <= i < n && (#[trigger] entries[i]).0@ == k;
                if i < n - 1 {
                    assert(0 <= i < n - 1 && entries[i].0@ == k);
                }
            }
        }
    }
}

proof fn lemma_entries_finite(entries: Seq<(String, Value)>, m: Map<Seq<char>, JsonView>)
    requires
        forall|k: Seq<char>| #[trigger]
            m.contains_key(k) ==> exists|i: int|
                0 <= i < entries.len() && (#[trigger] entries[i]).0@ == k,
    ensures
        m.dom().finite(),
{
    let names = entries.map_values(|e: (String, Value)| e.0@);
    vstd::seq_lib::seq_to_set_is_finite(names);
    assert forall|k: Seq<char>| m.dom().contains(k) implies names.to_set().contains(k) by {
        let i = choose|i: int| 0 <= i < entries.len() && (#[trigger] entries[i]).0@ == k;
        assert(names[i] == k);
    }
    vstd::set_lib::lemma_set_subset_finite(names.to_set(), m.dom());
}

/// What a value says is what it holds: a text its characters, a list its items in order.
pub proof fn law_values_say_what_they_hold(j: Json)
    ensures
        match j {
            Json::Null => j@ == JsonView::Null,
            Json::Bool(b) => j@ == JsonView::Bool(b),
            Json::Number(n) => j@ == JsonView::Number(n),
            Json::Text(t) => j@ == JsonView::Text(t@),
            Json::List(items) => j@ matches JsonView::List(s) && s.len() == items@.len() && forall|
                i: int,
            |
                0 <= i < items@.len() ==> #[trigger] s[i] == items@[i]@,
            Json::Object(fields) => j@ is Object,
        },
{
}

/// An object has the fields whose names it holds, and of fields with the same name the last
/// one counts.
pub proof fn law_objects_hold_their_last_fields(fields: Vec<(String, Json)>, i: int)
    requires
        0 <= i < fields@.len(),
        forall|k: int| i < k < fields@.len() ==> (#[trigger] fields@[k]).0@ != fields@[i].0@,
    ensures
        Json::Object(fields)@ matches JsonView::Object(m) && m.contains_key(fields@[i].0@)
            && m[fields@[i].0@] == fields@[i].1@,
{
    lemma_last_field(fields@, fields@.len(), i);
}

proof fn lemma_last_field(fields: Seq<(String, Json)>, n: nat, i: int)
    requires
        0 <= i < n <= fields.len(),
        forall|k: int| i < k < n ==> (#[trigger] fields[k]).0@ != fields[i].0@,
    ensures
        fields_view(fields, n).contains_key(fields[i].0@),
        fields_view(fields, n)[fields[i].0@] == json_view(fields[i].1),
    decreases n,
{
    if i < n - 1 {
        assert(fields[n - 1].0@ != fields[i].0@);
        lemma_last_field(fields, (n - 1) as nat, i);
    }
}

/// An object has no field but those whose names it holds.
pub proof fn law_objects_hold_no_other_fields(fields: Vec<(String, Json)>, key: Seq<char>)
    requires
        forall|i: int| 0 <= i < fields@.len() ==> (#[trigger] fields@[i]).0@ != key,
    ensures
        Json::Object(fields)@ matches JsonView::Object(m) && !m.contains_key(key),
{
    lemma_no_field(fields@, fields@.len(), key);
}

proof fn lemma_no_field(fields: Seq<(String, Json)>, n: nat, key: Seq<char>)
    requires
        n <= fields.len(),
        forall|i: int| 0 <= i < fields.len() ==> (#[trigger] fields[i]).0@ != key,
    ensures
        !fields_view(fields, n).contains_key(key),
    decreases n,
{
    if n > 0 {
        assert(fields[n - 1].0@ != key);
        lemma_no_field(fields, (n - 1) as nat, key);
    }
}

/// A field that is set has its value, every other field is as before, and there is nothing
/// to set in a value that is no object. A field can be read of an object alone, a text of a
/// string alone, and items of a list alone.
pub proof fn law_fields_are_read_as_they_are_set(
    v: JsonView,
    key: Seq<char>,
    j: JsonView,
    other: Seq<char>,
)
    ensures
        v is Object ==> field_of(with_field(v, key, j), key) == Some(j),
        v is Object && other != key ==> field_of(with_field(v, key, j), other) == field_of(v, other),
        v is Object ==> with_field(v, key, j) is Object,
        !(v is Object) ==> with_field(v, key, j) == v && field_of(v, key) is None,
        v matches JsonView::Object(m) ==> (m.contains_key(key) ==> field_of(v, key) == Some(m[key]))
            && (!m.contains_key(key) ==> field_of(v, key) is None),
        field_of(no_fields(), key) is None,
        text_of(Some(JsonView::Text(key))) == Some(key),
        !(v is Text) ==> text_of(Some(v)) is None,
        text_of(None) is None,
        v matches JsonView::List(items) ==> items_of(Some(v)) == Some(items),
        !(v is List) ==> items_of(Some(v)) is None,
        items_of(None) is None,
{
}

/// Texts stand in an array one for one, in order.
pub proof fn law_texts_are_listed_in_order(texts: Seq<String>)
    ensures
        texts_view(texts).len() == texts.len(),
        forall|i: int| 0 <= i < texts.len() ==> #[trigger] texts_view(texts)[i] == texts[i]@,
        text_list(texts_view(texts)) matches JsonView::List(s) && s.len() == texts.len() && forall|
            i: int,
        |
            0 <= i < texts.len() ==> #[trigger] s[i] == JsonView::Text(texts[i]@),
{
}

} // verus!
