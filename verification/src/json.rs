//! JSON values: the type that the conversions work on, its mathematical view, and the calls into
//! `serde_json` that read and write JSON text.

use vstd::prelude::*;

use vstd::utf8::*;

use crate::text;
use crate::text::{bytes_of, same};

verus! {

/// `serde_json::Number`, carried as it is and never looked into.
#[verifier::external_type_specification]
#[verifier::external_body]
pub struct ExNumber(serde_json::Number);

/// `serde_json::Value`, the form in which `serde_json` takes and gives JSON.
#[verifier::external_type_specification]
#[verifier::external_body]
pub struct ExValue(serde_json::Value);

/// A JSON value.
#[derive(Debug)]
pub enum Json {
    Null,
    Bool(bool),
    Number(serde_json::Number),
    String(String),
    Array(Vec<Json>),
    Object(JsonMap),
}

/// The members of a JSON object. Where a name occurs twice, the later entry is the member.
#[derive(Debug)]
pub struct JsonMap {
    pub entries: Vec<(String, Json)>,
}

/// What a JSON value is: an object is a map from names to values.
pub ghost enum JsonView {
    Null,
    Bool(bool),
    Number(serde_json::Number),
    String(Seq<char>),
    Array(Seq<JsonView>),
    Object(Map<Seq<char>, JsonView>),
}

pub open spec fn json_view(v: Json) -> JsonView
    decreases v,
{
    match v {
        Json::Null => JsonView::Null,
        Json::Bool(b) => JsonView::Bool(b),
        Json::Number(n) => JsonView::Number(n),
        Json::String(s) => JsonView::String(s@),
        Json::Array(items) => JsonView::Array(items_view(items@)),
        Json::Object(map) => JsonView::Object(entries_view(map.entries@)),
    }
}

pub open spec fn items_view(items: Seq<Json>) -> Seq<JsonView>
    decreases items,
{
    Seq::new(
        items.len(),
        |i: int|
            if 0 <= i < items.len() {
                json_view(items[i])
            } else {
                arbitrary()
            },
    )
}

pub open spec fn entries_view(entries: Seq<(String, Json)>) -> Map<Seq<char>, JsonView>
    decreases entries,
{
    if entries.len() == 0 {
        Map::empty()
    } else {
        entries_view(entries.subrange(0, entries.len() - 1)).insert(
            entries[entries.len() - 1].0@,
            json_view(entries[entries.len() - 1].1),
        )
    }
}

impl View for Json {
    type V = JsonView;

    open spec fn view(&self) -> JsonView {
        json_view(*self)
    }
}

impl View for JsonMap {
    type V = Map<Seq<char>, JsonView>;

    open spec fn view(&self) -> Map<Seq<char>, JsonView> {
        entries_view(self.entries@)
    }
}

impl JsonView {
    pub open spec fn as_str(self) -> Option<Seq<char>> {
        match self {
            JsonView::String(text) => Some(text),
            _ => None,
        }
    }

    pub open spec fn as_bool(self) -> Option<bool> {
        match self {
            JsonView::Bool(b) => Some(b),
            _ => None,
        }
    }

    /// The member of that name, where the value is an object that has it.
    pub open spec fn get(self, name: Seq<char>) -> Option<JsonView> {
        match self {
            JsonView::Object(members) => members.get(name),
            _ => None,
        }
    }

    /// The member of that name, where it is a string.
    pub open spec fn get_str(self, name: Seq<char>) -> Option<Seq<char>> {
        match self {
            JsonView::Object(members) => member_str(members, name),
            _ => None,
        }
    }
}

/// The member of that name, where it is a string.
pub open spec fn member_str(members: Map<Seq<char>, JsonView>, name: Seq<char>) -> Option<
    Seq<char>,
> {
    match members.get(name) {
        Some(value) => value.as_str(),
        None => None,
    }
}

/// The member of that name, or the default where there is none.
pub open spec fn member_or(
    members: Map<Seq<char>, JsonView>,
    name: Seq<char>,
    default: JsonView,
) -> JsonView {
    match members.get(name) {
        Some(value) => value,
        None => default,
    }
}

/// What an optional reference to a value stands for.
pub open spec fn opt_view(value: Option<&Json>) -> Option<JsonView> {
    match value {
        Some(v) => Some(v@),
        None => None,
    }
}

proof fn entries_push(entries: Seq<(String, Json)>, entry: (String, Json))
    ensures
        entries_view(entries.push(entry)) == entries_view(entries).insert(entry.0@, entry.1@),
{
    let pushed = entries.push(entry);
    assert(pushed.subrange(0, pushed.len() - 1) =~= entries);
}

proof fn entries_absent(entries: Seq<(String, Json)>, name: Seq<char>)
    requires
        forall|i: int| 0 <= i < entries.len() ==> (#[trigger] entries[i]).0@ != name,
    ensures
        !entries_view(entries).contains_key(name),
    decreases entries.len(),
{
    if entries.len() > 0 {
        entries_absent(entries.subrange(0, entries.len() - 1), name);
    }
}

proof fn entries_found(entries: Seq<(String, Json)>, name: Seq<char>, at: int)
    requires
        0 <= at < entries.len(),
        entries[at].0@ == name,
        forall|i: int| at < i < entries.len() ==> (#[trigger] entries[i]).0@ != name,
    ensures
        entries_view(entries).contains_key(name),
        entries_view(entries)[name] == entries[at].1@,
    decreases entries.len(),
{
    if at < entries.len() - 1 {
        let shorter = entries.subrange(0, entries.len() - 1);
        entries_found(shorter, name, at);
        assert(shorter[at] == entries[at]);
    }
}

proof fn entries_replaced(entries: Seq<(String, Json)>, at: int, entry: (String, Json))
    requires
        0 <= at < entries.len(),
        entries[at].0@ == entry.0@,
        forall|i: int| at < i < entries.len() ==> (#[trigger] entries[i]).0@ != entry.0@,
    ensures
        entries_view(entries.update(at, entry)) == entries_view(entries).insert(entry.0@, entry.1@),
    decreases entries.len(),
{
    let shorter = entries.subrange(0, entries.len() - 1);
    let updated = entries.update(at, entry);
    if at == entries.len() - 1 {
        assert(updated.subrange(0, updated.len() - 1) =~= shorter);
        assert(entries_view(updated) =~= entries_view(entries).insert(entry.0@, entry.1@));
    } else {
        entries_replaced(shorter, at, entry);
        assert(updated.subrange(0, updated.len() - 1) =~= shorter.update(at, entry));
        assert(entries_view(updated) =~= entries_view(entries).insert(entry.0@, entry.1@));
    }
}

/// The view of a list that grew by one value.
pub proof fn items_push(items: Seq<Json>, item: Json)
    ensures
        items_view(items.push(item)) == items_view(items).push(item@),
{
    assert(items_view(items.push(item)) =~= items_view(items).push(item@));
}

/// The view of two lists, one behind the other.
pub proof fn items_concat(a: Seq<Json>, b: Seq<Json>)
    ensures
        items_view(a + b) == items_view(a) + items_view(b),
{
    assert(items_view(a + b) =~= items_view(a) + items_view(b));
}

impl JsonMap {
    /// The object without members.
    pub fn new() -> (map: JsonMap)
        ensures
            map@ == Map::<Seq<char>, JsonView>::empty(),
    {
        JsonMap { entries: Vec::new() }
    }

    fn position(&self, name: &str) -> (at: Option<usize>)
        ensures
            match at {
                Some(i) => {
                    &&& i < self.entries@.len()
                    &&& self.entries@[i as int].0@ == name@
                    &&& forall|j: int|
                        i < j < self.entries@.len() ==> (#[trigger] self.entries@[j]).0@ != name@
                },
                None => forall|j: int|
                    0 <= j < self.entries@.len() ==> (#[trigger] self.entries@[j]).0@ != name@,
            },
    {
        let mut i: usize = self.entries.len();
        while i > 0
            invariant
                i <= self.entries@.len(),
                forall|j: int|
                    i <= j < self.entries@.len() ==> (#[trigger] self.entries@[j]).0@ != name@,
            decreases i,
        {
            i = i - 1;
            if same(self.entries[i].0.as_str(), name) {
                return Some(i);
            }
        }
        None
    }

    /// The member of that name.
    pub fn get(&self, name: &str) -> (value: Option<&Json>)
        ensures
            opt_view(value) == self@.get(name@),
    {
        match self.position(name) {
            Some(i) => {
                proof {
                    entries_found(self.entries@, name@, i as int);
                }
                Some(&self.entries[i].1)
            },
            None => {
                proof {
                    entries_absent(self.entries@, name@);
                }
                None
            },
        }
    }

    /// The member of that name, where it is a string.
    pub fn get_str(&self, name: &str) -> (value: Option<&str>)
        ensures
            text::opt_str_view(value) == member_str(self@, name@),
    {
        match self.get(name) {
            Some(value) => value.as_str(),
            None => None,
        }
    }

    /// The member of that name, or the default where there is none.
    pub fn get_or(&self, name: &str, default: Json) -> (value: Json)
        ensures
            value@ == member_or(self@, name@, default@),
    {
        match self.get(name) {
            Some(value) => value.clone(),
            None => default,
        }
    }

    pub fn contains_key(&self, name: &str) -> (found: bool)
        ensures
            found == self@.contains_key(name@),
    {
        self.get(name).is_some()
    }

    pub fn is_empty(&self) -> (empty: bool)
        ensures
            empty == (self@ == Map::<Seq<char>, JsonView>::empty()),
    {
        proof {
            let entries = self.entries@;
            if entries.len() > 0 {
                assert(self@.contains_key(entries[entries.len() - 1].0@));
            }
        }
        self.entries.len() == 0
    }

    /// Gives the member of that name the value.
    pub fn insert(&mut self, name: String, value: Json)
        ensures
            final(self)@ == old(self)@.insert(name@, value@),
    {
        match self.position(name.as_str()) {
            Some(i) => {
                proof {
                    entries_replaced(self.entries@, i as int, (name, value));
                }
                self.entries.set(i, (name, value));
            },
            None => {
                proof {
                    entries_push(self.entries@, (name, value));
                }
                self.entries.push((name, value));
            },
        }
    }

    /// The object with one more member.
    pub fn with(self, name: &str, value: Json) -> (map: JsonMap)
        ensures
            map@ == self@.insert(name@, value@),
    {
        let mut map = self;
        map.insert(name.to_string(), value);
        map
    }
}

impl Json {
    /// A JSON string.
    pub fn text(s: &str) -> (value: Json)
        ensures
            value@ == JsonView::String(s@),
    {
        Json::String(s.to_string())
    }

    pub fn as_str(&self) -> (text: Option<&str>)
        ensures
            text::opt_str_view(text) == self@.as_str(),
    {
        match self {
            Json::String(text) => Some(text.as_str()),
            _ => None,
        }
    }

    pub fn as_bool(&self) -> (value: Option<bool>)
        ensures
            value == self@.as_bool(),
    {
        match self {
            Json::Bool(b) => Some(*b),
            _ => None,
        }
    }

    /// The member of that name, where the value is an object that has it.
    pub fn get(&self, name: &str) -> (value: Option<&Json>)
        ensures
            opt_view(value) == self@.get(name@),
    {
        match self {
            Json::Object(members) => members.get(name),
            _ => None,
        }
    }
}

/// `Clone` of `serde_json::Number`: the same number.
pub assume_specification[ <serde_json::Number as Clone>::clone ](n: &serde_json::Number) -> (r:
    serde_json::Number)
    ensures
        r == *n,
;

impl Clone for Json {
    fn clone(&self) -> (copy: Json)
        ensures
            copy@ == self@,
        decreases self,
    {
        match self {
            Json::Null => Json::Null,
            Json::Bool(b) => Json::Bool(*b),
            Json::Number(n) => Json::Number(n.clone()),
            Json::String(s) => Json::String(s.clone()),
            Json::Array(items) => Json::Array(clone_items(items)),
            Json::Object(members) => Json::Object(members.clone()),
        }
    }
}

impl Clone for JsonMap {
    fn clone(&self) -> (copy: JsonMap)
        ensures
            copy@ == self@,
        decreases self,
    {
        let mut entries: Vec<(String, Json)> = Vec::new();
        let mut i: usize = 0;
        while i < self.entries.len()
            invariant
                i <= self.entries@.len(),
                entries_view(entries@) == entries_view(self.entries@.subrange(0, i as int)),
            decreases self.entries@.len() - i,
        {
            let ghost before = self.entries@.subrange(0, i as int);
            let entry = (self.entries[i].0.clone(), self.entries[i].1.clone());
            proof {
                entries_push(entries@, entry);
                entries_push(before, self.entries@[i as int]);
                assert(self.entries@.subrange(0, i + 1) =~= before.push(self.entries@[i as int]));
            }
            entries.push(entry);
            i = i + 1;
        }
        proof {
            assert(self.entries@.subrange(0, i as int) =~= self.entries@);
        }
        JsonMap { entries }
    }
}

/// A copy of a list of values.
pub fn clone_items(items: &Vec<Json>) -> (copy: Vec<Json>)
    ensures
        items_view(copy@) == items_view(items@),
    decreases items,
{
    let mut copy: Vec<Json> = Vec::new();
    let mut i: usize = 0;
    while i < items.len()
        invariant
            i <= items@.len(),
            copy@.len() == i,
            forall|j: int| 0 <= j < i ==> (#[trigger] copy@[j])@ == items@[j]@,
        decreases items@.len() - i,
    {
        copy.push(items[i].clone());
        i = i + 1;
    }
    assert(items_view(copy@) =~= items_view(items@));
    copy
}

/// What a `serde_json::Value` holds.
pub uninterp spec fn value_view(value: serde_json::Value) -> JsonView;

/// What `serde_json::from_slice` makes of a text: the value that the text stands for, or the
/// message of its error.
pub uninterp spec fn parsed(bytes: Seq<u8>) -> Result<JsonView, Seq<char>>;

/// The compact JSON text that `serde_json::to_string` writes for a value.
pub uninterp spec fn json_text(value: JsonView) -> Seq<char>;

/// The number that `serde_json::Number::from` makes of an integer.
pub uninterp spec fn integer_number(i: i64) -> serde_json::Number;

/// Takes a `serde_json::Value` apart, variant by variant; nothing of it is changed.
#[verifier::external_body]
fn json_of(value: serde_json::Value) -> (json: Json)
    ensures
        json@ == value_view(value),
{
    match value {
        serde_json::Value::Null => Json::Null,
        serde_json::Value::Bool(b) => Json::Bool(b),
        serde_json::Value::Number(n) => Json::Number(n),
        serde_json::Value::String(s) => Json::String(s),
        serde_json::Value::Array(items) => Json::Array(items.into_iter().map(json_of).collect()),
        serde_json::Value::Object(members) => Json::Object(JsonMap {
            entries: members.into_iter().map(|(name, v)| (name, json_of(v))).collect(),
        }),
    }
}

/// Builds a `serde_json::Value`, variant by variant. `serde_json::Map` keeps the later of two
/// members of one name, as the view of an object does.
#[verifier::external_body]
fn value_of(json: &Json) -> (value: serde_json::Value)
    ensures
        value_view(value) == json@,
{
    match json {
        Json::Null => serde_json::Value::Null,
        Json::Bool(b) => serde_json::Value::Bool(*b),
        Json::Number(n) => serde_json::Value::Number(n.clone()),
        Json::String(s) => serde_json::Value::String(s.clone()),
        Json::Array(items) => serde_json::Value::Array(items.iter().map(value_of).collect()),
        Json::Object(members) => serde_json::Value::Object(
            members.entries.iter().map(|(name, v)| (name.clone(), value_of(v))).collect(),
        ),
    }
}

/// `serde_json::from_slice` into a `Value`: its result depends on the bytes alone. The error is
/// kept as its message.
#[verifier::external_body]
fn from_slice(bytes: &[u8]) -> (result: Result<serde_json::Value, String>)
    ensures
        match result {
            Ok(value) => parsed(bytes@) == Ok::<JsonView, Seq<char>>(value_view(value)),
            Err(message) => parsed(bytes@) == Err::<JsonView, Seq<char>>(message@),
        },
{
    serde_json::from_slice::<serde_json::Value>(bytes).map_err(|err| err.to_string())
}

/// An object that holds an input and nothing else, where the input is a string.
pub open spec fn is_input_object(value: JsonView) -> bool {
    match value {
        JsonView::Object(members) => members.dom() == set!["input"@] && members["input"@] is String,
        _ => false,
    }
}

/// A text that may be the compact one of a value: all in one line, and with a brace in front where
/// the value is an object.
pub open spec fn is_compact(value: JsonView, text: Seq<char>) -> bool {
    &&& forall|i: int| 0 <= i < text.len() ==> #[trigger] text[i] != '\n'
    &&& value is Object ==> text.len() > 0 && text[0] == '{'
}

/// `serde_json::to_string` of a `Value`: serialising one does not fail, and the text depends on
/// what the value holds alone, since a `Map` gives its members in the order of their names. A line
/// feed in a string is written as an escape, and nothing else writes one. The text of an object
/// begins with its brace. That of an object whose one member is a string named `input` is read back
/// as that object. Of other values this is left unsaid: `serde_json` may read a fraction back with
/// another last digit, reads no value that is nested too deep, and with its feature `raw_value`
/// takes an object for something else where the first name in it is one that `serde_json` keeps for
/// itself.
#[verifier::external_body]
fn to_string(value: &serde_json::Value) -> (result: Result<String, String>)
    ensures
        match result {
            Ok(text) => {
                &&& text@ == json_text(value_view(*value))
                &&& is_compact(value_view(*value), text@)
                &&& is_input_object(value_view(*value)) ==> parsed(encode_utf8(text@)) == Ok::<
                    JsonView,
                    Seq<char>,
                >(value_view(*value))
            },
            Err(_) => false,
        },
{
    serde_json::to_string(value).map_err(|err| err.to_string())
}

/// `serde_json::Number::from` of an integer.
#[verifier::external_body]
fn number_from(i: i64) -> (n: serde_json::Number)
    ensures
        n == integer_number(i),
{
    serde_json::Number::from(i)
}

/// The value that a JSON text stands for.
pub fn parse_json(bytes: &[u8]) -> (result: Result<Json, String>)
    ensures
        match result {
            Ok(json) => parsed(bytes@) == Ok::<JsonView, Seq<char>>(json@),
            Err(message) => parsed(bytes@) == Err::<JsonView, Seq<char>>(message@),
        },
{
    match from_slice(bytes) {
        Ok(value) => Ok(json_of(value)),
        Err(message) => Err(message),
    }
}

/// The value that a JSON text stands for, where it is one.
pub fn parse_json_text(text: &str) -> (result: Option<Json>)
    ensures
        match result {
            Some(json) => parsed(encode_utf8(text@)) == Ok::<JsonView, Seq<char>>(json@),
            None => parsed(encode_utf8(text@)) is Err,
        },
{
    match parse_json(text.as_bytes()) {
        Ok(json) => Some(json),
        Err(_) => None,
    }
}

/// The compact JSON text of a value.
pub fn json_to_string(json: &Json) -> (result: Result<String, String>)
    ensures
        result matches Ok(text) && text@ == json_text(json@) && is_compact(json@, text@) && (
        is_input_object(json@) ==> parsed(encode_utf8(text@)) == Ok::<JsonView, Seq<char>>(json@)),
{
    to_string(&value_of(json))
}

/// The compact JSON text of a value, in bytes.
pub fn json_to_vec(json: &Json) -> (result: Result<Vec<u8>, String>)
    ensures
        result matches Ok(bytes) && bytes@ == encode_utf8(json_text(json@)),
{
    match json_to_string(json) {
        Ok(text) => Ok(bytes_of(text.as_str())),
        Err(message) => Err(message),
    }
}

/// A JSON integer.
pub fn integer(i: i64) -> (json: Json)
    ensures
        json@ == JsonView::Number(integer_number(i)),
{
    Json::Number(number_from(i))
}

} // verus!
