//! A JSON document model and the lookups the pipeline reports are built from.
use vstd::prelude::*;
use crate::text::str_eq;

verus! {

/// A JSON number as serde_json holds it.
#[derive(Debug, Clone)]
pub enum JsonNumber {
    /// A number that fits a `u64`.
    Unsigned(u64),
    /// A number below zero that fits an `i64`.
    Negative(i64),
    /// Any other number, kept in its textual form.
    Fractional(String),
}

/// A JSON value. An object keeps its members in a sequence; serde_json gives each key once, in key
/// order, keeping the last value of a repeated key. Lookups find the first member of a key.
#[derive(Debug)]
pub enum Json {
    Null,
    Bool(bool),
    Number(JsonNumber),
    Str(String),
    Array(Vec<Json>),
    Object(Vec<(String, Json)>),
}

/// The value of the first member named `key` among `members`.
pub open spec fn member_value(members: Seq<(String, Json)>, key: Seq<char>) -> Option<Json>
    decreases members.len(),
{
    if members.len() == 0 {
        None
    } else if members[0].0@ == key {
        Some(members[0].1)
    } else {
        member_value(members.drop_first(), key)
    }
}

/// `Value::get` with a string key: the member of an object, nothing for any other value.
pub open spec fn spec_get(value: Json, key: Seq<char>) -> Option<Json> {
    match value {
        Json::Object(members) => member_value(members@, key),
        _ => None,
    }
}

pub open spec fn deref_opt(r: Option<&Json>) -> Option<Json> {
    match r {
        Some(v) => Some(*v),
        None => None,
    }
}

/// serde_json's JSON value, which `parse_json` reads and converts; opaque here.
#[verifier::external_type_specification]
#[verifier::external_body]
pub struct ExSerdeJsonValue(serde_json::Value);

/// serde_json's JSON number, which `parse_json` reads and converts; opaque here.
#[verifier::external_type_specification]
#[verifier::external_body]
pub struct ExSerdeJsonNumber(serde_json::Number);

/// The document that serde_json reads from `text`, or `None` where it refuses the text.
pub uninterp spec fn json_text(text: Seq<char>) -> Option<Json>;

/// Calls `serde_json::from_str::<serde_json::Value>` and converts the value it reads into a
/// `Json`. The contract claims only that the result depends on the text alone (named `json_text`);
/// which texts serde_json accepts, and what it reads from them, is left unsaid.
#[verifier::external_body]
fn parse_json(text: &str) -> (r: Option<Json>)
    ensures
        r == json_text(text@),
{
    match serde_json::from_str::<serde_json::Value>(text) {
        Ok(value) => Some(from_serde_value(value)),
        Err(_) => None,
    }
}

/// Converts a `serde_json::Value` into a `Json`, variant for variant, the members of an object in
/// the order serde_json's map yields them. Only `parse_json`'s body calls it; nothing is claimed of it
/// beyond `parse_json`'s contract.
#[verifier::external_body]
fn from_serde_value(value: serde_json::Value) -> Json {
    match value {
        serde_json::Value::Null => Json::Null,
        serde_json::Value::Bool(b) => Json::Bool(b),
        serde_json::Value::Number(n) => Json::Number(from_serde_number(n)),
        serde_json::Value::String(s) => Json::Str(s),
        serde_json::Value::Array(items) => Json::Array(items.into_iter().map(from_serde_value).collect()),
        serde_json::Value::Object(members) => Json::Object(
            members.into_iter().map(|(k, v)| (k, from_serde_value(v))).collect(),
        ),
    }
}

/// Converts a `serde_json::Number` into a `JsonNumber` by the kind of number it holds, which
/// `serde_json::Number::as_u64` and `as_i64` tell apart; a number that neither reads is kept as the text
/// that serde_json writes for it. Only `from_serde_value` calls it; nothing is claimed of it.
#[verifier::external_body]
fn from_serde_number(n: serde_json::Number) -> JsonNumber {
    match (n.as_u64(), n.as_i64()) {
        (Some(u), _) => JsonNumber::Unsigned(u),
        (None, Some(i)) => JsonNumber::Negative(i),
        (None, None) => JsonNumber::Fractional(n.to_string()),
    }
}

/// `value[key]`: the member of an object, or `Null` where `get` finds nothing.
pub open spec fn spec_index(value: Json, key: Seq<char>) -> Json {
    match spec_get(value, key) {
        Some(member) => member,
        None => Json::Null,
    }
}

/// `Value::as_str`: the text of a string value.
pub open spec fn spec_as_str(value: Json) -> Option<Seq<char>> {
    match value {
        Json::Str(s) => Some(s@),
        _ => None,
    }
}

/// `Value::as_u64`: a number that fits a `u64`.
pub open spec fn spec_as_u64(value: Json) -> Option<u64> {
    match value {
        Json::Number(JsonNumber::Unsigned(n)) => Some(n),
        _ => None,
    }
}

/// `Value::as_array`: the elements of an array value.
pub open spec fn spec_as_array(value: Json) -> Option<Seq<Json>> {
    match value {
        Json::Array(items) => Some(items@),
        _ => None,
    }
}

/// `Option::and_then(|v| v.get(key))`.
pub open spec fn then_get(found: Option<Json>, key: Seq<char>) -> Option<Json> {
    match found {
        Some(v) => spec_get(v, key),
        None => None,
    }
}

/// `Option::and_then(|v| v.as_str())`.
pub open spec fn then_str(found: Option<Json>) -> Option<Seq<char>> {
    match found {
        Some(v) => spec_as_str(v),
        None => None,
    }
}

/// The string found under `key`.
pub open spec fn str_by_one_key(target: Json, key: Seq<char>) -> Option<Seq<char>> {
    then_str(spec_get(target, key))
}

/// The string found under `key1`, then `key2`.
pub open spec fn str_by_two_keys(target: Json, key1: Seq<char>, key2: Seq<char>) -> Option<Seq<char>> {
    then_str(then_get(spec_get(target, key1), key2))
}

/// The string found under `key1`, then `key2`, then `key3`.
pub open spec fn str_by_three_keys(
    target: Json,
    key1: Seq<char>,
    key2: Seq<char>,
    key3: Seq<char>,
) -> Option<Seq<char>> {
    then_str(then_get(then_get(spec_get(target, key1), key2), key3))
}

/// A found string, or `"unknown"` where nothing was found.
pub open spec fn str_or_unknown(found: Option<Seq<char>>) -> Seq<char> {
    match found {
        Some(s) => s,
        None => "unknown"@,
    }
}

pub open spec fn str_opt_view(r: Option<&str>) -> Option<Seq<char>> {
    match r {
        Some(s) => Some(s@),
        None => None,
    }
}

/// Where the expected text is not `"unknown"`, testing `target[key1][key2]` for it with
/// `has_value_by_two_keys` and comparing `string_value_by_two_keys` with it agree.
pub proof fn lemma_has_value_agrees_with_string_value(
    target: Json,
    key1: Seq<char>,
    key2: Seq<char>,
    expected: Seq<char>,
)
    requires
        expected != "unknown"@,
    ensures
        (str_by_two_keys(target, key1, key2) == Some(expected)) <==> (str_or_unknown(
            str_by_two_keys(target, key1, key2),
        ) == expected),
{
}

impl Json {
    /// Reads a JSON document with serde_json; `None` where serde_json refuses the text.
    pub fn parse(text: &str) -> (r: Option<Json>)
        ensures
            r == json_text(text@),
    {
        parse_json(text)
    }

    /// The member named `key` of an object; `None` for a missing key or a value that is no object.
    pub fn get(&self, key: &str) -> (r: Option<&Json>)
        ensures
            deref_opt(r) == spec_get(*self, key@),
    {
        match self {
            Json::Object(members) => match find_member(members, key) {
                Some(i) => Some(&members[i].1),
                None => None,
            },
            _ => None,
        }
    }

    /// Takes the member named `key` out of an object; `None` where `get` finds nothing.
    pub fn into_member(self, key: &str) -> (r: Option<Json>)
        ensures
            r == spec_get(self, key@),
    {
        match self {
            Json::Object(mut members) => match find_member(&members, key) {
                Some(i) => Some(members.remove(i).1),
                None => None,
            },
            _ => None,
        }
    }

    /// Takes the elements out of an array value.
    pub fn into_array(self) -> (r: Option<Vec<Json>>)
        ensures
            match r {
                Some(items) => spec_as_array(self) == Some(items@),
                None => spec_as_array(self) is None,
            },
    {
        match self {
            Json::Array(items) => Some(items),
            _ => None,
        }
    }

    /// `value[key]`: the member named `key`, or `Null`.
    pub fn index(&self, key: &str) -> (r: &Json)
        ensures
            *r == spec_index(*self, key@),
    {
        match self.get(key) {
            Some(member) => member,
            None => &Json::Null,
        }
    }

    /// The text of a string value.
    pub fn as_str(&self) -> (r: Option<&str>)
        ensures
            str_opt_view(r) == spec_as_str(*self),
    {
        match self {
            Json::Str(s) => Some(s.as_str()),
            _ => None,
        }
    }

    /// The value of a number that fits a `u64`.
    pub fn as_u64(&self) -> (r: Option<u64>)
        ensures
            r == spec_as_u64(*self),
    {
        match self {
            Json::Number(JsonNumber::Unsigned(n)) => Some(*n),
            _ => None,
        }
    }
}

/// `a` and `b` hold the same value: the same kind, the same text or number, and, element for
/// element and member for member, the same keys and the same values.
pub open spec fn same_json(a: Json, b: Json) -> bool
    decreases a, 1nat,
{
    match a {
        Json::Array(x) => b is Array && same_items(x@, b->Array_0@),
        Json::Object(x) => b is Object && same_members(x@, b->Object_0@),
        _ => a == b,
    }
}

/// `x` and `y` hold, element for element, the same values.
pub open spec fn same_items(x: Seq<Json>, y: Seq<Json>) -> bool
    decreases x, 0nat,
{
    if x.len() == 0 {
        y.len() == 0
    } else {
        &&& y.len() > 0
        &&& same_items(x.subrange(0, x.len() - 1), y.subrange(0, y.len() - 1))
        &&& same_json(x[x.len() - 1], y[y.len() - 1])
    }
}

/// `x` and `y` hold, member for member, the same keys and the same values.
pub open spec fn same_members(x: Seq<(String, Json)>, y: Seq<(String, Json)>) -> bool
    decreases x, 0nat,
{
    if x.len() == 0 {
        y.len() == 0
    } else {
        &&& y.len() > 0
        &&& same_members(x.subrange(0, x.len() - 1), y.subrange(0, y.len() - 1))
        &&& x[x.len() - 1].0@ == y[y.len() - 1].0@
        &&& same_json(x[x.len() - 1].1, y[y.len() - 1].1)
    }
}

impl Clone for Json {
    /// A copy of the value, member for member.
    fn clone(&self) -> (r: Json)
        ensures
            same_json(r, *self),
    {
        copy_json(self)
    }
}

/// A copy of `value`, member for member.
fn copy_json(value: &Json) -> (r: Json)
    ensures
        same_json(r, *value),
    decreases *value,
{
    match value {
        Json::Null => Json::Null,
        Json::Bool(b) => Json::Bool(*b),
        Json::Number(n) => Json::Number(copy_number(n)),
        Json::Str(s) => Json::Str(s.clone()),
        Json::Array(items) => {
            let mut copy: Vec<Json> = Vec::new();
            for i in 0..items.len()
                invariant
                    *value == Json::Array(*items),
                    same_items(copy@, items@.subrange(0, i as int)),
            {
                assert(decreases_to!(*value => value->Array_0));
                assert(decreases_to!(*items => items@));
                assert(decreases_to!(items@ => items@[i as int]));
                let item = copy_json(&items[i]);
                let ghost prev = copy@;
                copy.push(item);
                assert(copy@.subrange(0, copy@.len() - 1) =~= prev);
                assert(items@.subrange(0, i + 1).subrange(0, i as int) =~= items@.subrange(0, i as int));
            }
            assert(items@.subrange(0, items@.len() as int) =~= items@);
            Json::Array(copy)
        },
        Json::Object(members) => {
            let mut copy: Vec<(String, Json)> = Vec::new();
            for i in 0..members.len()
                invariant
                    *value == Json::Object(*members),
                    same_members(copy@, members@.subrange(0, i as int)),
            {
                assert(decreases_to!(*value => value->Object_0));
                assert(decreases_to!(*members => members@));
                assert(decreases_to!(members@ => members@[i as int]));
                assert(decreases_to!(members@[i as int] => members@[i as int].1));
                let key = members[i].0.clone();
                let member_value = copy_json(&members[i].1);
                let ghost prev = copy@;
                copy.push((key, member_value));
                assert(copy@.subrange(0, copy@.len() - 1) =~= prev);
                assert(members@.subrange(0, i + 1).subrange(0, i as int) =~= members@.subrange(0, i as int));
            }
            assert(members@.subrange(0, members@.len() as int) =~= members@);
            Json::Object(copy)
        },
    }
}

fn copy_number(n: &JsonNumber) -> (r: JsonNumber)
    ensures
        r == *n,
{
    match n {
        JsonNumber::Unsigned(u) => JsonNumber::Unsigned(*u),
        JsonNumber::Negative(i) => JsonNumber::Negative(*i),
        JsonNumber::Fractional(s) => JsonNumber::Fractional(s.clone()),
    }
}

/// The index of the first member named `key`.
fn find_member(members: &Vec<(String, Json)>, key: &str) -> (r: Option<usize>)
    ensures
        match r {
            Some(i) => i < members@.len() && member_value(members@, key@) == Some(members@[i as int].1),
            None => member_value(members@, key@) is None,
        },
{
    let wanted = String::from_str(key);
    let n = members.len();
    let mut i: usize = 0;
    assert(members@.skip(0) =~= members@);
    while i < n
        invariant
            n == members@.len(),
            i <= n,
            wanted@ == key@,
            member_value(members@, key@) == member_value(members@.skip(i as int), key@),
        decreases n - i,
    {
        assert(members@.skip(i as int).drop_first() =~= members@.skip(i + 1));
        assert(members@.skip(i as int)[0] == members@[i as int]);
        if members[i].0 == wanted {
            return Some(i);
        }
        i = i + 1;
    }
    None
}

fn then_get_exec<'a>(found: Option<&'a Json>, key: &str) -> (r: Option<&'a Json>)
    ensures
        deref_opt(r) == then_get(deref_opt(found), key@),
{
    match found {
        Some(v) => v.get(key),
        None => None,
    }
}

fn then_str_exec<'a>(found: Option<&'a Json>) -> (r: Option<&'a str>)
    ensures
        str_opt_view(r) == then_str(deref_opt(found)),
{
    match found {
        Some(v) => v.as_str(),
        None => None,
    }
}

fn is_expected(value: Option<&str>, expected: &str) -> (r: bool)
    ensures
        r == (str_opt_view(value) == Some(expected@)),
{
    match value {
        Some(s) => str_eq(s, expected),
        None => false,
    }
}

/// Whether the member `key` of `target` is the string `expected`.
pub fn has_value_by_one_key(target: &Json, key: &str, expected: &str) -> (r: bool)
    ensures
        r == (str_by_one_key(*target, key@) == Some(expected@)),
{
    let value = then_str_exec(target.get(key));
    is_expected(value, expected)
}

/// Whether `target[key1][key2]` is the string `expected`.
pub fn has_value_by_two_keys(target: &Json, key1: &str, key2: &str, expected: &str) -> (r: bool)
    ensures
        r == (str_by_two_keys(*target, key1@, key2@) == Some(expected@)),
{
    let value = try_find_value_by_two_keys(target, key1, key2);
    is_expected(value, expected)
}

/// Whether `target[key1][key2][key3]` is the string `expected`.
pub fn has_value_by_three_keys(
    target: &Json,
    key1: &str,
    key2: &str,
    key3: &str,
    expected: &str,
) -> (r: bool)
    ensures
        r == (str_by_three_keys(*target, key1@, key2@, key3@) == Some(expected@)),
{
    let value = then_str_exec(then_get_exec(then_get_exec(target.get(key1), key2), key3));
    is_expected(value, expected)
}

/// The string `target[key1][key2]`, or `"unknown"` where there is none.
pub fn string_value_by_two_keys<'a>(target: &'a Json, key1: &str, key2: &str) -> (r: &'a str)
    ensures
        r@ == str_or_unknown(str_by_two_keys(*target, key1@, key2@)),
{
    let value = try_find_value_by_two_keys(target, key1, key2);
    match value {
        Some(s) => s,
        None => "unknown",
    }
}

fn try_find_value_by_two_keys<'a>(target: &'a Json, key1: &str, key2: &str) -> (r: Option<&'a str>)
    ensures
        str_opt_view(r) == str_by_two_keys(*target, key1@, key2@),
{
    then_str_exec(then_get_exec(target.get(key1), key2))
}

} // verus!
