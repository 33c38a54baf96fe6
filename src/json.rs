//! A plain-value model of the JSON documents the reservation service answers
//! with. The transport layer decodes a response and hands the tree over in
//! this form; everything the race engine reads from a response is read here.
use vstd::prelude::*;

verus! {

/// A JSON number: its text as the decoder printed it, and its value where it
/// is an integer that fits `u64` or `i64`.
#[derive(Debug)]
pub struct JsonNumber {
    pub text: String,
    pub unsigned: Option<u64>,
    pub signed: Option<i64>,
}

/// A JSON value. An object keeps its members in the order the decoder
/// hands them over; a key is looked up by its first occurrence.
#[derive(Debug)]
pub enum Json {
    Null,
    Bool(bool),
    Number(JsonNumber),
    Str(String),
    Array(Vec<Json>),
    Object(Vec<(String, Json)>),
}

/// The value of the first member named `key` at or after position `i`.
pub open spec fn member_from(members: Seq<(String, Json)>, key: Seq<char>, i: int) -> Option<Json>
    decreases members.len() - i,
{
    if i < 0 || i >= members.len() {
        None
    } else if members[i].0@ == key {
        Some(members[i].1)
    } else {
        member_from(members, key, i + 1)
    }
}

/// `v[key]` where `v` is an object holding `key`.
pub open spec fn member(v: Option<Json>, key: Seq<char>) -> Option<Json> {
    match v {
        Some(Json::Object(members)) => member_from(members@, key, 0),
        _ => None,
    }
}

/// `v[i]` where `v` is an array longer than `i`.
pub open spec fn element(v: Option<Json>, i: int) -> Option<Json> {
    match v {
        Some(Json::Array(items)) => if 0 <= i < items@.len() {
            Some(items@[i])
        } else {
            None
        },
        _ => None,
    }
}

/// The characters of `v`, where it is a string.
pub open spec fn str_value(v: Option<Json>) -> Option<Seq<char>> {
    match v {
        Some(Json::Str(s)) => Some(s@),
        _ => None,
    }
}

/// The value of `v`, where it is a number that is an integer in `u64`.
pub open spec fn u64_value(v: Option<Json>) -> Option<u64> {
    match v {
        Some(Json::Number(n)) => n.unsigned,
        _ => None,
    }
}

/// The value of `v`, where it is a number that is an integer in `i64`.
pub open spec fn i64_value(v: Option<Json>) -> Option<i64> {
    match v {
        Some(Json::Number(n)) => n.signed,
        _ => None,
    }
}

/// The printed form of `v`, where it is a number.
pub open spec fn number_text(v: Option<Json>) -> Option<Seq<char>> {
    match v {
        Some(Json::Number(n)) => Some(n.text@),
        _ => None,
    }
}

/// The items of `v`, where it is an array.
pub open spec fn array_items(v: Option<Json>) -> Option<Seq<Json>> {
    match v {
        Some(Json::Array(items)) => Some(items@),
        _ => None,
    }
}

/// The value a borrowed JSON value stands for.
pub open spec fn seen(r: Option<&Json>) -> Option<Json> {
    match r {
        Some(x) => Some(*x),
        None => None,
    }
}

/// Reads member `key` of `v`; `None` where `v` is absent, not an object, or
/// has no such member.
pub fn get<'a>(v: Option<&'a Json>, key: &str) -> (r: Option<&'a Json>)
    ensures
        seen(r) == member(seen(v), key@),
{
    match v {
        Some(Json::Object(members)) => {
            let name = String::from_str(key);
            let mut i: usize = 0;
            while i < members.len()
                invariant
                    i <= members@.len(),
                    name@ == key@,
                    seen(v) == Some(Json::Object(*members)),
                    member_from(members@, key@, 0) == member_from(members@, key@, i as int),
                decreases members@.len() - i,
            {
                if members[i].0 == name {
                    assert(member_from(members@, key@, i as int) == Some(members@[i as int].1));
                    return Some(&members[i].1);
                }
                i = i + 1;
            }
            None
        },
        _ => None,
    }
}

/// Reads item `i` of `v`; `None` where `v` is absent, not an array, or too
/// short.
pub fn at<'a>(v: Option<&'a Json>, i: usize) -> (r: Option<&'a Json>)
    ensures
        seen(r) == element(seen(v), i as int),
{
    match v {
        Some(Json::Array(items)) => if i < items.len() {
            Some(&items[i])
        } else {
            None
        },
        _ => None,
    }
}

/// The string `v` holds, if it is one.
pub fn as_str<'a>(v: Option<&'a Json>) -> (r: Option<&'a String>)
    ensures
        match r {
            Some(s) => str_value(seen(v)) == Some(s@),
            None => str_value(seen(v)) is None,
        },
{
    match v {
        Some(Json::Str(s)) => Some(s),
        _ => None,
    }
}

/// The printed form of `v`, if it is a number.
pub fn as_number_text<'a>(v: Option<&'a Json>) -> (r: Option<&'a String>)
    ensures
        match r {
            Some(s) => number_text(seen(v)) == Some(s@),
            None => number_text(seen(v)) is None,
        },
{
    match v {
        Some(Json::Number(n)) => Some(&n.text),
        _ => None,
    }
}

/// The value of `v`, if it is an integer number in `u64`.
pub fn as_u64(v: Option<&Json>) -> (r: Option<u64>)
    ensures
        r == u64_value(seen(v)),
{
    match v {
        Some(Json::Number(n)) => n.unsigned,
        _ => None,
    }
}

/// The value of `v`, if it is an integer number in `i64`.
pub fn as_i64(v: Option<&Json>) -> (r: Option<i64>)
    ensures
        r == i64_value(seen(v)),
{
    match v {
        Some(Json::Number(n)) => n.signed,
        _ => None,
    }
}

/// The items of `v`, if it is an array.
pub fn as_array<'a>(v: Option<&'a Json>) -> (r: Option<&'a Vec<Json>>)
    ensures
        match r {
            Some(items) => array_items(seen(v)) == Some(items@),
            None => array_items(seen(v)) is None,
        },
{
    match v {
        Some(Json::Array(items)) => Some(items),
        _ => None,
    }
}

} // verus!
