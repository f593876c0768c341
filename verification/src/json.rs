//! JSON values as the daemon reads and writes them.

use vstd::prelude::*;
use vstd::string::*;

use crate::text::str_eq;

verus! {

/// A JSON value. Numbers that are no integer in range are kept as `Real`.
#[derive(Debug)]
pub enum Json {
    Null,
    Bool(bool),
    Int(i64),
    /// An integer above `i64::MAX`.
    Uint(u64),
    Real,
    Str(String),
    Array(Vec<Json>),
    /// The members in order; keys are unique.
    Object(Vec<(String, Json)>),
}

/// The value of the first member named `key`.
pub open spec fn member(m: Seq<(String, Json)>, key: Seq<char>) -> Option<Json>
    decreases m.len(),
{
    if m.len() == 0 {
        None
    } else if m[0].0@ == key {
        Some(m[0].1)
    } else {
        member(m.drop_first(), key)
    }
}

/// The member `key` of an object; `None` of anything else.
pub open spec fn field(v: Option<Json>, key: Seq<char>) -> Option<Json> {
    match v {
        Some(Json::Object(m)) => member(m@, key),
        _ => None,
    }
}

/// The text of a string value.
pub open spec fn text_in(v: Option<Json>) -> Option<Seq<char>> {
    match v {
        Some(Json::Str(s)) => Some(s@),
        _ => None,
    }
}

/// The text of a string value, empty of anything else.
pub open spec fn text_or_empty(v: Option<Json>) -> Seq<char> {
    match v {
        Some(Json::Str(s)) => s@,
        _ => Seq::empty(),
    }
}

/// The value of an integer that fits.
pub open spec fn int_in(v: Option<Json>) -> Option<i64> {
    match v {
        Some(Json::Int(i)) => Some(i),
        _ => None,
    }
}

/// The value of an integer that fits, zero of anything else.
pub open spec fn int_or_zero(v: Option<Json>) -> i64 {
    match v {
        Some(Json::Int(i)) => i,
        _ => 0,
    }
}

/// The elements of an array.
pub open spec fn items_in(v: Option<Json>) -> Option<Seq<Json>> {
    match v {
        Some(Json::Array(a)) => Some(a@),
        _ => None,
    }
}

/// What a reference to a value that may be missing stands for.
pub open spec fn held(v: Option<&Json>) -> Option<Json> {
    match v {
        Some(j) => Some(*j),
        None => None,
    }
}

/// The member `key` of an object; `None` of anything else.
pub fn get<'a>(v: Option<&'a Json>, key: &str) -> (r: Option<&'a Json>)
    ensures
        held(r) == field(held(v), key@),
{
    match v {
        Some(Json::Object(m)) => {
            let mut i: usize = 0;
            proof {
                assert(m@.skip(0) =~= m@);
            }
            while i < m.len()
                invariant
                    i <= m@.len(),
                    field(held(v), key@) == member(m@, key@),
                    member(m@, key@) == member(m@.skip(i as int), key@),
                decreases m@.len() - i,
            {
                if str_eq(m[i].0.as_str(), key) {
                    return Some(&m[i].1);
                }
                proof {
                    assert(m@.skip(i as int).drop_first() =~= m@.skip(i + 1));
                }
                i += 1;
            }
            None
        },
        _ => None,
    }
}

/// The text of a string value, empty of anything else.
pub fn text(v: Option<&Json>) -> (r: String)
    ensures
        r@ == text_or_empty(held(v)),
{
    match v {
        Some(Json::Str(s)) => s.clone(),
        _ => String::new(),
    }
}

/// The text of a string value.
pub fn as_text(v: Option<&Json>) -> (r: Option<&String>)
    ensures
        match r {
            Some(s) => text_in(held(v)) == Some(s@),
            None => text_in(held(v)) is None,
        },
{
    match v {
        Some(Json::Str(s)) => Some(s),
        _ => None,
    }
}

/// The value of an integer that fits.
pub fn as_int(v: Option<&Json>) -> (r: Option<i64>)
    ensures
        r == int_in(held(v)),
{
    match v {
        Some(Json::Int(i)) => Some(*i),
        _ => None,
    }
}

/// The value of an integer that fits, zero of anything else.
pub fn integer(v: Option<&Json>) -> (r: i64)
    ensures
        r == int_or_zero(held(v)),
{
    match v {
        Some(Json::Int(i)) => *i,
        _ => 0,
    }
}

/// The elements of an array.
pub fn as_items<'a>(v: Option<&'a Json>) -> (r: Option<&'a Vec<Json>>)
    ensures
        match r {
            Some(a) => items_in(held(v)) == Some(a@),
            None => items_in(held(v)) is None,
        },
{
    match v {
        Some(Json::Array(a)) => Some(a),
        _ => None,
    }
}

/// A member of an object is found by its name, wherever it stands, and nothing is
/// found under a name that no member has.
pub proof fn law_members_are_found_by_name(m: Seq<(String, Json)>, key: Seq<char>, i: int)
    ensures
        0 <= i < m.len() && m[i].0@ == key && (forall|j: int|
            0 <= j < i ==> (#[trigger] m[j]).0@ != key) ==> member(m, key) == Some(m[i].1),
        (forall|j: int| 0 <= j < m.len() ==> (#[trigger] m[j]).0@ != key) ==> member(m, key)
            is None,
    decreases m.len(),
{
    if m.len() > 0 && m[0].0@ != key {
        let rest = m.drop_first();
        law_members_are_found_by_name(rest, key, i - 1);
        assert forall|j: int| 0 <= j < rest.len() implies rest[j] == #[trigger] m[j + 1] by {
        }
        if 0 < i < m.len() && m[i].0@ == key && (forall|j: int|
            0 <= j < i ==> (#[trigger] m[j]).0@ != key) {
            assert(rest[i - 1] == m[i]);
            assert forall|j: int| 0 <= j < i - 1 implies (#[trigger] rest[j]).0@ != key by {
                assert(m[j + 1].0@ != key);
            }
        }
        if forall|j: int| 0 <= j < m.len() ==> (#[trigger] m[j]).0@ != key {
            assert forall|j: int| 0 <= j < rest.len() implies (#[trigger] rest[j]).0@ != key by {
                assert(m[j + 1].0@ != key);
            }
        }
    }
}

/// A value is read as a text or a number only if it is one, and then as it is.
pub proof fn law_values_are_read_as_they_are(v: Json)
    ensures
        v matches Json::Str(s) ==> text_in(Some(v)) == Some(s@) && text_or_empty(Some(v)) == s@,
        !(v is Str) ==> text_in(Some(v)) is None && text_or_empty(Some(v)).len() == 0,
        v matches Json::Int(n) ==> int_in(Some(v)) == Some(n) && int_or_zero(Some(v)) == n,
        !(v is Int) ==> int_in(Some(v)) is None && int_or_zero(Some(v)) == 0,
        v matches Json::Array(a) ==> items_in(Some(v)) == Some(a@),
        !(v is Array) ==> items_in(Some(v)) is None,
        text_in(None) is None,
        int_in(None) is None,
{
}

} // verus!
