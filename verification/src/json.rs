//! What a balance service answers: a JSON value, and the way to a balance
//! in it.

use vstd::prelude::*;
use crate::error::{failure_view, Failure, ScanError};
use crate::text::{same_text, split, split_spec};

verus! {

/// A JSON number. Of one that is no integer only that much is kept: no
/// balance can be read from it.
#[derive(Clone, Copy, Debug, PartialEq, Eq)]
pub enum JsonNumber {
    /// An integer that is not below zero.
    Unsigned(u64),
    /// An integer below zero.
    Negative(i64),
    /// A number with a fraction or an exponent.
    Fraction,
}

/// A JSON value. The members of an object stand in a list; where two have
/// the same name, the first one is the member of that name. In a list that
/// a map gave no name stands twice, and there the order of the members
/// does not matter.
#[derive(Debug, PartialEq)]
pub enum Json {
    Null,
    Bool(bool),
    Number(JsonNumber),
    Text(String),
    Array(Vec<Json>),
    Object(Vec<(String, Json)>),
}

/// The member of the name `key` among `members`, if there is one.
pub open spec fn member(members: Seq<(String, Json)>, key: Seq<char>) -> Option<Json>
    decreases members.len(),
{
    if members.len() == 0 {
        None
    } else if members.first().0@ == key {
        Some(members.first().1)
    } else {
        member(members.drop_first(), key)
    }
}

/// Whether no two of `members` have the same name.
pub open spec fn distinct_names(members: Seq<(String, Json)>) -> bool {
    forall|i: int, j: int|
        0 <= i < j < members.len() ==> (#[trigger] members[i]).0@ != (#[trigger] members[j]).0@
}

/// Whether every one of `a` stands somewhere in `b`.
pub open spec fn all_among(a: Seq<(String, Json)>, b: Seq<(String, Json)>) -> bool {
    forall|i: int| 0 <= i < a.len() ==> b.contains(#[trigger] a[i])
}

/// The member that a lookup finds is the first one of that name, and a
/// lookup finds none only where no member has that name.
pub proof fn lemma_member_is_first(members: Seq<(String, Json)>, key: Seq<char>)
    ensures
        match member(members, key) {
            Some(value) => exists|i: int|
                0 <= i < members.len() && (#[trigger] members[i]).0@ == key && members[i].1
                    == value && forall|k: int| 0 <= k < i ==> (#[trigger] members[k]).0@ != key,
            None => forall|i: int| 0 <= i < members.len() ==> (#[trigger] members[i]).0@ != key,
        },
    decreases members.len(),
{
    if members.len() > 0 {
        let rest = members.drop_first();
        lemma_member_is_first(rest, key);
        if members.first().0@ != key {
            match member(rest, key) {
                Some(value) => {
                    let i = choose|i: int|
                        0 <= i < rest.len() && (#[trigger] rest[i]).0@ == key && rest[i].1 == value
                            && forall|k: int| 0 <= k < i ==> (#[trigger] rest[k]).0@ != key;
                    assert forall|k: int| 0 <= k < i + 1 implies (#[trigger] members[k]).0@
                        != key by {
                        if k > 0 {
                            assert(members[k] == rest[k - 1]);
                        }
                    }
                },
                None => {
                    assert forall|i: int| 0 <= i < members.len() implies (#[trigger] members[i]).0@
                        != key by {
                        if i > 0 {
                            assert(members[i] == rest[i - 1]);
                        }
                    }
                },
            }
        }
    }
}

/// Where no two members have the same name, a lookup finds each member
/// under its name, wherever it stands.
pub proof fn lemma_member_found(members: Seq<(String, Json)>, i: int)
    requires
        distinct_names(members),
        0 <= i < members.len(),
    ensures
        member(members, members[i].0@) == Some(members[i].1),
{
    let key = members[i].0@;
    lemma_member_is_first(members, key);
    match member(members, key) {
        Some(value) => {
            let j = choose|j: int|
                0 <= j < members.len() && (#[trigger] members[j]).0@ == key && members[j].1
                    == value && forall|k: int| 0 <= k < j ==> (#[trigger] members[k]).0@ != key;
        },
        None => {},
    }
}

/// The order of the members of an object does not matter where no name is
/// used twice: two lists that hold the same members, in whatever order,
/// give the same member for every name.
pub proof fn lemma_member_order(a: Seq<(String, Json)>, b: Seq<(String, Json)>, key: Seq<char>)
    requires
        distinct_names(a),
        distinct_names(b),
        all_among(a, b),
        all_among(b, a),
    ensures
        member(a, key) == member(b, key),
{
    lemma_member_is_first(a, key);
    lemma_member_is_first(b, key);
    match member(a, key) {
        Some(value) => {
            let i = choose|i: int|
                0 <= i < a.len() && (#[trigger] a[i]).0@ == key && a[i].1 == value && forall|k: int|
                    0 <= k < i ==> (#[trigger] a[k]).0@ != key;
            let j = choose|j: int| 0 <= j < b.len() && b[j] == a[i];
            lemma_member_found(b, j);
        },
        None => {
            match member(b, key) {
                Some(value) => {
                    let j = choose|j: int|
                        0 <= j < b.len() && (#[trigger] b[j]).0@ == key && b[j].1 == value
                            && forall|k: int| 0 <= k < j ==> (#[trigger] b[k]).0@ != key;
                    let i = choose|i: int| 0 <= i < a.len() && a[i] == b[j];
                },
                None => {},
            }
        },
    }
}

/// The value that `keys` lead to from `value`, each key naming a member of
/// the object that the keys before it led to. A key that names no member
/// gives `PathNotFound`; a key that meets a value that is no object gives
/// `TypeMismatch`. Either failure holds the key.
pub open spec fn value_at(value: Json, keys: Seq<Seq<char>>) -> Result<Json, Failure>
    decreases keys.len(),
{
    if keys.len() == 0 {
        Ok(value)
    } else {
        match value {
            Json::Object(members) => match member(members@, keys.first()) {
                Some(inner) => value_at(inner, keys.drop_first()),
                None => Err(Failure::PathNotFound(keys.first())),
            },
            _ => Err(Failure::TypeMismatch(keys.first())),
        }
    }
}

/// The balance that `value` is: every integer that is not below zero is
/// one. `place` is the text that the failure holds where it is none.
pub open spec fn as_u64(value: Json, place: Seq<char>) -> Result<u64, Failure> {
    match value {
        Json::Number(JsonNumber::Unsigned(n)) => Ok(n),
        _ => Err(Failure::TypeMismatch(place)),
    }
}

/// The number at the end of the dotted `path` into the object with the
/// members `map`. Where the value at the end is no balance, the failure
/// holds the whole path.
pub open spec fn value_by_path(map: Vec<(String, Json)>, path: Seq<char>) -> Result<
    u64,
    Failure,
> {
    match value_at(Json::Object(map), split_spec(path, '.')) {
        Ok(value) => as_u64(value, path),
        Err(e) => Err(e),
    }
}

/// The balance that an answer holds at a path does not depend on the
/// order in which the members of the answer stand, where no name is used
/// twice among them.
pub proof fn lemma_value_by_path_order(
    a: Vec<(String, Json)>,
    b: Vec<(String, Json)>,
    path: Seq<char>,
)
    requires
        distinct_names(a@),
        distinct_names(b@),
        all_among(a@, b@),
        all_among(b@, a@),
    ensures
        value_by_path(a, path) == value_by_path(b, path),
{
    let keys = split_spec(path, '.');
    if keys.len() > 0 {
        lemma_member_order(a@, b@, keys.first());
    }
}

/// `serde_json::from_value::<u64>` on the JSON number `n`. It reads an
/// unsigned number of 64 bits as the number itself, and has no error for
/// one.
#[verifier::external_body]
fn u64_from_number(n: u64) -> (r: Option<u64>)
    ensures
        r == Some(n),
{
    serde_json::from_value::<u64>(serde_json::Value::from(n)).ok()
}

/// Reads `value` as a balance. `place` is the text that the failure holds
/// where the value is none.
pub fn read_u64(value: &Json, place: &str) -> (r: Result<u64, ScanError>)
    ensures
        failure_view(r) == as_u64(*value, place@),
{
    match value {
        Json::Number(JsonNumber::Unsigned(n)) => match u64_from_number(*n) {
            Some(number) => Ok(number),
            None => Err(ScanError::TypeMismatch(place.to_owned())),
        },
        _ => Err(ScanError::TypeMismatch(place.to_owned())),
    }
}

/// Looks the member of the name `key` up among `members`.
pub fn find_member<'a>(members: &'a Vec<(String, Json)>, key: &str) -> (r: Option<&'a Json>)
    ensures
        match r {
            Some(value) => member(members@, key@) == Some(*value),
            None => member(members@, key@).is_none(),
        },
{
    let mut j: usize = 0;
    assert(members@.skip(0) == members@);
    while j < members.len()
        invariant
            j <= members.len(),
            member(members@, key@) == member(members@.skip(j as int), key@),
        decreases members.len() - j,
    {
        if same_text(members[j].0.as_str(), key) {
            return Some(&members[j].1);
        }
        assert(members@.skip(j as int).drop_first() == members@.skip(j + 1));
        j = j + 1;
    }
    None
}

/// Follows the dotted `path` into the object with the members `map` and
/// reads the number that it ends at.
pub fn get_value_by_path(map: &Vec<(String, Json)>, path: &str) -> (r: Result<u64, ScanError>)
    ensures
        failure_view(r) == value_by_path(*map, path@),
{
    let keys = split(path, '.');
    let ghost all = split_spec(path@, '.');
    let mut members: &Vec<(String, Json)> = map;
    let mut i: usize = 0;
    assert(all.skip(0) == all);
    loop
        invariant
            i < keys.len(),
            keys.deep_view() == all,
            all == split_spec(path@, '.'),
            value_at(Json::Object(*map), all) == value_at(Json::Object(*members), all.skip(i as int)),
        decreases keys.len() - i,
    {
        let ghost rest = all.skip(i as int);
        assert(rest.drop_first() == all.skip(i + 1));
        match find_member(members, keys[i].as_str()) {
            None => {
                return Err(ScanError::PathNotFound(keys[i].clone()));
            },
            Some(inner) => {
                if i + 1 == keys.len() {
                    assert(value_at(*inner, all.skip(i + 1)) == Ok::<Json, Failure>(*inner));
                    return read_u64(inner, path);
                }
                match inner {
                    Json::Object(next) => {
                        members = next;
                        i = i + 1;
                    },
                    _ => {
                        assert(all.skip(i + 1).first() == keys[i + 1]@);
                        return Err(ScanError::TypeMismatch(keys[i + 1].clone()));
                    },
                }
            },
        }
    }
}

} // verus!
