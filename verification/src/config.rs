//! Where a setting comes from: the command line first, then the
//! environment, then a default.

use vstd::prelude::*;
use vstd::string::StringExecFns;
use crate::text::{parse_u32, parse_u32_spec, split, split_spec, trim, trim_spec};

verus! {

/// The path that is scanned where none is given.
pub open spec fn default_path() -> Seq<char> {
    "0/0"@
}

/// The number of indices that is scanned where none is given.
pub const DEFAULT_COUNT: u32 = 10;

/// The first of the three that is there: the value given on the command
/// line, the value that the environment holds, the default.
pub open spec fn first_given<T>(opt: Option<T>, env: Option<T>, defval: T) -> T {
    match opt {
        Some(value) => value,
        None => match env {
            Some(value) => value,
            None => defval,
        },
    }
}

/// Settles one setting. `opt` is what the command line gave, `env` what the
/// environment holds under the setting's name and could be read as a `T`,
/// `defval` the default.
pub fn get_value<T>(opt: Option<T>, env: Option<T>, defval: T) -> (r: T)
    ensures
        r == first_given(opt, env, defval),
{
    match opt {
        Some(value) => value,
        None => match env {
            Some(value) => value,
            None => defval,
        },
    }
}

/// The items of a list that the environment holds: the pieces between the
/// commas, each without the white space around it.
pub open spec fn list_items(env: Seq<char>) -> Seq<Seq<char>> {
    split_spec(env, ',').map_values(|piece: Seq<char>| trim_spec(piece))
}

/// Reads a list from the text that the environment holds for it.
pub fn parse_list(env: &str) -> (r: Vec<String>)
    ensures
        r.deep_view() == list_items(env@),
{
    let pieces = split(env, ',');
    let mut items: Vec<String> = Vec::new();
    let mut i: usize = 0;
    while i < pieces.len()
        invariant
            i <= pieces.len(),
            pieces.deep_view() == split_spec(env@, ','),
            items.len() == i,
            forall|k: int| 0 <= k < i ==> (#[trigger] items[k])@ == trim_spec(pieces[k]@),
        decreases pieces.len() - i,
    {
        items.push(String::from_str(trim(pieces[i].as_str())));
        i = i + 1;
    }
    assert(items.deep_view() =~= list_items(env@));
    items
}

/// Whether every one of `pieces` could be read.
pub open spec fn all_read<T>(pieces: Seq<Option<T>>) -> bool {
    forall|i: int| 0 <= i < pieces.len() ==> (#[trigger] pieces[i]).is_some()
}

/// What was read from each of `pieces`.
pub open spec fn values_read<T>(pieces: Seq<Option<T>>) -> Seq<T> {
    pieces.map_values(|piece: Option<T>| piece.unwrap())
}

/// What `get_vec` settles on: the list that the command line gave; without
/// one, what was read from the pieces of the list that the environment
/// holds, where every piece could be read; the default otherwise. One
/// piece that cannot be read sets the whole list of the environment aside.
pub open spec fn list_given<T>(
    opt: Option<Seq<T>>,
    env: Option<Seq<Option<T>>>,
    defval: Seq<T>,
) -> Seq<T> {
    match opt {
        Some(list) => list,
        None => match env {
            Some(pieces) => if all_read(pieces) {
                values_read(pieces)
            } else {
                defval
            },
            None => defval,
        },
    }
}

/// The list as contracts speak of it, where there is one.
pub open spec fn list_view<T>(list: Option<Vec<T>>) -> Option<Seq<T>> {
    match list {
        Some(items) => Some(items@),
        None => None,
    }
}

/// Turns a list round: the last item first.
fn turned<T>(items: Vec<T>) -> (r: Vec<T>)
    ensures
        r@ == items@.reverse(),
{
    let ghost whole = items@;
    let mut items = items;
    let mut out: Vec<T> = Vec::new();
    while items.len() > 0
        invariant
            items@ == whole.take(items.len() as int),
            items.len() <= whole.len(),
            out.len() == whole.len() - items.len(),
            forall|k: int| 0 <= k < out.len() ==> out@[k] == whole[whole.len() - 1 - k],
        decreases items.len(),
    {
        match items.pop() {
            Some(item) => {
                out.push(item);
            },
            None => {},
        }
    }
    assert(out@ =~= whole.reverse());
    out
}

/// What was read from each of `pieces`, where every one could be read.
pub fn read_all<T>(pieces: Vec<Option<T>>) -> (r: Option<Vec<T>>)
    ensures
        match r {
            Some(values) => all_read(pieces@) && values@ == values_read(pieces@),
            None => !all_read(pieces@),
        },
{
    let ghost whole = pieces@;
    let mut rest = pieces;
    let mut back: Vec<T> = Vec::new();
    while rest.len() > 0
        invariant
            whole == pieces@,
            rest@ == whole.take(rest.len() as int),
            rest.len() <= whole.len(),
            back.len() == whole.len() - rest.len(),
            forall|k: int|
                0 <= k < back.len() ==> whole[whole.len() - 1 - k] == Some(#[trigger] back@[k]),
        decreases rest.len(),
    {
        let ghost at = rest.len() - 1;
        match rest.pop() {
            Some(Some(value)) => {
                back.push(value);
            },
            _ => {
                assert(whole[at].is_none());
                return None;
            },
        }
    }
    let values = turned(back);
    proof {
        assert forall|i: int| 0 <= i < whole.len() implies (#[trigger] whole[i]).is_some()
            && values@[i] == whole[i].unwrap() by {
            let k = whole.len() - 1 - i;
            assert(whole[whole.len() - 1 - k] == Some(back@[k]));
        }
        assert(values@ =~= values_read(whole));
    }
    Some(values)
}

/// Every item of a list as a piece that could be read.
pub fn as_read<T>(items: Vec<T>) -> (r: Vec<Option<T>>)
    ensures
        all_read(r@),
        values_read(r@) == items@,
{
    let ghost whole = items@;
    let mut items = items;
    let mut back: Vec<Option<T>> = Vec::new();
    while items.len() > 0
        invariant
            items@ == whole.take(items.len() as int),
            items.len() <= whole.len(),
            back.len() == whole.len() - items.len(),
            forall|k: int|
                0 <= k < back.len() ==> #[trigger] back@[k] == Some(whole[whole.len() - 1 - k]),
        decreases items.len(),
    {
        match items.pop() {
            Some(item) => {
                back.push(Some(item));
            },
            None => {},
        }
    }
    let pieces = turned(back);
    proof {
        assert forall|i: int| 0 <= i < whole.len() implies #[trigger] pieces@[i] == Some(
            whole[i],
        ) by {
            let k = whole.len() - 1 - i;
            assert(back@[k] == Some(whole[whole.len() - 1 - k]));
        }
        assert(values_read(pieces@) =~= whole);
    }
    pieces
}

/// Settles a setting that is a list. `opt` is what the command line gave,
/// `env` what reading each piece of the list that the environment holds
/// under the setting's name gave, `defval` the default.
pub fn get_vec<T>(opt: Option<Vec<T>>, env: Option<Vec<Option<T>>>, defval: Vec<T>) -> (r: Vec<T>)
    ensures
        r@ == list_given(list_view(opt), list_view(env), defval@),
{
    match opt {
        Some(list) => list,
        None => match env {
            Some(pieces) => match read_all(pieces) {
                Some(values) => values,
                None => defval,
            },
            None => defval,
        },
    }
}

/// The derivation path to scan.
pub fn scan_path(flag: Option<String>, env: Option<String>) -> (r: String)
    ensures
        r@ == match flag {
            Some(text) => text@,
            None => match env {
                Some(text) => text@,
                None => default_path(),
            },
        },
{
    get_value(flag, env, String::from_str("0/0"))
}

/// The number of indices to scan. What the environment holds counts only
/// where it is the decimal writing of a number of 32 bits.
pub fn scan_count(flag: Option<u32>, env: Option<&str>) -> (r: u32)
    ensures
        r == first_given(
            flag,
            match env {
                Some(text) => parse_u32_spec(text@),
                None => None,
            },
            DEFAULT_COUNT,
        ),
{
    let from_env = match env {
        Some(text) => parse_u32(text),
        None => None,
    };
    get_value(flag, from_env, DEFAULT_COUNT)
}

/// The names of the script types to scan; none stands for all of them.
/// The environment holds them as one text, with commas between them; every
/// piece of it is a name as it stands.
pub fn scan_types(flag: Option<Vec<String>>, env: Option<&str>) -> (r: Vec<String>)
    ensures
        r.deep_view() == match flag {
            Some(list) => list.deep_view(),
            None => match env {
                Some(text) => list_items(text@),
                None => Seq::<Seq<char>>::empty(),
            },
        },
{
    let pieces = match env {
        Some(text) => Some(as_read(parse_list(text))),
        None => None,
    };
    get_vec(flag, pieces, Vec::new())
}

/// What a run is to do.
#[derive(Debug, PartialEq, Eq)]
pub enum Mode {
    /// Ask the balance service about this one address and show its answer.
    /// Nothing is derived.
    Query(String),
    /// Scan from the extended public key with this text.
    Scan(String),
    /// Neither an address to ask about nor a key to scan from was given.
    Missing,
}

/// Settles what a run is to do. An address to ask about comes before
/// everything else; without one, the key that the command line gave is
/// scanned from, and without that, the key that the environment holds.
pub fn choose_mode(query: Option<String>, xpub: Option<String>, env_xpub: Option<String>) -> (r:
    Mode)
    ensures
        r == match query {
            Some(address) => Mode::Query(address),
            None => match xpub {
                Some(text) => Mode::Scan(text),
                None => match env_xpub {
                    Some(text) => Mode::Scan(text),
                    None => Mode::Missing,
                },
            },
        },
{
    match query {
        Some(address) => Mode::Query(address),
        None => match xpub {
            Some(text) => Mode::Scan(text),
            None => match env_xpub {
                Some(text) => Mode::Scan(text),
                None => Mode::Missing,
            },
        },
    }
}

} // verus!
