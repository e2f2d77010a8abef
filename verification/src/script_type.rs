//! The kinds of script that an address can pay to.

use vstd::prelude::*;
use crate::error::{failure_view, Failure, ScanError};
use crate::text::same_text;

verus! {

/// The kind of script that an address pays to.
#[derive(Clone, Copy, Debug, PartialEq, Eq, Structural)]
pub enum ScriptPubKeyType {
    /// To the hash of a public key: the addresses that begin with `1`.
    P2PKH,
    /// To a script hash that wraps a witness program for the hash of a
    /// public key: the addresses that begin with `3`.
    P2SHWPKH,
    /// To a witness program, version 0, for the hash of a public key: the
    /// addresses that begin with `bc1q`.
    P2WPKH,
    /// To a witness program, version 1, for a Taproot output key: the
    /// addresses that begin with `bc1p`.
    P2TR,
}

/// The upper-case writing of a text, as Unicode defines it.
pub uninterp spec fn uppercased(text: Seq<char>) -> Seq<char>;

/// `str::to_uppercase` of the standard library. The contract gives its
/// result the name `uppercased` and claims nothing else of it.
#[verifier::external_body]
fn to_uppercase(text: &str) -> (r: String)
    ensures
        r@ == uppercased(text@),
{
    text.to_uppercase()
}

/// The kind that has the name `name`, if one has.
pub open spec fn type_named(name: Seq<char>) -> Option<ScriptPubKeyType> {
    if name == "P2PKH"@ {
        Some(ScriptPubKeyType::P2PKH)
    } else if name == "P2SHWPKH"@ {
        Some(ScriptPubKeyType::P2SHWPKH)
    } else if name == "P2WPKH"@ {
        Some(ScriptPubKeyType::P2WPKH)
    } else if name == "P2TR"@ {
        Some(ScriptPubKeyType::P2TR)
    } else {
        None
    }
}

/// The kind that `token` names: the kind of that very name, and for any
/// other text the kind that it names when it is written in upper case.
pub open spec fn type_of_token(token: Seq<char>) -> Option<ScriptPubKeyType> {
    match type_named(token) {
        Some(kind) => Some(kind),
        None => type_named(uppercased(token)),
    }
}

/// Whether every one of `values` names a kind.
pub open spec fn all_name_types(values: Seq<Seq<char>>) -> bool {
    forall|i: int| 0 <= i < values.len() ==> type_of_token(#[trigger] values[i]).is_some()
}

/// The kinds that `values` name, one for each, in their order. The first
/// one that names no kind is the failure, which holds it.
pub open spec fn types_named(values: Seq<Seq<char>>) -> Result<Seq<ScriptPubKeyType>, Failure>
    decreases values.len(),
{
    if values.len() == 0 {
        Ok(Seq::empty())
    } else {
        match types_named(values.drop_last()) {
            Err(e) => Err(e),
            Ok(kinds) => match type_of_token(values.last()) {
                Some(kind) => Ok(kinds.push(kind)),
                None => Err(Failure::InvalidAddressType(values.last())),
            },
        }
    }
}

/// The kinds that were read, or the failure.
pub open spec fn types_view(r: Result<Vec<ScriptPubKeyType>, ScanError>) -> Result<
    Seq<ScriptPubKeyType>,
    Failure,
> {
    match r {
        Ok(kinds) => Ok(kinds@),
        Err(e) => Err(e@),
    }
}

/// Reading a list of names succeeds exactly where every name names a
/// kind, and gives the kind of each name at the name's place. Where it
/// fails, the failure holds the first name that names no kind.
pub proof fn lemma_types_named(values: Seq<Seq<char>>)
    ensures
        types_named(values).is_ok() <==> all_name_types(values),
        match types_named(values) {
            Ok(kinds) => kinds.len() == values.len() && forall|i: int|
                0 <= i < values.len() ==> type_of_token(values[i]) == Some(#[trigger] kinds[i]),
            Err(e) => exists|i: int|
                0 <= i < values.len() && e == Failure::InvalidAddressType(#[trigger] values[i])
                    && type_of_token(values[i]).is_none() && forall|k: int|
                    0 <= k < i ==> type_of_token(#[trigger] values[k]).is_some(),
        },
    decreases values.len(),
{
    if values.len() > 0 {
        let front = values.drop_last();
        let n = values.len() - 1;
        lemma_types_named(front);
        assert forall|k: int| 0 <= k < n implies front[k] == values[k] by {}
        match types_named(front) {
            Ok(kinds) => {
                if type_of_token(values.last()).is_none() {
                    assert(values[n] == values.last());
                    assert forall|k: int| 0 <= k < n implies type_of_token(
                        #[trigger] values[k],
                    ).is_some() by {
                        assert(type_of_token(front[k]).is_some());
                    }
                } else {
                    assert forall|k: int| 0 <= k < values.len() implies type_of_token(
                        #[trigger] values[k],
                    ).is_some() by {
                        if k < n {
                            assert(type_of_token(front[k]).is_some());
                        }
                    }
                }
            },
            Err(e) => {
                let i = choose|i: int|
                    0 <= i < front.len() && e == Failure::InvalidAddressType(#[trigger] front[i])
                        && type_of_token(front[i]).is_none() && forall|k: int|
                        0 <= k < i ==> type_of_token(#[trigger] front[k]).is_some();
                assert(values[i] == front[i]);
                assert forall|k: int| 0 <= k < i implies type_of_token(
                    #[trigger] values[k],
                ).is_some() by {
                    assert(type_of_token(front[k]).is_some());
                }
            },
        }
    }
}

/// Where the first names of a list cannot be read, the whole list cannot,
/// for the same name.
pub proof fn lemma_types_named_fail_on(values: Seq<Seq<char>>, n: int, e: Failure)
    requires
        0 <= n <= values.len(),
        types_named(values.take(n)) == Err::<Seq<ScriptPubKeyType>, Failure>(e),
    ensures
        types_named(values) == Err::<Seq<ScriptPubKeyType>, Failure>(e),
    decreases values.len() - n,
{
    if n == values.len() {
        assert(values.take(n) == values);
    } else {
        assert(values.take(n + 1).drop_last() == values.take(n));
        lemma_types_named_fail_on(values, n + 1, e);
    }
}

/// The kinds in the order in which a scan goes through them.
pub open spec fn scan_order() -> Seq<ScriptPubKeyType> {
    seq![
        ScriptPubKeyType::P2PKH,
        ScriptPubKeyType::P2SHWPKH,
        ScriptPubKeyType::P2WPKH,
        ScriptPubKeyType::P2TR,
    ]
}

/// Whether a scan that was asked for the kinds `requested` goes through
/// `kind`: it does where the kind was asked for, and where none was.
pub open spec fn is_selected(requested: Seq<ScriptPubKeyType>, kind: ScriptPubKeyType) -> bool {
    requested.len() == 0 || requested.contains(kind)
}

/// The kinds that a scan goes through, in its order, when it was asked for
/// the kinds `requested`.
pub open spec fn selected_types(requested: Seq<ScriptPubKeyType>) -> Seq<ScriptPubKeyType> {
    scan_order().filter(|kind: ScriptPubKeyType| is_selected(requested, kind))
}

impl ScriptPubKeyType {
    /// The kind that has exactly the name `name`.
    pub fn from_name(name: &str) -> (r: Option<ScriptPubKeyType>)
        ensures
            r == type_named(name@),
    {
        if same_text(name, "P2PKH") {
            Some(ScriptPubKeyType::P2PKH)
        } else if same_text(name, "P2SHWPKH") {
            Some(ScriptPubKeyType::P2SHWPKH)
        } else if same_text(name, "P2WPKH") {
            Some(ScriptPubKeyType::P2WPKH)
        } else if same_text(name, "P2TR") {
            Some(ScriptPubKeyType::P2TR)
        } else {
            None
        }
    }

    /// The kind that `token` names, in whatever case it is written.
    pub fn parse(token: &str) -> (r: Result<ScriptPubKeyType, ScanError>)
        ensures
            failure_view(r) == match type_of_token(token@) {
                Some(kind) => Ok::<ScriptPubKeyType, Failure>(kind),
                None => Err(Failure::InvalidAddressType(token@)),
            },
    {
        match ScriptPubKeyType::from_name(token) {
            Some(kind) => Ok(kind),
            None => {
                let upper = to_uppercase(token);
                match ScriptPubKeyType::from_name(upper.as_str()) {
                    Some(kind) => Ok(kind),
                    None => Err(ScanError::InvalidAddressType(token.to_owned())),
                }
            },
        }
    }
}

/// Reads the kinds that a list of names asks for. The list is read in
/// order and given up at the first name that names no kind.
pub fn parse_enum_values(values: Vec<String>) -> (r: Result<Vec<ScriptPubKeyType>, ScanError>)
    ensures
        types_view(r) == types_named(values.deep_view()),
{
    let ghost names = values.deep_view();
    let mut enums: Vec<ScriptPubKeyType> = Vec::new();
    let mut i: usize = 0;
    assert(names.take(0) == Seq::<Seq<char>>::empty());
    while i < values.len()
        invariant
            i <= values.len(),
            names == values.deep_view(),
            types_named(names.take(i as int)) == Ok::<Seq<ScriptPubKeyType>, Failure>(enums@),
        decreases values.len() - i,
    {
        proof {
            assert(names.take(i + 1).drop_last() == names.take(i as int));
            assert(names.take(i + 1).last() == values[i as int]@);
        }
        match ScriptPubKeyType::parse(values[i].as_str()) {
            Ok(kind) => {
                enums.push(kind);
            },
            Err(e) => {
                proof {
                    lemma_types_named_fail_on(names, i + 1, e@);
                }
                return Err(e);
            },
        }
        i = i + 1;
    }
    assert(names.take(values.len() as int) == names);
    Ok(enums)
}

/// Whether `requested` holds `kind`.
fn holds(requested: &Vec<ScriptPubKeyType>, kind: ScriptPubKeyType) -> (r: bool)
    ensures
        r == requested@.contains(kind),
{
    let mut i: usize = 0;
    while i < requested.len()
        invariant
            i <= requested.len(),
            forall|k: int| 0 <= k < i ==> requested@[k] != kind,
        decreases requested.len() - i,
    {
        if requested[i] == kind {
            return true;
        }
        i = i + 1;
    }
    false
}

/// The kinds that a scan goes through, in its order, when it was asked for
/// the kinds `requested`: all four where none was asked for.
pub fn types_to_scan(requested: &Vec<ScriptPubKeyType>) -> (r: Vec<ScriptPubKeyType>)
    ensures
        r@ == selected_types(requested@),
{
    let all = requested.len() == 0;
    let mut out: Vec<ScriptPubKeyType> = Vec::new();
    if all || holds(requested, ScriptPubKeyType::P2PKH) {
        out.push(ScriptPubKeyType::P2PKH);
    }
    if all || holds(requested, ScriptPubKeyType::P2SHWPKH) {
        out.push(ScriptPubKeyType::P2SHWPKH);
    }
    if all || holds(requested, ScriptPubKeyType::P2WPKH) {
        out.push(ScriptPubKeyType::P2WPKH);
    }
    if all || holds(requested, ScriptPubKeyType::P2TR) {
        out.push(ScriptPubKeyType::P2TR);
    }
    proof {
        reveal_with_fuel(Seq::filter, 6);
    }
    out
}

/// A scan that was asked for no kind goes through all four kinds.
pub proof fn lemma_no_kind_selects_all(requested: Seq<ScriptPubKeyType>)
    requires
        requested.len() == 0,
    ensures
        selected_types(requested) == scan_order(),
{
    reveal_with_fuel(Seq::filter, 6);
}

} // verus!
