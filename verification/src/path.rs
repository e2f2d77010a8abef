//! Derivation paths and the arithmetic on their components.

use vstd::prelude::*;
use crate::error::ScanError;
use crate::text::{parse_u32_spec, split_spec, starts_with};

verus! {

/// The first raw value of a hardened component: two to the power 31.
pub const HARDENED_BASE: u32 = 0x8000_0000;

/// The largest index that a component can have: two to the power 31, less one.
pub const MAX_INDEX: u32 = 0x7fff_ffff;

/// One component of a derivation path: an index of 31 bits and a flag that
/// says whether the component is hardened. It is kept as the one number
/// that an extended key is serialised with, the index plus `HARDENED_BASE`
/// for a hardened component, so every value of the type is a component.
#[derive(Clone, Copy, Debug, PartialEq, Eq, Structural)]
pub struct ChildIndex {
    pub raw: u32,
}

impl ChildIndex {
    /// The index of the component, without its flag.
    pub open spec fn index(self) -> int {
        if self.raw >= HARDENED_BASE {
            self.raw - HARDENED_BASE
        } else {
            self.raw as int
        }
    }

    /// Whether the component is hardened.
    pub open spec fn is_hardened(self) -> bool {
        self.raw >= HARDENED_BASE
    }

    /// The component with the given index and flag.
    pub open spec fn of(index: int, hardened: bool) -> ChildIndex {
        ChildIndex {
            raw: if hardened {
                (index + HARDENED_BASE) as u32
            } else {
                index as u32
            },
        }
    }

    /// A component is made of its index and its flag, and of nothing else.
    pub proof fn lemma_parts(index: int, hardened: bool)
        requires
            0 <= index <= MAX_INDEX,
        ensures
            ChildIndex::of(index, hardened).index() == index,
            ChildIndex::of(index, hardened).is_hardened() == hardened,
    {
    }

    /// The component that a raw number stands for.
    pub fn from_raw(raw: u32) -> (r: ChildIndex)
        ensures
            r.raw == raw,
    {
        ChildIndex { raw }
    }

    /// The number that stands for the component.
    pub fn to_raw(self) -> (r: u32)
        ensures
            r == self.raw,
    {
        self.raw
    }

    /// The component that is not hardened and has the given index. An
    /// index above `MAX_INDEX` is refused.
    pub fn normal(index: u32) -> (r: Result<ChildIndex, ScanError>)
        ensures
            index <= MAX_INDEX ==> r == Ok::<ChildIndex, ScanError>(ChildIndex::of(index as int, false)),
            index > MAX_INDEX ==> r == Err::<ChildIndex, ScanError>(ScanError::IndexOverflow),
    {
        if index <= MAX_INDEX {
            Ok(ChildIndex { raw: index })
        } else {
            Err(ScanError::IndexOverflow)
        }
    }

    /// The hardened component with the given index. An index above
    /// `MAX_INDEX` is refused.
    pub fn hardened(index: u32) -> (r: Result<ChildIndex, ScanError>)
        ensures
            index <= MAX_INDEX ==> r == Ok::<ChildIndex, ScanError>(ChildIndex::of(index as int, true)),
            index > MAX_INDEX ==> r == Err::<ChildIndex, ScanError>(ScanError::IndexOverflow),
    {
        if index <= MAX_INDEX {
            Ok(ChildIndex { raw: index + HARDENED_BASE })
        } else {
            Err(ScanError::IndexOverflow)
        }
    }

    /// The index of the component, without its flag.
    pub fn get_index(self) -> (r: u32)
        ensures
            r == self.index(),
            r <= MAX_INDEX,
    {
        if self.raw >= HARDENED_BASE {
            self.raw - HARDENED_BASE
        } else {
            self.raw
        }
    }

    /// Whether the component is hardened.
    pub fn get_is_hardened(self) -> (r: bool)
        ensures
            r == self.is_hardened(),
    {
        self.raw >= HARDENED_BASE
    }

    /// The component that follows this one: the same flag, the next index.
    /// There is none after `MAX_INDEX`.
    pub fn increment(self) -> (r: Result<ChildIndex, ScanError>)
        ensures
            self.index() < MAX_INDEX ==> r == Ok::<ChildIndex, ScanError>(
                ChildIndex::of(self.index() + 1, self.is_hardened()),
            ),
            self.index() == MAX_INDEX ==> r == Err::<ChildIndex, ScanError>(
                ScanError::IndexOverflow,
            ),
            r.is_ok() ==> r.unwrap().index() == self.index() + 1 && r.unwrap().is_hardened()
                == self.is_hardened(),
    {
        if self.get_index() == MAX_INDEX {
            Err(ScanError::IndexOverflow)
        } else {
            Ok(ChildIndex { raw: self.raw + 1 })
        }
    }
}

/// A derivation path: the components of the way from a key down to one of
/// its descendants, the first step first. The path of a key to itself is
/// empty.
#[derive(Clone, Debug, PartialEq, Eq)]
pub struct DerivationPath {
    pub indices: Vec<ChildIndex>,
}

impl View for DerivationPath {
    type V = Seq<ChildIndex>;

    open spec fn view(&self) -> Seq<ChildIndex> {
        self.indices@
    }
}

/// The raw number of the component that one piece of a path's text
/// names: the decimal writing of an index that is `MAX_INDEX` at most, and
/// behind it `'` or `h` where the component is hardened. `None` where the
/// piece names no component.
pub open spec fn component_number(piece: Seq<char>) -> Option<u32> {
    let hardened = piece.len() > 0 && (piece.last() == '\'' || piece.last() == 'h');
    let digits = if hardened {
        piece.drop_last()
    } else {
        piece
    };
    match parse_u32_spec(digits) {
        Some(index) => if index > MAX_INDEX {
            None
        } else if hardened {
            Some((index + HARDENED_BASE) as u32)
        } else {
            Some(index)
        },
        None => None,
    }
}

/// Whether every one of `pieces` names a component.
pub open spec fn all_components(pieces: Seq<Seq<char>>) -> bool {
    forall|i: int| 0 <= i < pieces.len() ==> component_number(#[trigger] pieces[i]).is_some()
}

/// The components that the text of a derivation path names, each as its
/// raw number; `None` where the text is no path. The empty text, `m` and
/// `m/` are the empty path. Any other text is cut at every `/`, after `m/`
/// is taken off its front where it stands there, and every piece must name
/// a component.
pub open spec fn path_components(text: Seq<char>) -> Option<Seq<u32>> {
    if text.len() == 0 || text == seq!['m'] || text == seq!['m', '/'] {
        Some(Seq::empty())
    } else {
        let body = if starts_with(text, seq!['m', '/']) {
            text.skip(2)
        } else {
            text
        };
        let pieces = split_spec(body, '/');
        if all_components(pieces) {
            Some(pieces.map_values(|piece: Seq<char>| component_number(piece).unwrap()))
        } else {
            None
        }
    }
}

/// `DerivationPath::from_str` of the `bitcoin` crate, its result handed out
/// through `DerivationPath::to_u32_vec`. The contract claims that it reads
/// a text as `path_components` says: that it takes the empty text, `m` and
/// `m/` for the empty path, takes `m/` off the front of any other text and
/// cuts the rest at every `/`; that it reads each piece through
/// `ChildNumber::from_str`, which takes a last character `'` or `h` for the
/// mark of a hardened component and reads what stands before it as the
/// standard library reads a `u32`, an optional `+` and then digits only,
/// and refuses an index above `MAX_INDEX`; and that it refuses the text
/// where it refuses one piece.
#[verifier::external_body]
fn parse_components(text: &str) -> (r: Option<Vec<u32>>)
    ensures
        match r {
            Some(raw) => path_components(text@) == Some(raw@),
            None => path_components(text@).is_none(),
        },
{
    match text.parse::<bitcoin::bip32::DerivationPath>() {
        Ok(path) => Some(path.to_u32_vec()),
        Err(_) => None,
    }
}

/// The components that the raw numbers `raw` stand for.
pub open spec fn components_of(raw: Seq<u32>) -> Seq<ChildIndex> {
    raw.map_values(|number: u32| ChildIndex { raw: number })
}

/// What splitting the last component off `path` gives: the path before it,
/// and the component. An empty path has no last component.
pub open spec fn split_last_spec(path: Seq<ChildIndex>) -> Result<
    (Seq<ChildIndex>, ChildIndex),
    ScanError,
> {
    if path.len() == 0 {
        Err(ScanError::EmptyPath)
    } else {
        Ok((path.drop_last(), path.last()))
    }
}

/// The path that goes on from `path` by the component `cn`.
pub open spec fn child_spec(path: Seq<ChildIndex>, cn: ChildIndex) -> Seq<ChildIndex> {
    path.push(cn)
}

/// A path that has a last component is put together again from the two
/// parts that splitting it gives: the path before the last component,
/// gone on from by that component, is the path itself.
pub proof fn lemma_split_last_round_trip(path: Seq<ChildIndex>)
    requires
        path.len() > 0,
    ensures
        split_last_spec(path).is_ok(),
        child_spec(split_last_spec(path).unwrap().0, split_last_spec(path).unwrap().1) == path,
{
}

/// Going on from a path by a component and splitting the last component
/// off again gives back the path and the component.
pub proof fn lemma_child_split_last(path: Seq<ChildIndex>, cn: ChildIndex)
    ensures
        split_last_spec(child_spec(path, cn)) == Ok::<(Seq<ChildIndex>, ChildIndex), ScanError>(
            (path, cn),
        ),
{
    assert(path.push(cn).drop_last() == path);
}

impl DerivationPath {
    /// The path with the given components.
    pub fn new(indices: Vec<ChildIndex>) -> (r: DerivationPath)
        ensures
            r@ == indices@,
    {
        DerivationPath { indices }
    }

    /// The path whose components the raw numbers `raw` stand for.
    pub fn from_raw(raw: &Vec<u32>) -> (r: DerivationPath)
        ensures
            r@ == components_of(raw@),
    {
        let mut indices: Vec<ChildIndex> = Vec::new();
        let mut i: usize = 0;
        while i < raw.len()
            invariant
                i <= raw.len(),
                indices@ == components_of(raw@.take(i as int)),
            decreases raw.len() - i,
        {
            indices.push(ChildIndex { raw: raw[i] });
            i = i + 1;
        }
        DerivationPath { indices }
    }

    /// Reads a path from its text, as the `bitcoin` crate reads it: the
    /// components are divided by `/`, a hardened one has `'` or `h` behind
    /// its index, and `m` may stand in front for the key that the path
    /// starts from. Hardened components are read here; it is deriving
    /// through one that fails.
    pub fn parse(text: &str) -> (r: Result<DerivationPath, ScanError>)
        ensures
            match path_components(text@) {
                Some(raw) => r.is_ok() && r.unwrap()@ == components_of(raw),
                None => r == Err::<DerivationPath, ScanError>(ScanError::MalformedPath),
            },
    {
        match parse_components(text) {
            Some(raw) => Ok(DerivationPath::from_raw(&raw)),
            None => Err(ScanError::MalformedPath),
        }
    }

    /// The number of components.
    pub fn len(&self) -> (r: usize)
        ensures
            r == self@.len(),
    {
        self.indices.len()
    }

    /// Whether the path has no component.
    pub fn is_empty(&self) -> (r: bool)
        ensures
            r == (self@.len() == 0),
    {
        self.indices.len() == 0
    }

    /// The first `n` components of the path.
    fn prefix(&self, n: usize) -> (r: DerivationPath)
        requires
            n <= self@.len(),
        ensures
            r@ == self@.take(n as int),
    {
        let mut indices: Vec<ChildIndex> = Vec::new();
        let mut i: usize = 0;
        while i < n
            invariant
                i <= n <= self.indices.len(),
                indices@ == self@.take(i as int),
            decreases n - i,
        {
            indices.push(self.indices[i]);
            i = i + 1;
        }
        DerivationPath { indices }
    }

    /// The path that goes on from this one by the component `cn`.
    pub fn child(&self, cn: ChildIndex) -> (r: DerivationPath)
        ensures
            r@ == child_spec(self@, cn),
    {
        let mut path = self.prefix(self.indices.len());
        path.indices.push(cn);
        path
    }

    /// Splits the last component off: the path before it, and the
    /// component.
    pub fn split_last(&self) -> (r: Result<(DerivationPath, ChildIndex), ScanError>)
        ensures
            match split_last_spec(self@) {
                Ok((parent, last)) => r.is_ok() && r.unwrap().0@ == parent && r.unwrap().1 == last,
                Err(e) => r == Err::<(DerivationPath, ChildIndex), ScanError>(e),
            },
    {
        let n = self.indices.len();
        if n == 0 {
            Err(ScanError::EmptyPath)
        } else {
            Ok((self.prefix(n - 1), self.indices[n - 1]))
        }
    }
}

/// The path without its last component. An empty path has none to leave
/// out.
pub fn get_path_except_last(path: &DerivationPath) -> (r: Result<DerivationPath, ScanError>)
    ensures
        match split_last_spec(path@) {
            Ok((parent, last)) => r.is_ok() && r.unwrap()@ == parent,
            Err(e) => r == Err::<DerivationPath, ScanError>(e),
        },
{
    let n = path.indices.len();
    if n == 0 {
        Err(ScanError::EmptyPath)
    } else {
        Ok(path.prefix(n - 1))
    }
}

} // verus!
