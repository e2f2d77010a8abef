//! The scan: a run of child keys, and their addresses kind by kind.

use vstd::prelude::*;
use crate::address::{address_of, encode_address, Network};
use crate::error::{Failure, ScanError};
use crate::key::{
    derive_spec,
    key_view,
    lemma_derive_child_of_path,
    xpub_bytes,
    ExtendedPublicKey,
};
use crate::path::{
    components_of,
    path_components,
    split_last_spec,
    ChildIndex,
    DerivationPath,
    MAX_INDEX,
};
use crate::script_type::{
    parse_enum_values,
    selected_types,
    types_named,
    types_to_scan,
    ScriptPubKeyType,
};

verus! {

/// A child key together with the component that it was derived under.
#[derive(Clone, Copy, Debug, PartialEq, Eq)]
pub struct DerivedKey {
    pub index: ChildIndex,
    pub key: ExtendedPublicKey,
}

/// One address that a scan came to: its kind, the component that its key
/// was derived under, and its text.
#[derive(Clone, Debug, PartialEq, Eq)]
pub struct ScanEntry {
    pub kind: ScriptPubKeyType,
    pub index: ChildIndex,
    pub address: String,
}

/// What to scan: the key to start from, the path to the first child, the
/// number of children, and the kinds of address to give for each. The last
/// component of the path is the one that is counted up; no kind stands for
/// every kind.
#[derive(Clone, Debug, PartialEq, Eq)]
pub struct ScanRequest {
    pub key: ExtendedPublicKey,
    pub path: DerivationPath,
    pub count: u32,
    pub types: Vec<ScriptPubKeyType>,
}

impl View for DerivedKey {
    type V = (ChildIndex, Seq<u8>);

    open spec fn view(&self) -> (ChildIndex, Seq<u8>) {
        (self.index, self.key@)
    }
}

impl View for ScanEntry {
    type V = (ScriptPubKeyType, ChildIndex, Seq<char>);

    open spec fn view(&self) -> (ScriptPubKeyType, ChildIndex, Seq<char>) {
        (self.kind, self.index, self.address@)
    }
}

/// The keys of a list, each with its component.
pub open spec fn keys_view(keys: Seq<DerivedKey>) -> Seq<(ChildIndex, Seq<u8>)> {
    keys.map_values(|k: DerivedKey| k@)
}

/// The entries of a list, each as its kind, component and text.
pub open spec fn entries_view(entries: Seq<ScanEntry>) -> Seq<
    (ScriptPubKeyType, ChildIndex, Seq<char>),
> {
    entries.map_values(|e: ScanEntry| e@)
}

/// The keys that a run of derivations gave, or its failure.
pub open spec fn keys_result_view(r: Result<Vec<DerivedKey>, ScanError>) -> Result<
    Seq<(ChildIndex, Seq<u8>)>,
    ScanError,
> {
    match r {
        Ok(keys) => Ok(keys_view(keys@)),
        Err(e) => Err(e),
    }
}

/// The entries that a scan gave, or its failure.
pub open spec fn entries_result_view(r: Result<Vec<ScanEntry>, ScanError>) -> Result<
    Seq<(ScriptPubKeyType, ChildIndex, Seq<char>)>,
    ScanError,
> {
    match r {
        Ok(entries) => Ok(entries_view(entries@)),
        Err(e) => Err(e),
    }
}

/// `done`, followed by what `rest` gives; the failure of `rest` where it
/// fails.
pub open spec fn after<T>(done: Seq<T>, rest: Result<Seq<T>, ScanError>) -> Result<
    Seq<T>,
    ScanError,
> {
    match rest {
        Ok(items) => Ok(done + items),
        Err(e) => Err(e),
    }
}

/// The component that follows `cn`, where there is one.
pub open spec fn next_index(cn: ChildIndex) -> ChildIndex {
    ChildIndex { raw: (cn.raw + 1) as u32 }
}

/// The children of the key at the end of `parent`, seen from `key`, under
/// `count` components in a row, of which `start` is the first. They are
/// derived one after the other; the first failure ends the run. After each
/// child but the last the component is counted up, which fails after the
/// largest index.
pub open spec fn derive_range_spec(
    key: Seq<u8>,
    parent: Seq<ChildIndex>,
    start: ChildIndex,
    count: nat,
) -> Result<Seq<(ChildIndex, Seq<u8>)>, ScanError>
    decreases count,
{
    if count == 0 {
        Ok(Seq::empty())
    } else {
        match derive_spec(key, parent.push(start)) {
            Err(e) => Err(e),
            Ok(child) => if count == 1 {
                Ok(seq![(start, child)])
            } else if start.index() == MAX_INDEX {
                Err(ScanError::IndexOverflow)
            } else {
                after(
                    seq![(start, child)],
                    derive_range_spec(key, parent, next_index(start), (count - 1) as nat),
                )
            },
        }
    }
}

/// The addresses of the kind `kind` for `keys`, key by key. The first key
/// that has no address ends the list with that failure.
pub open spec fn kind_entries(
    kind: ScriptPubKeyType,
    keys: Seq<(ChildIndex, Seq<u8>)>,
    network: Network,
) -> Result<Seq<(ScriptPubKeyType, ChildIndex, Seq<char>)>, ScanError>
    decreases keys.len(),
{
    if keys.len() == 0 {
        Ok(Seq::empty())
    } else {
        match kind_entries(kind, keys.drop_last(), network) {
            Err(e) => Err(e),
            Ok(before) => match address_of(kind, keys.last().1, network) {
                Ok(address) => Ok(before.push((kind, keys.last().0, address))),
                Err(e) => Err(e),
            },
        }
    }
}

/// The addresses of the kinds `kinds` for `keys`: all those of the first
/// kind, key by key, then all those of the second, and so on.
pub open spec fn all_entries(
    kinds: Seq<ScriptPubKeyType>,
    keys: Seq<(ChildIndex, Seq<u8>)>,
    network: Network,
) -> Result<Seq<(ScriptPubKeyType, ChildIndex, Seq<char>)>, ScanError>
    decreases kinds.len(),
{
    if kinds.len() == 0 {
        Ok(Seq::empty())
    } else {
        match all_entries(kinds.drop_last(), keys, network) {
            Err(e) => Err(e),
            Ok(before) => after(before, kind_entries(kinds.last(), keys, network)),
        }
    }
}

/// What a scan gives. The path must have a last component; the children
/// are derived before any address is encoded; the kinds are gone through
/// in the order of a scan, and only those that were asked for, or all of
/// them where none was.
pub open spec fn scan_spec(
    key: Seq<u8>,
    path: Seq<ChildIndex>,
    count: nat,
    requested: Seq<ScriptPubKeyType>,
    network: Network,
) -> Result<Seq<(ScriptPubKeyType, ChildIndex, Seq<char>)>, ScanError> {
    match split_last_spec(path) {
        Err(e) => Err(e),
        Ok((parent, start)) => match derive_range_spec(key, parent, start, count) {
            Err(e) => Err(e),
            Ok(keys) => all_entries(selected_types(requested), keys, network),
        },
    }
}

/// Where the addresses of a kind fail for the first keys of a list, they
/// fail in the same way for the whole list.
pub proof fn lemma_kind_entries_fail_on(
    kind: ScriptPubKeyType,
    keys: Seq<(ChildIndex, Seq<u8>)>,
    n: int,
    network: Network,
    e: ScanError,
)
    requires
        0 <= n <= keys.len(),
        kind_entries(kind, keys.take(n), network) == Err::<
            Seq<(ScriptPubKeyType, ChildIndex, Seq<char>)>,
            ScanError,
        >(e),
    ensures
        kind_entries(kind, keys, network) == Err::<
            Seq<(ScriptPubKeyType, ChildIndex, Seq<char>)>,
            ScanError,
        >(e),
    decreases keys.len() - n,
{
    if n == keys.len() {
        assert(keys.take(n) == keys);
    } else {
        assert(keys.take(n + 1).drop_last() == keys.take(n));
        lemma_kind_entries_fail_on(kind, keys, n + 1, network, e);
    }
}

/// Where the addresses of the first kinds of a list fail, those of the
/// whole list fail in the same way.
pub proof fn lemma_all_entries_fail_on(
    kinds: Seq<ScriptPubKeyType>,
    n: int,
    keys: Seq<(ChildIndex, Seq<u8>)>,
    network: Network,
    e: ScanError,
)
    requires
        0 <= n <= kinds.len(),
        all_entries(kinds.take(n), keys, network) == Err::<
            Seq<(ScriptPubKeyType, ChildIndex, Seq<char>)>,
            ScanError,
        >(e),
    ensures
        all_entries(kinds, keys, network) == Err::<
            Seq<(ScriptPubKeyType, ChildIndex, Seq<char>)>,
            ScanError,
        >(e),
    decreases kinds.len() - n,
{
    if n == kinds.len() {
        assert(kinds.take(n) == kinds);
    } else {
        assert(kinds.take(n + 1).drop_last() == kinds.take(n));
        lemma_all_entries_fail_on(kinds, n + 1, keys, network, e);
    }
}

/// Derives the children of the key at the end of `parent` under `count`
/// components in a row, beginning with `start`.
pub fn derive_range(
    key: &ExtendedPublicKey,
    parent: &DerivationPath,
    start: ChildIndex,
    count: u32,
) -> (r: Result<Vec<DerivedKey>, ScanError>)
    ensures
        keys_result_view(r) == derive_range_spec(key@, parent@, start, count as nat),
{
    let mut keys: Vec<DerivedKey> = Vec::new();
    if count == 0 {
        assert(keys_view(keys@) == Seq::<(ChildIndex, Seq<u8>)>::empty());
        return Ok(keys);
    }
    proof {
        lemma_derive_child_of_path(key@, parent@, start);
    }
    let parent_key = match key.derive(parent) {
        Ok(found) => found,
        Err(e) => {
            return Err(e);
        },
    };
    let mut cn = start;
    let mut left: u32 = count;
    assert(derive_range_spec(key@, parent@, start, count as nat) == after(
        keys_view(keys@),
        derive_range_spec(key@, parent@, cn, left as nat),
    ));
    loop
        invariant
            left >= 1,
            key_view(Ok(parent_key)) == derive_spec(key@, parent@),
            derive_range_spec(key@, parent@, start, count as nat) == after(
                keys_view(keys@),
                derive_range_spec(key@, parent@, cn, left as nat),
            ),
        decreases left,
    {
        let ghost done = keys_view(keys@);
        proof {
            lemma_derive_child_of_path(key@, parent@, cn);
        }
        let child = match parent_key.derive_child(cn) {
            Ok(found) => found,
            Err(e) => {
                return Err(e);
            },
        };
        keys.push(DerivedKey { index: cn, key: child });
        proof {
            assert(keys_view(keys@) == done.push((cn, child@)));
            assert(done + seq![(cn, child@)] == done.push((cn, child@)));
        }
        if left == 1 {
            return Ok(keys);
        }
        let next = match cn.increment() {
            Ok(found) => found,
            Err(e) => {
                return Err(e);
            },
        };
        proof {
            let rest = derive_range_spec(key@, parent@, next, (left - 1) as nat);
            if rest.is_ok() {
                assert(done + (seq![(cn, child@)] + rest.unwrap()) == done.push((cn, child@))
                    + rest.unwrap());
            }
        }
        cn = next;
        left = left - 1;
    }
}

/// Appends to `out` the addresses of the kind `kind` for `keys`, key by
/// key.
fn push_kind_entries(
    kind: ScriptPubKeyType,
    keys: &Vec<DerivedKey>,
    network: Network,
    out: &mut Vec<ScanEntry>,
) -> (r: Result<(), ScanError>)
    ensures
        match kind_entries(kind, keys_view(keys@), network) {
            Ok(more) => r.is_ok() && entries_view(final(out)@) == entries_view(old(out)@) + more,
            Err(e) => r == Err::<(), ScanError>(e),
        },
{
    let ghost all = keys_view(keys@);
    let ghost before = entries_view(out@);
    let mut j: usize = 0;
    while j < keys.len()
        invariant
            j <= keys.len(),
            all == keys_view(keys@),
            before == entries_view(old(out)@),
            kind_entries(kind, all.take(j as int), network).is_ok(),
            entries_view(out@) == before + kind_entries(
                kind,
                all.take(j as int),
                network,
            ).unwrap(),
        decreases keys.len() - j,
    {
        let ghost done = kind_entries(kind, all.take(j as int), network).unwrap();
        proof {
            assert(all.take(j + 1).drop_last() == all.take(j as int));
        }
        match encode_address(kind, &keys[j].key, network) {
            Ok(address) => {
                out.push(ScanEntry { kind, index: keys[j].index, address });
                proof {
                    let entry = (kind, keys@[j as int].index, address@);
                    assert(before + done.push(entry) == (before + done).push(entry));
                }
            },
            Err(e) => {
                proof {
                    lemma_kind_entries_fail_on(kind, all, j + 1, network, e);
                }
                return Err(e);
            },
        }
        j = j + 1;
    }
    assert(all.take(keys.len() as int) == all);
    Ok(())
}

/// The addresses of the kinds `kinds` for `keys`: kind after kind, and key
/// after key within a kind.
pub fn encode_entries(kinds: &Vec<ScriptPubKeyType>, keys: &Vec<DerivedKey>, network: Network) -> (r:
    Result<Vec<ScanEntry>, ScanError>)
    ensures
        entries_result_view(r) == all_entries(kinds@, keys_view(keys@), network),
{
    let mut out: Vec<ScanEntry> = Vec::new();
    let mut i: usize = 0;
    assert(entries_view(out@) == Seq::<(ScriptPubKeyType, ChildIndex, Seq<char>)>::empty());
    while i < kinds.len()
        invariant
            i <= kinds.len(),
            all_entries(kinds@.take(i as int), keys_view(keys@), network) == Ok::<
                Seq<(ScriptPubKeyType, ChildIndex, Seq<char>)>,
                ScanError,
            >(entries_view(out@)),
        decreases kinds.len() - i,
    {
        proof {
            assert(kinds@.take(i + 1).drop_last() == kinds@.take(i as int));
        }
        match push_kind_entries(kinds[i], keys, network, &mut out) {
            Ok(()) => {},
            Err(e) => {
                proof {
                    lemma_all_entries_fail_on(kinds@, i + 1, keys_view(keys@), network, e);
                }
                return Err(e);
            },
        }
        i = i + 1;
    }
    assert(kinds@.take(kinds.len() as int) == kinds@);
    Ok(out)
}

/// Scans `count` children of `key`, beginning with the one at the end of
/// `path`, and gives their addresses of the kinds asked for.
pub fn scan_addresses(
    key: &ExtendedPublicKey,
    path: &DerivationPath,
    count: u32,
    requested: &Vec<ScriptPubKeyType>,
    network: Network,
) -> (r: Result<Vec<ScanEntry>, ScanError>)
    ensures
        entries_result_view(r) == scan_spec(key@, path@, count as nat, requested@, network),
{
    let (parent, start) = match path.split_last() {
        Ok(parts) => parts,
        Err(e) => {
            return Err(e);
        },
    };
    let keys = match derive_range(key, &parent, start, count) {
        Ok(found) => found,
        Err(e) => {
            return Err(e);
        },
    };
    let kinds = types_to_scan(requested);
    encode_entries(&kinds, &keys, network)
}

/// What reading a request gives: the key, the path, the kinds and the
/// count. The key is read first, then the path, which must have a last
/// component, then the kinds.
pub open spec fn request_spec(
    xpub: Seq<char>,
    path: Seq<char>,
    types: Seq<Seq<char>>,
    count: u32,
) -> Result<(Seq<u8>, Seq<ChildIndex>, u32, Seq<ScriptPubKeyType>), Failure> {
    match xpub_bytes(xpub) {
        None => Err(Failure::InvalidXpub),
        Some(key) => match path_components(path) {
            None => Err(Failure::MalformedPath),
            Some(raw) => if raw.len() == 0 {
                Err(Failure::EmptyPath)
            } else {
                match types_named(types) {
                    Err(e) => Err(e),
                    Ok(kinds) => Ok((key, components_of(raw), count, kinds)),
                }
            },
        },
    }
}

impl View for ScanRequest {
    type V = (Seq<u8>, Seq<ChildIndex>, u32, Seq<ScriptPubKeyType>);

    open spec fn view(&self) -> (Seq<u8>, Seq<ChildIndex>, u32, Seq<ScriptPubKeyType>) {
        (self.key@, self.path@, self.count, self.types@)
    }
}

/// A request that was read, or the failure.
pub open spec fn request_view(r: Result<ScanRequest, ScanError>) -> Result<
    (Seq<u8>, Seq<ChildIndex>, u32, Seq<ScriptPubKeyType>),
    Failure,
> {
    match r {
        Ok(request) => Ok(request@),
        Err(e) => Err(e@),
    }
}

impl ScanRequest {
    /// Reads a request from the texts of its parts.
    pub fn new(xpub: &str, path: &str, types: Vec<String>, count: u32) -> (r: Result<
        ScanRequest,
        ScanError,
    >)
        ensures
            request_view(r) == request_spec(xpub@, path@, types.deep_view(), count),
    {
        let key = match ExtendedPublicKey::parse(xpub) {
            Ok(found) => found,
            Err(e) => {
                return Err(e);
            },
        };
        let path = match DerivationPath::parse(path) {
            Ok(found) => found,
            Err(e) => {
                return Err(e);
            },
        };
        if path.is_empty() {
            return Err(ScanError::EmptyPath);
        }
        let kinds = match parse_enum_values(types) {
            Ok(found) => found,
            Err(e) => {
                return Err(e);
            },
        };
        Ok(ScanRequest { key, path, count, types: kinds })
    }

    /// Scans what the request asks for, for the main network.
    pub fn scan(&self) -> (r: Result<Vec<ScanEntry>, ScanError>)
        ensures
            entries_result_view(r) == scan_spec(
                self.key@,
                self.path@,
                self.count as nat,
                self.types@,
                Network::Bitcoin,
            ),
    {
        scan_addresses(&self.key, &self.path, self.count, &self.types, Network::Bitcoin)
    }
}

} // verus!
