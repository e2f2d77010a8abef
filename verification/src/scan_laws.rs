//! What holds of every scan: which addresses it gives, where each of them
//! stands, and when it succeeds.

use vstd::prelude::*;
use crate::address::{address_of, Network};
use crate::error::ScanError;
use crate::key::{derive_spec, ExtendedPublicKey};
use crate::path::{ChildIndex, DerivationPath, MAX_INDEX};
use crate::scan::{
    all_entries,
    derive_range_spec,
    entries_result_view,
    kind_entries,
    next_index,
    scan_spec,
    ScanEntry,
};
use crate::script_type::{selected_types, ScriptPubKeyType};

verus! {

/// The component that stands `j` places after `start`.
pub open spec fn index_after(start: ChildIndex, j: int) -> ChildIndex {
    ChildIndex { raw: (start.raw + j) as u32 }
}

/// The place in what a scan gives of the address that belongs to the
/// `k`-th kind and the `j`-th key, where there are `n` keys.
pub open spec fn slot(k: int, j: int, n: int) -> int {
    k * n + j
}

/// A run of derivations that succeeds gives one key for each of the
/// `count` components, in their order: the `j`-th key stands with the
/// component `j` places after `start` and is the descendant of `key` along
/// `parent` and that component. No index of the run is past the largest.
pub proof fn lemma_derive_range_layout(
    key: Seq<u8>,
    parent: Seq<ChildIndex>,
    start: ChildIndex,
    count: nat,
)
    requires
        derive_range_spec(key, parent, start, count).is_ok(),
    ensures
        derive_range_spec(key, parent, start, count).unwrap().len() == count,
        count > 0 ==> start.index() + count - 1 <= MAX_INDEX,
        forall|j: int|
            0 <= j < count ==> #[trigger] derive_range_spec(key, parent, start, count).unwrap()[j]
                == (
                index_after(start, j),
                derive_spec(key, parent.push(index_after(start, j))).unwrap(),
            ) && derive_spec(key, parent.push(index_after(start, j))).is_ok(),
    decreases count,
{
    let keys = derive_range_spec(key, parent, start, count).unwrap();
    if count == 1 {
        assert(index_after(start, 0) == start);
    } else if count > 1 {
        let next = next_index(start);
        let rest = derive_range_spec(key, parent, next, (count - 1) as nat).unwrap();
        lemma_derive_range_layout(key, parent, next, (count - 1) as nat);
        assert forall|j: int| 0 <= j < count implies #[trigger] keys[j] == (
            index_after(start, j),
            derive_spec(key, parent.push(index_after(start, j))).unwrap(),
        ) && derive_spec(key, parent.push(index_after(start, j))).is_ok() by {
            if j > 0 {
                assert(keys[j] == rest[j - 1]);
            }
        }
    }
}

/// When a run of derivations succeeds: where there is nothing to derive;
/// and where no index of the run is past the largest and every one of its
/// components leads to a descendant of `key`.
pub proof fn lemma_derive_range_succeeds(
    key: Seq<u8>,
    parent: Seq<ChildIndex>,
    start: ChildIndex,
    count: nat,
)
    ensures
        derive_range_spec(key, parent, start, count).is_ok() <==> count == 0 || (start.index()
            + count - 1 <= MAX_INDEX && forall|j: int|
            0 <= j < count ==> (#[trigger] derive_spec(
                key,
                parent.push(index_after(start, j)),
            )).is_ok()),
    decreases count,
{
    if count > 1 {
        let next = next_index(start);
        let fewer = (count - 1) as nat;
        lemma_derive_range_succeeds(key, parent, next, fewer);
        if derive_range_spec(key, parent, start, count).is_ok() {
            assert forall|j: int| 0 <= j < count implies (#[trigger] derive_spec(
                key,
                parent.push(index_after(start, j)),
            )).is_ok() by {
                if j > 0 {
                    assert(derive_spec(key, parent.push(index_after(next, j - 1))).is_ok());
                }
            }
        }
        if start.index() + count - 1 <= MAX_INDEX && forall|j: int|
            0 <= j < count ==> (#[trigger] derive_spec(
                key,
                parent.push(index_after(start, j)),
            )).is_ok() {
            assert(derive_spec(key, parent.push(index_after(start, 0))).is_ok());
            assert forall|j: int| 0 <= j < fewer implies (#[trigger] derive_spec(
                key,
                parent.push(index_after(next, j)),
            )).is_ok() by {
                assert(derive_spec(key, parent.push(index_after(start, j + 1))).is_ok());
            }
        }
    }
}

/// The addresses of one kind are there exactly where every key has an
/// address of that kind; there is then one for each key, in the order of
/// the keys, with the key's component.
pub proof fn lemma_kind_entries_layout(
    kind: ScriptPubKeyType,
    keys: Seq<(ChildIndex, Seq<u8>)>,
    network: Network,
)
    ensures
        kind_entries(kind, keys, network).is_ok() <==> forall|j: int|
            0 <= j < keys.len() ==> (#[trigger] address_of(kind, keys[j].1, network)).is_ok(),
        kind_entries(kind, keys, network).is_ok() ==> kind_entries(
            kind,
            keys,
            network,
        ).unwrap().len() == keys.len(),
        kind_entries(kind, keys, network).is_ok() ==> forall|j: int|
            0 <= j < keys.len() ==> #[trigger] kind_entries(kind, keys, network).unwrap()[j] == (
                kind,
                keys[j].0,
                address_of(kind, keys[j].1, network).unwrap(),
            ),
    decreases keys.len(),
{
    if keys.len() > 0 {
        let front = keys.drop_last();
        lemma_kind_entries_layout(kind, front, network);
        if kind_entries(kind, keys, network).is_ok() {
            assert forall|j: int| 0 <= j < keys.len() implies (#[trigger] address_of(
                kind,
                keys[j].1,
                network,
            )).is_ok() by {
                if j < front.len() {
                    assert(front[j] == keys[j]);
                }
            }
            assert forall|j: int| 0 <= j < keys.len() implies #[trigger] kind_entries(
                kind,
                keys,
                network,
            ).unwrap()[j] == (kind, keys[j].0, address_of(kind, keys[j].1, network).unwrap()) by {}
        }
        if forall|j: int|
            0 <= j < keys.len() ==> (#[trigger] address_of(kind, keys[j].1, network)).is_ok() {
            assert forall|j: int| 0 <= j < front.len() implies (#[trigger] address_of(
                kind,
                front[j].1,
                network,
            )).is_ok() by {}
        }
    }
}

/// What a scan gives is grouped by kind, and goes by key within a kind:
/// the addresses are there exactly where every key has an address of every
/// kind; there are then as many as kinds times keys, and the address of
/// the `k`-th kind for the `j`-th key stands at the place `k` times the
/// number of keys, plus `j`.
pub proof fn lemma_all_entries_layout(
    kinds: Seq<ScriptPubKeyType>,
    keys: Seq<(ChildIndex, Seq<u8>)>,
    network: Network,
)
    ensures
        all_entries(kinds, keys, network).is_ok() <==> forall|k: int, j: int|
            0 <= k < kinds.len() && 0 <= j < keys.len() ==> (#[trigger] address_of(
                kinds[k],
                keys[j].1,
                network,
            )).is_ok(),
        all_entries(kinds, keys, network).is_ok() ==> all_entries(
            kinds,
            keys,
            network,
        ).unwrap().len() == kinds.len() * keys.len(),
        all_entries(kinds, keys, network).is_ok() ==> forall|k: int, j: int|
            0 <= k < kinds.len() && 0 <= j < keys.len() ==> 0 <= #[trigger] slot(
                k,
                j,
                keys.len() as int,
            ) < kinds.len() * keys.len() && all_entries(kinds, keys, network).unwrap()[slot(
                k,
                j,
                keys.len() as int,
            )] == (kinds[k], keys[j].0, address_of(kinds[k], keys[j].1, network).unwrap()),
    decreases kinds.len(),
{
    let n = keys.len() as int;
    if kinds.len() > 0 {
        let front = kinds.drop_last();
        let m = kinds.len() as int;
        let last = kinds.last();
        lemma_all_entries_layout(front, keys, network);
        lemma_kind_entries_layout(last, keys, network);
        assert((m - 1) * n + n == m * n) by (nonlinear_arith);
        if all_entries(kinds, keys, network).is_ok() {
            let whole = all_entries(kinds, keys, network).unwrap();
            assert forall|k: int, j: int| 0 <= k < m && 0 <= j < n implies (#[trigger] address_of(
                kinds[k],
                keys[j].1,
                network,
            )).is_ok() by {
                if k < m - 1 {
                    assert(address_of(front[k], keys[j].1, network).is_ok());
                }
            }
            assert forall|k: int, j: int| 0 <= k < m && 0 <= j < n implies 0 <= #[trigger] slot(
                k,
                j,
                n,
            ) < m * n && whole[slot(k, j, n)] == (
                kinds[k],
                keys[j].0,
                address_of(kinds[k], keys[j].1, network).unwrap(),
            ) by {
                assert(0 <= k * n + j < (k + 1) * n && (k + 1) * n <= m * n) by (nonlinear_arith)
                    requires
                        0 <= k < m,
                        0 <= j < n,
                ;
                if k < m - 1 {
                    assert((k + 1) * n <= (m - 1) * n) by (nonlinear_arith)
                        requires
                            0 <= k < m - 1,
                            0 <= n,
                    ;
                }
            }
        }
        if forall|k: int, j: int|
            0 <= k < m && 0 <= j < n ==> (#[trigger] address_of(kinds[k], keys[j].1, network)).is_ok() {
            assert forall|k: int, j: int| 0 <= k < m - 1 && 0 <= j < n implies (
            #[trigger] address_of(front[k], keys[j].1, network)).is_ok() by {}
            assert forall|j: int| 0 <= j < n implies (#[trigger] address_of(
                last,
                keys[j].1,
                network,
            )).is_ok() by {}
        }
    } else {
        assert(kinds.len() * keys.len() == 0) by (nonlinear_arith)
            requires
                kinds.len() == 0,
        ;
    }
}

/// The order of what a scan gives. A scan that succeeds gives, for each
/// kind that it goes through, one address for each of the `count`
/// components from the last one of the path on: first all addresses of the
/// first kind, by rising index, then all of the second kind, and so on.
/// The address of the `k`-th kind at the `j`-th index is that of the
/// descendant of `key` along the path with its last component moved on by
/// `j`; and there is no other address.
pub proof fn lemma_scan_layout(
    key: Seq<u8>,
    path: Seq<ChildIndex>,
    count: nat,
    requested: Seq<ScriptPubKeyType>,
    network: Network,
)
    requires
        scan_spec(key, path, count, requested, network).is_ok(),
    ensures
        path.len() > 0,
        scan_spec(key, path, count, requested, network).unwrap().len() == selected_types(
            requested,
        ).len() * count,
        forall|k: int, j: int|
            0 <= k < selected_types(requested).len() && 0 <= j < count ==> {
                let at = index_after(path.last(), j);
                let child = derive_spec(key, path.drop_last().push(at));
                &&& 0 <= #[trigger] slot(k, j, count as int) < selected_types(requested).len()
                    * count
                &&& child.is_ok()
                &&& address_of(selected_types(requested)[k], child.unwrap(), network).is_ok()
                &&& scan_spec(key, path, count, requested, network).unwrap()[slot(
                    k,
                    j,
                    count as int,
                )] == (
                    selected_types(requested)[k],
                    at,
                    address_of(selected_types(requested)[k], child.unwrap(), network).unwrap(),
                )
            },
{
    let parent = path.drop_last();
    let start = path.last();
    let kinds = selected_types(requested);
    let keys = derive_range_spec(key, parent, start, count).unwrap();
    lemma_derive_range_layout(key, parent, start, count);
    lemma_all_entries_layout(kinds, keys, network);
    let entries = all_entries(kinds, keys, network).unwrap();
    assert forall|k: int, j: int| 0 <= k < kinds.len() && 0 <= j < count implies {
        let at = index_after(start, j);
        let child = derive_spec(key, parent.push(at));
        &&& 0 <= #[trigger] slot(k, j, count as int) < kinds.len() * count
        &&& child.is_ok()
        &&& address_of(kinds[k], child.unwrap(), network).is_ok()
        &&& entries[slot(k, j, count as int)] == (
            kinds[k],
            at,
            address_of(kinds[k], child.unwrap(), network).unwrap(),
        )
    } by {
        assert(slot(k, j, keys.len() as int) == slot(k, j, count as int));
    }
}

/// When a scan succeeds: where the path has a last component, no index
/// from that component on is past the largest, every one of the `count`
/// components leads to a descendant of `key`, and every descendant has an
/// address of every kind that the scan goes through.
pub proof fn lemma_scan_succeeds(
    key: Seq<u8>,
    path: Seq<ChildIndex>,
    count: nat,
    requested: Seq<ScriptPubKeyType>,
    network: Network,
)
    ensures
        scan_spec(key, path, count, requested, network).is_ok() <==> {
            &&& path.len() > 0
            &&& count > 0 ==> path.last().index() + count - 1 <= MAX_INDEX
            &&& forall|j: int|
                0 <= j < count ==> (#[trigger] derive_spec(
                    key,
                    path.drop_last().push(index_after(path.last(), j)),
                )).is_ok()
            &&& forall|k: int, j: int|
                0 <= k < selected_types(requested).len() && 0 <= j < count ==> (
                #[trigger] address_of(
                    selected_types(requested)[k],
                    derive_spec(key, path.drop_last().push(index_after(path.last(), j))).unwrap(),
                    network,
                )).is_ok()
        },
{
    if path.len() > 0 {
        let parent = path.drop_last();
        let start = path.last();
        let kinds = selected_types(requested);
        lemma_derive_range_succeeds(key, parent, start, count);
        if derive_range_spec(key, parent, start, count).is_ok() {
            let keys = derive_range_spec(key, parent, start, count).unwrap();
            lemma_derive_range_layout(key, parent, start, count);
            lemma_all_entries_layout(kinds, keys, network);
            if all_entries(kinds, keys, network).is_ok() {
                assert forall|k: int, j: int| 0 <= k < kinds.len() && 0 <= j < count implies (
                #[trigger] address_of(
                    kinds[k],
                    derive_spec(key, parent.push(index_after(start, j))).unwrap(),
                    network,
                )).is_ok() by {
                    assert(address_of(kinds[k], keys[j].1, network).is_ok());
                }
            }
            if forall|k: int, j: int|
                0 <= k < kinds.len() && 0 <= j < count ==> (#[trigger] address_of(
                    kinds[k],
                    derive_spec(key, parent.push(index_after(start, j))).unwrap(),
                    network,
                )).is_ok() {
                assert forall|k: int, j: int|
                    0 <= k < kinds.len() && 0 <= j < keys.len() implies (#[trigger] address_of(
                    kinds[k],
                    keys[j].1,
                    network,
                )).is_ok() by {}
            }
        }
    }
}

/// Scanning is a function of what is asked for: two scans of the same key
/// along the same path, for the same count, kinds and network, give the
/// same addresses, character for character, in the same order, or fail in
/// the same way.
pub proof fn lemma_scan_is_deterministic(
    key: ExtendedPublicKey,
    path: DerivationPath,
    count: u32,
    requested: Vec<ScriptPubKeyType>,
    network: Network,
    first: Result<Vec<ScanEntry>, ScanError>,
    second: Result<Vec<ScanEntry>, ScanError>,
)
    requires
        entries_result_view(first) == scan_spec(key@, path@, count as nat, requested@, network),
        entries_result_view(second) == scan_spec(key@, path@, count as nat, requested@, network),
    ensures
        entries_result_view(first) == entries_result_view(second),
{
}

} // verus!
