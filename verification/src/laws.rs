//! The library's stated laws, proved over the storage model.

use vstd::prelude::*;
use vstd::multiset::Multiset;
use crate::trie::{node_hash, delta_root_of, contains_hash, empty_delta};
use crate::storage::{StorageModel, get_spec, clean_root_spec, bundle_nodes};
use crate::codec::{enc_header};
use crate::storage::ValidationError;
use crate::validate::{validation_verdict};

verus! {

broadcast use vstd::multiset::group_multiset_axioms;

/// A storage view can be constructed from a witness bundle and a claimed
/// root exactly when some blob of the bundle hashes to that root: the
/// content-addressed store built from the bundle contains the root if and
/// only if the bundle supplies a node with that hash.
pub proof fn lemma_root_in_witness(bundle: Seq<Seq<u8>>, root: Seq<u8>)
    ensures
        contains_hash(bundle_nodes(bundle), root)
            <==> exists|i: int| 0 <= i < bundle.len() && node_hash(bundle[i]) == root,
    decreases bundle.len(),
{
    if bundle.len() == 0 {
        assert(forall|b: Seq<u8>| bundle_nodes(bundle).count(b) == 0);
    } else {
        let prefix = bundle.drop_last();
        lemma_root_in_witness(prefix, root);
        assert(bundle_nodes(bundle) == bundle_nodes(prefix).insert(bundle.last()));
        if contains_hash(bundle_nodes(bundle), root) {
            let b = choose|b: Seq<u8>| bundle_nodes(bundle).count(b) > 0 && node_hash(b) == root;
            if b == bundle.last() {
                assert(node_hash(bundle[bundle.len() - 1]) == root);
            } else {
                assert(bundle_nodes(prefix).count(b) > 0);
                assert(contains_hash(bundle_nodes(prefix), root));
                let i = choose|i: int| 0 <= i < prefix.len() && node_hash(prefix[i]) == root;
                assert(bundle[i] == prefix[i]);
            }
        }
        if exists|i: int| 0 <= i < bundle.len() && node_hash(bundle[i]) == root {
            let i = choose|i: int| 0 <= i < bundle.len() && node_hash(bundle[i]) == root;
            if i == bundle.len() - 1 {
                assert(bundle_nodes(bundle).count(bundle.last()) > 0);
            } else {
                assert(prefix[i] == bundle[i]);
                assert(contains_hash(bundle_nodes(prefix), root));
                let b = choose|b: Seq<u8>| bundle_nodes(prefix).count(b) > 0 && node_hash(b) == root;
                assert(bundle_nodes(bundle).count(b) > 0);
            }
        }
    }
}

/// After a write of `v` under `k`, and before any root computation, a read
/// of `k` returns `v` -- the overlay alone answers, whatever the witness
/// trie holds.
pub proof fn lemma_insert_then_get(m: StorageModel, k: Seq<u8>, v: Seq<u8>)
    ensures
        get_spec(
            StorageModel { nodes: m.nodes, root: m.root, overlay: m.overlay.insert(k, Some(v)) },
            k,
        ) == Some(v),
{
}

/// After a deletion of `k`, a read of `k` reports absence, even when the
/// witness trie holds a value for `k`: the tombstone shadows the trie.
pub proof fn lemma_remove_then_get(m: StorageModel, k: Seq<u8>)
    ensures
        get_spec(
            StorageModel { nodes: m.nodes, root: m.root, overlay: m.overlay.insert(k, None) },
            k,
        ) is None,
{
}

/// One root computation on a view with an empty overlay: the result bytes
/// and the state it leaves behind, exactly as `storage_root` ensures them.
pub open spec fn root_call_on_clean(m: StorageModel) -> (StorageModel, Seq<u8>) {
    (m, clean_root_spec(m))
}

/// Two root computations with no writes in between return identical bytes:
/// a call on an empty overlay leaves the view unchanged (the base root is
/// never advanced and the drained overlay was already empty), so the second
/// call starts from the same state and computes the same bytes.
pub proof fn lemma_storage_root_twice(m: StorageModel)
    requires
        m.overlay == empty_delta(),
    ensures
        root_call_on_clean(m).1 == root_call_on_clean(root_call_on_clean(m).0).1,
{
}

/// A delta map assembled by replaying operations in order: each step writes
/// a value (`Some`) or a tombstone (`None`), the last write per key winning.
pub open spec fn apply_ops(
    m: Map<Seq<u8>, Option<Seq<u8>>>,
    ops: Seq<(Seq<u8>, Option<Seq<u8>>)>,
) -> Map<Seq<u8>, Option<Seq<u8>>>
    decreases ops.len(),
{
    if ops.len() == 0 {
        m
    } else {
        apply_ops(m, ops.drop_last()).insert(ops.last().0, ops.last().1)
    }
}

/// Replaying operations composes: running `ops1` and then `ops2` leaves the
/// same delta map as running their concatenation in one go.
pub proof fn lemma_apply_ops_append(
    m: Map<Seq<u8>, Option<Seq<u8>>>,
    ops1: Seq<(Seq<u8>, Option<Seq<u8>>)>,
    ops2: Seq<(Seq<u8>, Option<Seq<u8>>)>,
)
    ensures
        apply_ops(m, ops1 + ops2) == apply_ops(apply_ops(m, ops1), ops2),
    decreases ops2.len(),
{
    if ops2.len() == 0 {
        assert(ops1 + ops2 =~= ops1);
    } else {
        lemma_apply_ops_append(m, ops1, ops2.drop_last());
        assert((ops1 + ops2).drop_last() =~= ops1 + ops2.drop_last());
        assert((ops1 + ops2).last() == ops2.last());
    }
}

/// A later write to the same key wins: recording `v1` and then `v2` under
/// `k` leaves the overlay exactly as recording `v2` alone would.
pub proof fn lemma_last_write_wins(
    m: Map<Seq<u8>, Option<Seq<u8>>>,
    k: Seq<u8>,
    v1: Option<Seq<u8>>,
    v2: Option<Seq<u8>>,
)
    ensures
        m.insert(k, v1).insert(k, v2) == m.insert(k, v2),
{
    assert(m.insert(k, v1).insert(k, v2) =~= m.insert(k, v2));
}

/// Pre-applied deltas: replaying a sequence of writes and deletions through
/// the overlay of a clean view and then computing the root gives the same
/// root as handing the collapsed map of those operations to the trie in one
/// delta -- two sequences with the same collapsed map yield the same root.
pub proof fn lemma_pre_applied(
    nodes: Multiset<Seq<u8>>,
    root: Seq<u8>,
    ops1: Seq<(Seq<u8>, Option<Seq<u8>>)>,
    ops2: Seq<(Seq<u8>, Option<Seq<u8>>)>,
)
    requires
        apply_ops(empty_delta(), ops1) == apply_ops(empty_delta(), ops2),
    ensures
        delta_root_of(nodes, root, apply_ops(empty_delta(), ops1))
            == delta_root_of(nodes, root, apply_ops(empty_delta(), ops2)),
{
}

/// A parent-hash mismatch decides the whole call: when both payloads decode
/// but the candidate block does not declare the supplied parent, the verdict
/// is `ParentHashMismatch`, reached before any state access or execution.
pub proof fn lemma_parent_mismatch_aborts(bd: Seq<u8>, ph: Seq<u8>)
    requires
        crate::codec::dec_block_data(bd) is Some,
        crate::codec::dec_parent_header(ph) is Some,
        node_hash(enc_header(crate::codec::dec_parent_header(ph).unwrap()))
            != crate::codec::dec_block_data(bd).unwrap().header.parent_hash,
    ensures
        (validation_verdict(bd, ph) == Result::<(), ValidationError>::Err(ValidationError::ParentHashMismatch)),
{
}

} // verus!
