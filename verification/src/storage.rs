//! The witness-backed, overlay-buffered storage view.
//!
//! A view is built once per validation call from the witness bundle and the
//! claimed pre-state root; reads consult the overlay first and fall back to
//! the witness trie; writes and deletions only touch the overlay; computing
//! the storage root applies the drained overlay onto the witness trie.

use vstd::prelude::*;
use vstd::multiset::Multiset;
use crate::trie::{
    trie_lookup, delta_root_of, store_nodes, session_base, session_delta,
    overlay_entries, empty_delta, contains_hash, opt_bytes, fold_entries, NodeStore, Overlay,
    store_new, hash_of, store_insert, store_contains, trie_get, session_open, session_insert,
    session_remove, session_commit, overlay_new, overlay_set, overlay_get, overlay_drain,
};

verus! {

broadcast use vstd::array::group_array_axioms;

/// Why a validation call was aborted.
#[derive(Debug, Clone, Copy, PartialEq, Eq, Structural)]
pub enum ValidationError {
    /// The block-data payload did not decode.
    BlockDataCorrupt,
    /// The parent-head payload did not decode.
    ParentHeadCorrupt,
    /// The candidate block does not declare the supplied parent.
    ParentHashMismatch,
    /// The claimed pre-state root is not in the witness bundle.
    WitnessMismatch,
}

/// Mathematical state of a storage view: the witness node blobs, the claimed
/// pre-state root, and the pending overlay writes.
#[verifier::ext_equal]
pub ghost struct StorageModel {
    pub nodes: Multiset<Seq<u8>>,
    pub root: Seq<u8>,
    pub overlay: Map<Seq<u8>, Option<Seq<u8>>>,
}

/// The all-zero sentinel root meaning "computation failed".
pub open spec fn zero_root() -> Seq<u8> {
    Seq::new(32, |i: int| 0u8)
}

/// What a read returns: an overlay entry fully shadows the trie; otherwise
/// the witness trie decides, with unreadable paths counting as absence.
pub open spec fn get_spec(m: StorageModel, k: Seq<u8>) -> Option<Seq<u8>> {
    if m.overlay.contains_key(k) {
        m.overlay[k]
    } else {
        trie_lookup(m.nodes, m.root, k)
    }
}

/// Root computation on an empty overlay: the base root when it is present in
/// the witness nodes, the sentinel otherwise.
pub open spec fn clean_root_spec(m: StorageModel) -> Seq<u8> {
    if contains_hash(m.nodes, m.root) {
        m.root
    } else {
        zero_root()
    }
}

/// The multiset of node blobs in a witness bundle.
pub open spec fn bundle_nodes(s: Seq<Seq<u8>>) -> Multiset<Seq<u8>>
    decreases s.len(),
{
    if s.len() == 0 {
        Multiset::empty()
    } else {
        bundle_nodes(s.drop_last()).insert(s.last())
    }
}

/// Storage view over a witness bundle, with a write overlay.
pub struct WitnessStorage {
    store: NodeStore,
    overlay: Overlay,
    root: [u8; 32],
}

impl View for WitnessStorage {
    type V = StorageModel;

    closed spec fn view(&self) -> StorageModel {
        StorageModel {
            nodes: store_nodes(&self.store),
            root: self.root@,
            overlay: overlay_entries(&self.overlay),
        }
    }
}

impl WitnessStorage {
    /// Build the content-addressed store from the witness bundle and check
    /// that the claimed root is one of its node hashes; construction fails
    /// with `WitnessMismatch` exactly when it is not.
    pub fn new(data: Vec<Vec<u8>>, storage_root: [u8; 32]) -> (r: Result<WitnessStorage, ValidationError>)
        ensures
            (match r {
                Ok(s) => contains_hash(bundle_nodes(data.deep_view()), storage_root@)
                    && s@.nodes == bundle_nodes(data.deep_view())
                    && s@.root == storage_root@
                    && s@.overlay == empty_delta(),
                Err(e) => e == ValidationError::WitnessMismatch
                    && !contains_hash(bundle_nodes(data.deep_view()), storage_root@),
            }),
    {
        let mut store = store_new();
        let mut i: usize = 0;
        while i < data.len()
            invariant
                i <= data.len(),
                store_nodes(&store) == bundle_nodes(data.deep_view().take(i as int)),
            decreases data.len() - i,
        {
            let h = hash_of(&data[i]);
            proof {
                let dv = data.deep_view();
                assert(dv[i as int] == data[i as int].deep_view());
                assert(data[i as int].deep_view() =~= data[i as int]@);
                assert(dv.take(i as int + 1).drop_last() =~= dv.take(i as int));
                assert(dv.take(i as int + 1).last() == dv[i as int]);
            }
            store_insert(&mut store, &h, &data[i]);
            i = i + 1;
        }
        proof {
            assert(data.deep_view().take(data.len() as int) =~= data.deep_view());
        }
        if store_contains(&store, &storage_root) {
            Ok(WitnessStorage { store, overlay: overlay_new(), root: storage_root })
        } else {
            Err(ValidationError::WitnessMismatch)
        }
    }

    /// Read a key: overlay entry (value or tombstone) first, witness trie
    /// otherwise.
    pub fn get(&self, key: &Vec<u8>) -> (r: Option<Vec<u8>>)
        ensures
            opt_bytes(r) == get_spec(self@, key@),
    {
        match overlay_get(&self.overlay, key) {
            Some(e) => e,
            None => trie_get(&self.store, &self.root, key),
        }
    }

    /// Record a write in the overlay; the witness trie is untouched.
    pub fn insert(&mut self, key: &Vec<u8>, value: &Vec<u8>)
        ensures
            final(self)@.nodes == old(self)@.nodes,
            final(self)@.root == old(self)@.root,
            final(self)@.overlay == old(self)@.overlay.insert(key@, Some(value@)),
    {
        overlay_set(&mut self.overlay, key.clone(), Some(value.clone()));
    }

    /// Record a tombstone in the overlay; the witness trie is untouched.
    pub fn remove(&mut self, key: &Vec<u8>)
        ensures
            final(self)@.nodes == old(self)@.nodes,
            final(self)@.root == old(self)@.root,
            final(self)@.overlay == old(self)@.overlay.insert(key@, None),
    {
        overlay_set(&mut self.overlay, key.clone(), None);
    }

    /// Apply all pending overlay deltas onto the witness trie, starting from
    /// the held base root, and return the new 32-byte root; on any failure
    /// return the all-zero sentinel.  The overlay is drained either way and
    /// the held base root is never advanced, so with an empty overlay the
    /// call leaves the view unchanged and merely re-checks the base root.
    pub fn storage_root(&mut self) -> (r: [u8; 32])
        ensures
            final(self)@.root == old(self)@.root,
            final(self)@.overlay == empty_delta(),
            old(self)@.overlay == empty_delta() ==> final(self)@.nodes == old(self)@.nodes
                && r@ == clean_root_spec(old(self)@),
            old(self)@.overlay != empty_delta() ==> r@ == zero_root()
                || delta_root_of(old(self)@.nodes, old(self)@.root, old(self)@.overlay) == Some(r@),
    {
        let deltas = overlay_drain(&mut self.overlay);
        if deltas.len() == 0 {
            if store_contains(&self.store, &self.root) {
                self.root
            } else {
                let z = [0u8; 32];
                proof {
                    assert(z@ =~= zero_root());
                }
                z
            }
        } else {
            proof {
                assert(fold_entries(deltas@).contains_key(deltas@.last().0@));
                assert(old(self)@.overlay != empty_delta());
            }
            let ghost base = old(self)@.root;
            match session_open(&self.store, &self.root) {
                None => {
                    let z = [0u8; 32];
                    proof {
                        assert(z@ =~= zero_root());
                    }
                    z
                },
                Some(sess) => {
                    let mut sess = sess;
                    let mut i: usize = 0;
                    let mut failed = false;
                    while i < deltas.len() && !failed
                        invariant
                            i <= deltas.len(),
                            !failed ==> session_base(&sess) == base,
                            !failed ==> session_delta(&sess) == fold_entries(deltas@.take(i as int)),
                            self.root@ == base,
                        decreases deltas.len() - i,
                    {
                        let ok = match &deltas[i].1 {
                            Some(v) => session_insert(&mut sess, &deltas[i].0, v),
                            None => session_remove(&mut sess, &deltas[i].0),
                        };
                        if ok {
                            proof {
                                assert(deltas@.take(i as int + 1).drop_last() =~= deltas@.take(i as int));
                                assert(deltas@.take(i as int + 1).last() == deltas@[i as int]);
                            }
                        } else {
                            failed = true;
                        }
                        i = i + 1;
                    }
                    if failed {
                        let z = [0u8; 32];
                        proof {
                            assert(z@ =~= zero_root());
                        }
                        z
                    } else {
                        proof {
                            assert(deltas@.take(deltas@.len() as int) =~= deltas@);
                        }
                        match session_commit(&mut self.store, sess) {
                            Some(h) => h,
                            None => {
                                let z = [0u8; 32];
                                proof {
                                    assert(z@ =~= zero_root());
                                }
                                z
                            },
                        }
                    }
                },
            }
        }
    }
}

} // verus!
