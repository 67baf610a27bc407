//! Trusted boundary to the outside merkle-trie engine.
//!
//! The witness bundle is held in a content-addressed node store; reads and
//! delta applications go through the `eth_trie` crate.  Everything the rest
//! of the library knows about those calls is stated here, over three
//! uninterpreted names: the node hash function, the result of a trie read,
//! and the root produced by applying a delta map on top of a base root.

use vstd::prelude::*;
use vstd::multiset::Multiset;
use std::sync::Arc;
use eth_trie::Trie;
use eth_trie::DB;

verus! {

/// Content hash of a trie node blob (keccak-256), as the trie engine keys it.
pub uninterp spec fn node_hash(blob: Seq<u8>) -> Seq<u8>;

/// Value found by walking the trie from `root` over the node blobs in
/// `nodes`; `None` covers both a genuinely absent key and a walk that could
/// not be completed from the supplied nodes.
pub uninterp spec fn trie_lookup(nodes: Multiset<Seq<u8>>, root: Seq<u8>, key: Seq<u8>) -> Option<Seq<u8>>;

/// Root obtained by applying the delta map (`Some` = write, `None` = delete)
/// on top of `root` over `nodes`; `None` when the application fails, e.g.
/// because needed nodes are missing from the witness.
pub uninterp spec fn delta_root_of(
    nodes: Multiset<Seq<u8>>,
    root: Seq<u8>,
    delta: Map<Seq<u8>, Option<Seq<u8>>>,
) -> Option<Seq<u8>>;

/// The node blobs a store holds, with multiplicity.
pub uninterp spec fn store_nodes(s: &NodeStore) -> Multiset<Seq<u8>>;

/// Base root a delta session was opened at.
pub uninterp spec fn session_base(s: &DeltaSession) -> Seq<u8>;

/// Delta map accumulated in a session so far.
pub uninterp spec fn session_delta(s: &DeltaSession) -> Map<Seq<u8>, Option<Seq<u8>>>;

/// The overlay's pending writes: key to value-or-tombstone.
pub uninterp spec fn overlay_entries(o: &Overlay) -> Map<Seq<u8>, Option<Seq<u8>>>;

/// The empty delta/overlay map.
pub open spec fn empty_delta() -> Map<Seq<u8>, Option<Seq<u8>>> {
    Map::empty()
}

/// Whether some blob in `nodes` hashes to `h`.
pub open spec fn contains_hash(nodes: Multiset<Seq<u8>>, h: Seq<u8>) -> bool {
    exists|b: Seq<u8>| nodes.count(b) > 0 && node_hash(b) == h
}

pub open spec fn opt_bytes(v: Option<Vec<u8>>) -> Option<Seq<u8>> {
    match v {
        Some(x) => Some(x@),
        None => None,
    }
}

/// Map described by a sequence of drained overlay entries; a later entry for
/// the same key overrides an earlier one.
pub open spec fn fold_entries(s: Seq<(Vec<u8>, Option<Vec<u8>>)>) -> Map<Seq<u8>, Option<Seq<u8>>>
    decreases s.len(),
{
    if s.len() == 0 {
        Map::empty()
    } else {
        fold_entries(s.drop_last()).insert(s.last().0@, opt_bytes(s.last().1))
    }
}

/// Content-addressed store of raw trie-node blobs.
#[verifier::external_body]
pub struct NodeStore {
    db: Arc<eth_trie::MemoryDB>,
}

/// An in-progress delta application over a `NodeStore`.
#[verifier::external_body]
pub struct DeltaSession {
    trie: eth_trie::EthTrie<eth_trie::MemoryDB>,
}

/// Pending writes layered over the witness trie.
#[verifier::external_body]
pub struct Overlay {
    inner: hashbrown::HashMap<Vec<u8>, Option<Vec<u8>>>,
}

/// Relies on eth_trie::MemoryDB::new: a fresh, empty node store.
#[verifier::external_body]
pub(crate) fn store_new() -> (r: NodeStore)
    ensures
        store_nodes(&r) == Multiset::<Seq<u8>>::empty(),
{
    NodeStore { db: Arc::new(eth_trie::MemoryDB::new(false)) }
}

/// Relies on keccak_hash::keccak: the 32-byte content hash of a blob,
/// a function of the bytes alone.
#[verifier::external_body]
pub(crate) fn hash_of(b: &Vec<u8>) -> (r: [u8; 32])
    ensures
        r@ == node_hash(b@),
{
    keccak_hash::keccak(b.as_slice()).to_fixed_bytes()
}

/// Relies on eth_trie::MemoryDB::insert (via the DB trait): stores the blob
/// under its content hash.  The caller supplies that hash.
#[verifier::external_body]
pub(crate) fn store_insert(s: &mut NodeStore, h: &[u8; 32], blob: &Vec<u8>)
    requires
        h@ == node_hash(blob@),
    ensures
        store_nodes(final(s)) == store_nodes(old(s)).insert(blob@),
{
    let _ = s.db.insert(h.as_slice(), blob.clone());
}

/// Relies on eth_trie::MemoryDB::get: a key is present exactly when some
/// inserted blob hashes to it (every insertion, including the engine's own
/// at commit time, is keyed by the blob's content hash).
#[verifier::external_body]
pub(crate) fn store_contains(s: &NodeStore, h: &[u8; 32]) -> (r: bool)
    ensures
        r == contains_hash(store_nodes(s), h@),
{
    match s.db.get(h.as_slice()) {
        Ok(Some(_)) => true,
        _ => false,
    }
}

/// Relies on eth_trie::EthTrie::from and eth_trie::Trie::get: walk the trie
/// at `root` for `key`; a missing root, an undecodable node or an incomplete
/// path all read as absence.
#[verifier::external_body]
pub(crate) fn trie_get(store: &NodeStore, root: &[u8; 32], key: &Vec<u8>) -> (r: Option<Vec<u8>>)
    ensures
        opt_bytes(r) == trie_lookup(store_nodes(store), root@, key@),
{
    match eth_trie::EthTrie::from(Arc::clone(&store.db), (*root).into()) {
        Ok(t) => match t.get(key.as_slice()) {
            Ok(v) => v,
            Err(_) => None,
        },
        Err(_) => None,
    }
}

/// Relies on eth_trie::EthTrie::from: opens a delta application at `root`;
/// fails when the root node cannot be fetched and decoded from the store.
#[verifier::external_body]
pub(crate) fn session_open(store: &NodeStore, root: &[u8; 32]) -> (r: Option<DeltaSession>)
    ensures
        match r {
            Some(s) => session_base(&s) == root@ && session_delta(&s) == empty_delta(),
            None => true,
        },
{
    match eth_trie::EthTrie::from(Arc::clone(&store.db), (*root).into()) {
        Ok(t) => Some(DeltaSession { trie: t }),
        Err(_) => None,
    }
}

/// Relies on eth_trie::Trie::insert: records a write in the session; fails
/// when the path's nodes are missing from the witness.  Note that the engine
/// records a write of an empty value as a deletion of the key; only the
/// uninterpreted `delta_root_of` sees the difference, so no clause here
/// distinguishes the two.
#[verifier::external_body]
pub(crate) fn session_insert(s: &mut DeltaSession, key: &Vec<u8>, value: &Vec<u8>) -> (r: bool)
    ensures
        r ==> session_base(final(s)) == session_base(old(s))
            && session_delta(final(s)) == session_delta(old(s)).insert(key@, Some(value@)),
{
    match s.trie.insert(key.as_slice(), value.as_slice()) {
        Ok(()) => true,
        Err(_) => false,
    }
}

/// Relies on eth_trie::Trie::remove: records a deletion in the session;
/// fails when the path's nodes are missing from the witness.
#[verifier::external_body]
pub(crate) fn session_remove(s: &mut DeltaSession, key: &Vec<u8>) -> (r: bool)
    ensures
        r ==> session_base(final(s)) == session_base(old(s))
            && session_delta(final(s)) == session_delta(old(s)).insert(key@, None),
{
    match s.trie.remove(key.as_slice()) {
        Ok(_) => true,
        Err(_) => false,
    }
}

/// Relies on eth_trie::Trie::root_hash: commits the session's delta over the
/// store and returns the new 32-byte root; the result is determined by the
/// store's nodes, the base root and the delta map.  Committing writes the
/// changed nodes back into the store, so the store is left unspecified here.
#[verifier::external_body]
pub(crate) fn session_commit(store: &mut NodeStore, s: DeltaSession) -> (r: Option<[u8; 32]>)
    ensures
        match r {
            Some(h) => delta_root_of(store_nodes(old(store)), session_base(&s), session_delta(&s)) == Some(h@),
            None => delta_root_of(store_nodes(old(store)), session_base(&s), session_delta(&s)) is None,
        },
{
    let _ = &store;
    let mut t = s;
    match t.trie.root_hash() {
        Ok(h) => Some(h.0),
        Err(_) => None,
    }
}

/// Relies on hashbrown::HashMap::new: a fresh, empty overlay.
#[verifier::external_body]
pub(crate) fn overlay_new() -> (r: Overlay)
    ensures
        overlay_entries(&r) == empty_delta(),
{
    Overlay { inner: hashbrown::HashMap::new() }
}

/// Relies on hashbrown::HashMap::insert: the latest entry per key wins.
#[verifier::external_body]
pub(crate) fn overlay_set(o: &mut Overlay, key: Vec<u8>, value: Option<Vec<u8>>)
    ensures
        overlay_entries(final(o)) == overlay_entries(old(o)).insert(key@, opt_bytes(value)),
{
    let _ = o.inner.insert(key, value);
}

/// Relies on hashbrown::HashMap::get: returns the stored entry for the key,
/// cloned, or `None` when the key was never touched.
#[verifier::external_body]
pub(crate) fn overlay_get(o: &Overlay, key: &Vec<u8>) -> (r: Option<Option<Vec<u8>>>)
    ensures
        (match r {
            Some(e) => overlay_entries(o).contains_key(key@) && overlay_entries(o)[key@] == opt_bytes(e),
            None => !overlay_entries(o).contains_key(key@),
        }),
{
    o.inner.get(key).cloned()
}

/// Relies on hashbrown::HashMap::drain: hands out all entries (in no
/// particular order, each key once) and leaves the overlay empty.
#[verifier::external_body]
pub(crate) fn overlay_drain(o: &mut Overlay) -> (r: Vec<(Vec<u8>, Option<Vec<u8>>)>)
    ensures
        overlay_entries(final(o)) == empty_delta(),
        fold_entries(r@) == overlay_entries(old(o)),
{
    o.inner.drain().collect()
}

} // verus!
