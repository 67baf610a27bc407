//! End-to-end tests of the witness-backed storage view and the validation
//! pipeline, with expected tries and roots built independently through the
//! trie engine.

use std::sync::Arc;

use eth_trie::{EthTrie, MemoryDB, Trie};

use witness_validation::codec::{encode_block_data, encode_header, Block, BlockData, Header};
use witness_validation::storage::{ValidationError, WitnessStorage};
use witness_validation::validate::{header_hash, validate_block, ExecuteBlock, Slot};

/// Build a trie from the given pairs; return its root and a witness bundle
/// holding the proof nodes for every key in `witness_keys`.
fn build_trie(pairs: &[(&[u8], &[u8])], witness_keys: &[&[u8]]) -> ([u8; 32], Vec<Vec<u8>>) {
    let db = Arc::new(MemoryDB::new(false));
    let mut t = EthTrie::new(db);
    for (k, v) in pairs {
        t.insert(k, v).unwrap();
    }
    let root = t.root_hash().unwrap();
    let mut bundle: Vec<Vec<u8>> = Vec::new();
    for key in witness_keys {
        for node in t.get_proof(key).unwrap() {
            bundle.push(node);
        }
    }
    (root.0, bundle)
}

/// Root of a trie built directly from the given pairs.
fn direct_root(pairs: &[(&[u8], &[u8])]) -> [u8; 32] {
    let db = Arc::new(MemoryDB::new(false));
    let mut t = EthTrie::new(db);
    for (k, v) in pairs {
        t.insert(k, v).unwrap();
    }
    t.root_hash().unwrap().0
}

fn bv(b: &[u8]) -> Vec<u8> {
    b.to_vec()
}

#[test]
fn construct_succeeds_when_root_in_bundle() {
    let (root, bundle) = build_trie(&[(b"a", b"1")], &[b"a"]);
    let s = WitnessStorage::new(bundle, root);
    assert!(s.is_ok());
}

#[test]
fn construct_fails_when_root_absent() {
    let (_root, bundle) = build_trie(&[(b"a", b"1")], &[b"a"]);
    let other = [7u8; 32];
    match WitnessStorage::new(bundle, other) {
        Err(ValidationError::WitnessMismatch) => {}
        _ => panic!("construction must fail with WitnessMismatch"),
    }
}

#[test]
fn insert_then_get_before_root() {
    let (root, bundle) = build_trie(&[(b"a", b"1")], &[b"a"]);
    let mut s = WitnessStorage::new(bundle, root).unwrap();
    s.insert(&bv(b"fresh"), &bv(b"value"));
    assert_eq!(s.get(&bv(b"fresh")), Some(bv(b"value")));
    // the witness trie itself is unchanged: the old key still reads through
    assert_eq!(s.get(&bv(b"a")), Some(bv(b"1")));
}

#[test]
fn remove_shadows_trie_value() {
    let (root, bundle) = build_trie(&[(b"a", b"1")], &[b"a"]);
    let mut s = WitnessStorage::new(bundle, root).unwrap();
    assert_eq!(s.get(&bv(b"a")), Some(bv(b"1")));
    s.remove(&bv(b"a"));
    assert_eq!(s.get(&bv(b"a")), None);
}

#[test]
fn get_reads_witness_trie() {
    let (root, bundle) = build_trie(&[(b"a", b"1"), (b"b", b"2")], &[b"a", b"b"]);
    let s = WitnessStorage::new(bundle, root).unwrap();
    assert_eq!(s.get(&bv(b"a")), Some(bv(b"1")));
    assert_eq!(s.get(&bv(b"b")), Some(bv(b"2")));
    assert_eq!(s.get(&bv(b"missing")), None);
}

#[test]
fn storage_root_twice_identical() {
    let (root, bundle) = build_trie(&[(b"a", b"1")], &[b"a"]);
    let mut s = WitnessStorage::new(bundle, root).unwrap();
    let r1 = s.storage_root();
    let r2 = s.storage_root();
    assert_eq!(r1, r2);
    assert_eq!(r1, root);
}

#[test]
fn storage_root_matches_pre_applied_build() {
    let (root, bundle) = build_trie(&[(b"a", b"1"), (b"b", b"2")], &[b"a", b"b", b"c"]);
    let mut s = WitnessStorage::new(bundle, root).unwrap();
    s.insert(&bv(b"b"), &bv(b"3"));
    s.remove(&bv(b"a"));
    s.insert(&bv(b"c"), &bv(b"9"));
    let r = s.storage_root();
    let expected = direct_root(&[(b"b", b"3"), (b"c", b"9")]);
    assert_eq!(r, expected);
    assert_ne!(r, root);
}

#[test]
fn overlay_order_collapses_to_last_write() {
    let (root, bundle) = build_trie(&[(b"a", b"1")], &[b"a"]);
    let mut s = WitnessStorage::new(bundle, root).unwrap();
    s.insert(&bv(b"a"), &bv(b"x"));
    s.remove(&bv(b"a"));
    s.insert(&bv(b"a"), &bv(b"2"));
    let r = s.storage_root();
    assert_eq!(r, direct_root(&[(b"a", b"2")]));
}

#[test]
fn storage_root_sentinel_on_unappliable_delta() {
    // Witness holds only the proof of "a": deleting a key whose path nodes
    // are not supplied cannot be applied, so the sentinel comes back.
    let (root, bundle) = build_trie(
        &[
            (b"abcdefg1", b"val-1"),
            (b"abcdefg2", b"val-2"),
            (b"qrstuvw1", b"val-3"),
            (b"qrstuvw2", b"val-4"),
        ],
        &[b"abcdefg1"],
    );
    let mut s = WitnessStorage::new(bundle, root).unwrap();
    s.remove(&bv(b"qrstuvw1"));
    let r = s.storage_root();
    assert_eq!(r, [0u8; 32]);
}

struct RecordingRoutine {
    calls: u32,
    seen_get: Option<Vec<u8>>,
    computed_root: [u8; 32],
}

impl ExecuteBlock for RecordingRoutine {
    fn execute_block(&mut self, _block: &Block, slot: &mut Slot) {
        self.calls += 1;
        slot.ext_set_storage(&bv(b"a"), &bv(b"2"));
        self.seen_get = slot.ext_get_allocated_storage(&bv(b"a"));
        self.computed_root = slot.ext_storage_root();
    }
}

struct CountingRoutine {
    calls: u32,
}

impl ExecuteBlock for CountingRoutine {
    fn execute_block(&mut self, _block: &Block, _slot: &mut Slot) {
        self.calls += 1;
    }
}

fn make_payloads(witness: Vec<Vec<u8>>, root: [u8; 32], parent_seal: [u8; 32]) -> (Vec<u8>, Vec<u8>) {
    let parent = Header { parent_hash: [0u8; 32], seal: parent_seal };
    let parent_payload = encode_header(&parent);
    let header = Header { parent_hash: header_hash(&parent), seal: [9u8; 32] };
    let bd = BlockData { header, extrinsics: vec![bv(b"xt-1")], witness, root };
    (encode_block_data(&bd), parent_payload)
}

#[test]
fn full_validation_scenario() {
    let (root, bundle) = build_trie(&[(b"a", b"1")], &[b"a"]);
    let (block_payload, parent_payload) = make_payloads(bundle, root, [3u8; 32]);
    let mut routine = RecordingRoutine { calls: 0, seen_get: None, computed_root: [0u8; 32] };
    let mut slot = Slot::new_unbound();
    let verdict = validate_block(&mut routine, &mut slot, &block_payload, &parent_payload);
    assert_eq!(verdict, Ok(()));
    assert_eq!(routine.calls, 1);
    assert_eq!(routine.seen_get, Some(bv(b"2")));
    let expected = direct_root(&[(b"a", b"2")]);
    assert_eq!(routine.computed_root, expected);
    assert_ne!(routine.computed_root, root);
}

#[test]
fn parent_mismatch_aborts_without_executing() {
    let (root, bundle) = build_trie(&[(b"a", b"1")], &[b"a"]);
    let parent = Header { parent_hash: [0u8; 32], seal: [3u8; 32] };
    let parent_payload = encode_header(&parent);
    // candidate block declares some other parent
    let header = Header { parent_hash: [0xAAu8; 32], seal: [9u8; 32] };
    let bd = BlockData { header, extrinsics: vec![], witness: bundle, root };
    let block_payload = encode_block_data(&bd);
    let mut routine = CountingRoutine { calls: 0 };
    let mut slot = Slot::new_unbound();
    let verdict = validate_block(&mut routine, &mut slot, &block_payload, &parent_payload);
    assert_eq!(verdict, Err(ValidationError::ParentHashMismatch));
    assert_eq!(routine.calls, 0);
}

#[test]
fn witness_mismatch_aborts_without_executing() {
    let (_root, bundle) = build_trie(&[(b"a", b"1")], &[b"a"]);
    let (block_payload, parent_payload) = make_payloads(bundle, [0x55u8; 32], [3u8; 32]);
    let mut routine = CountingRoutine { calls: 0 };
    let mut slot = Slot::new_unbound();
    let verdict = validate_block(&mut routine, &mut slot, &block_payload, &parent_payload);
    assert_eq!(verdict, Err(ValidationError::WitnessMismatch));
    assert_eq!(routine.calls, 0);
}

#[test]
fn corrupt_payloads_abort() {
    let (root, bundle) = build_trie(&[(b"a", b"1")], &[b"a"]);
    let (block_payload, parent_payload) = make_payloads(bundle, root, [3u8; 32]);
    let truncated_block = block_payload[..block_payload.len() - 1].to_vec();
    let truncated_parent = parent_payload[..10].to_vec();
    let mut routine = CountingRoutine { calls: 0 };
    let mut slot = Slot::new_unbound();
    let v1 = validate_block(&mut routine, &mut slot, &truncated_block, &parent_payload);
    assert_eq!(v1, Err(ValidationError::BlockDataCorrupt));
    let v2 = validate_block(&mut routine, &mut slot, &block_payload, &truncated_parent);
    assert_eq!(v2, Err(ValidationError::ParentHeadCorrupt));
    assert_eq!(routine.calls, 0);
}

#[test]
fn slot_restored_after_validation() {
    // a "previously bound" backend with its own data
    let (root0, bundle0) = build_trie(&[(b"z", b"9")], &[b"z"]);
    let prior = WitnessStorage::new(bundle0, root0).unwrap();
    let mut slot = Slot::new_unbound();
    slot.bind(prior);

    let (root, bundle) = build_trie(&[(b"a", b"1")], &[b"a"]);
    let (block_payload, parent_payload) = make_payloads(bundle, root, [3u8; 32]);
    let mut routine = RecordingRoutine { calls: 0, seen_get: None, computed_root: [0u8; 32] };
    let verdict = validate_block(&mut routine, &mut slot, &block_payload, &parent_payload);
    assert_eq!(verdict, Ok(()));

    // the six operations now reflect the backend bound before the call,
    // never the just-discarded witness view
    assert_eq!(slot.ext_get_allocated_storage(&bv(b"z")), Some(bv(b"9")));
    assert_eq!(slot.ext_get_allocated_storage(&bv(b"a")), None);
    assert_eq!(slot.ext_exists_storage(&bv(b"z")), 1);
    assert_eq!(slot.ext_exists_storage(&bv(b"a")), 0);
}

#[test]
fn slot_restored_after_abort() {
    let (root0, bundle0) = build_trie(&[(b"z", b"9")], &[b"z"]);
    let prior = WitnessStorage::new(bundle0, root0).unwrap();
    let mut slot = Slot::new_unbound();
    slot.bind(prior);

    let (root, bundle) = build_trie(&[(b"a", b"1")], &[b"a"]);
    let (block_payload, parent_payload) = make_payloads(bundle, root, [3u8; 32]);
    let truncated = block_payload[..5].to_vec();
    let mut routine = CountingRoutine { calls: 0 };
    let verdict = validate_block(&mut routine, &mut slot, &truncated, &parent_payload);
    assert_eq!(verdict, Err(ValidationError::BlockDataCorrupt));
    assert_eq!(slot.ext_get_allocated_storage(&bv(b"z")), Some(bv(b"9")));
}

#[test]
fn low_level_ops_marshaling() {
    let (root, bundle) = build_trie(&[(b"a", b"1")], &[b"a"]);
    let view = WitnessStorage::new(bundle, root).unwrap();
    let mut slot = Slot::new_unbound();
    slot.bind(view);

    slot.ext_set_storage(&bv(b"key"), &bv(b"hello world"));
    assert_eq!(slot.ext_exists_storage(&bv(b"key")), 1);

    // whole value fits
    let mut dest = vec![0u8; 16];
    let n = slot.ext_get_storage_into(&bv(b"key"), &mut dest, 0);
    assert_eq!(n, 11);
    assert_eq!(&dest[..11], b"hello world");
    assert_eq!(&dest[11..], &[0u8; 5]);

    // offset read, truncated by the buffer
    let mut dest2 = vec![0u8; 3];
    let n2 = slot.ext_get_storage_into(&bv(b"key"), &mut dest2, 6);
    assert_eq!(n2, 3);
    assert_eq!(&dest2[..], b"wor");

    // offset beyond the value: zero bytes available
    let mut dest3 = vec![7u8; 4];
    let n3 = slot.ext_get_storage_into(&bv(b"key"), &mut dest3, 100);
    assert_eq!(n3, 0);
    assert_eq!(&dest3[..], &[7u8; 4]);

    // absent key: max-value sentinel, buffer untouched
    let mut dest4 = vec![7u8; 4];
    let n4 = slot.ext_get_storage_into(&bv(b"missing"), &mut dest4, 0);
    assert_eq!(n4, u32::MAX);
    assert_eq!(&dest4[..], &[7u8; 4]);

    slot.ext_clear_storage(&bv(b"key"));
    assert_eq!(slot.ext_exists_storage(&bv(b"key")), 0);
    assert_eq!(slot.ext_get_allocated_storage(&bv(b"key")), None);

    // compute-root writes a 32-byte root reflecting the cleared overlay
    let r = slot.ext_storage_root();
    assert_eq!(r.len(), 32);
}

#[test]
fn storage_root_recomputes_from_base_after_drain() {
    // The held base root is never advanced: after a root computation that
    // applied writes, a further call starts again from the base root with a
    // now-empty overlay and so yields the base root, not the new one.
    let (root, bundle) = build_trie(&[(b"a", b"1")], &[b"a"]);
    let mut s = WitnessStorage::new(bundle, root).unwrap();
    s.insert(&bv(b"a"), &bv(b"2"));
    let r1 = s.storage_root();
    assert_ne!(r1, root);
    let r2 = s.storage_root();
    assert_eq!(r2, root);
}
