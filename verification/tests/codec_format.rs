//! Tests of the wire format: round trips, trailing-byte tolerance, and
//! rejection of malformed payloads.

use witness_validation::codec::{
    decode_block_data, decode_parent_header, encode_block_data, encode_header, BlockData, Header,
};

fn sample_block_data() -> BlockData {
    BlockData {
        header: Header { parent_hash: [1u8; 32], seal: [2u8; 32] },
        extrinsics: vec![b"first".to_vec(), b"second extrinsic".to_vec(), Vec::new()],
        witness: vec![vec![0xAB; 300], b"node".to_vec()],
        root: [3u8; 32],
    }
}

#[test]
fn block_data_round_trip() {
    let bd = sample_block_data();
    let bytes = encode_block_data(&bd);
    let back = decode_block_data(&bytes).unwrap();
    assert_eq!(back.header.parent_hash, bd.header.parent_hash);
    assert_eq!(back.header.seal, bd.header.seal);
    assert_eq!(back.extrinsics, bd.extrinsics);
    assert_eq!(back.witness, bd.witness);
    assert_eq!(back.root, bd.root);
}

#[test]
fn trailing_bytes_are_ignored() {
    let bd = sample_block_data();
    let mut bytes = encode_block_data(&bd);
    bytes.extend_from_slice(b"trailing junk");
    let back = decode_block_data(&bytes).unwrap();
    assert_eq!(back.root, bd.root);

    let h = Header { parent_hash: [4u8; 32], seal: [5u8; 32] };
    let mut hb = encode_header(&h);
    hb.push(0xFF);
    let hh = decode_parent_header(&hb).unwrap();
    assert_eq!(hh.parent_hash, h.parent_hash);
    assert_eq!(hh.seal, h.seal);
}

#[test]
fn truncations_are_rejected() {
    let bd = sample_block_data();
    let bytes = encode_block_data(&bd);
    for cut in [0usize, 1, 63, 64, 70, bytes.len() - 33, bytes.len() - 1] {
        let t = bytes[..cut].to_vec();
        assert!(decode_block_data(&t).is_none());
    }
    let h = Header { parent_hash: [4u8; 32], seal: [5u8; 32] };
    let hb = encode_header(&h);
    assert!(decode_parent_header(&hb[..63].to_vec()).is_none());
}

#[test]
fn oversized_length_prefix_is_rejected() {
    let bd = BlockData {
        header: Header { parent_hash: [0u8; 32], seal: [0u8; 32] },
        extrinsics: vec![],
        witness: vec![],
        root: [0u8; 32],
    };
    let mut bytes = encode_block_data(&bd);
    // claim one extrinsic but supply none
    bytes[64] = 1;
    assert!(decode_block_data(&bytes).is_none());
}

#[test]
fn empty_lists_round_trip() {
    let bd = BlockData {
        header: Header { parent_hash: [0u8; 32], seal: [0u8; 32] },
        extrinsics: vec![],
        witness: vec![],
        root: [9u8; 32],
    };
    let bytes = encode_block_data(&bd);
    // 64 header + 4 + 4 counts + 32 root
    assert_eq!(bytes.len(), 104);
    let back = decode_block_data(&bytes).unwrap();
    assert!(back.extrinsics.is_empty());
    assert!(back.witness.is_empty());
    assert_eq!(back.root, [9u8; 32]);
}
