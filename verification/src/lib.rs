//! Witness-based validation of a proposed block.
//!
//! A validation call receives two byte payloads: block data (header,
//! extrinsics, witness bundle, claimed pre-state root) and the parent head.
//! The witness bundle is loaded into a content-addressed node store, checked
//! against the claimed root, and presented to the block-execution routine as
//! a key/value store through six low-level operations; writes are buffered
//! in an overlay and folded into a fresh storage root on demand.

pub mod codec;
pub mod laws;
pub mod storage;
pub mod trie;
pub mod validate;
