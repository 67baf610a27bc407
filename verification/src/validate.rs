//! Validation orchestration and the low-level storage-operation surface.
//!
//! A `Slot` stands for the binding of the six low-level storage operations:
//! the orchestrator saves whatever backend is bound, installs the
//! witness-backed view, invokes the execution routine (which calls back
//! through the six operations), and restores the saved backend on the way
//! out.  The routine itself is a black box behind the `ExecuteBlock` trait.

use vstd::prelude::*;
use crate::codec::{
    Header, Block, enc_header, encode_header, decode_block_data, decode_parent_header,
    dec_block_data, dec_parent_header,
};
use crate::storage::{
    WitnessStorage, StorageModel, ValidationError, get_spec, bundle_nodes, zero_root,
    clean_root_spec,
};
use crate::trie::{node_hash, hash_of, contains_hash, empty_delta, opt_bytes, delta_root_of};

verus! {

/// The backend the low-level operations are currently bound to.
pub enum Backend {
    /// Whatever the host had bound; no storage view of this library.
    Unbound,
    /// The witness-backed view of one validation call.
    Witness(WitnessStorage),
}

/// The binding slot for the six low-level storage operations.
pub struct Slot {
    pub current: Backend,
}

/// Whether a witness-backed view is bound.
pub open spec fn is_bound(s: &Slot) -> bool {
    s.current is Witness
}

/// Model of the bound storage view.
pub open spec fn active_model(s: &Slot) -> StorageModel {
    match s.current {
        Backend::Witness(w) => w@,
        Backend::Unbound => arbitrary(),
    }
}

/// The block-execution routine: invoked once per validation call, free to
/// call the six low-level operations on the slot any number of times, in any
/// order.  Implementations are outside this library's control, so nothing is
/// assumed about what they do; the orchestrator guarantees in turn that the
/// slot it hands over has a witness-backed view bound, so every operation
/// the routine calls is served by that view.
pub trait ExecuteBlock {
    fn execute_block(&mut self, block: &Block, slot: &mut Slot)
        requires
            is_bound(old(slot)),
    ;
}

/// The verdict of a validation call, as a function of the two input
/// payloads: the first failing pipeline step decides.
pub open spec fn validation_verdict(bd: Seq<u8>, ph: Seq<u8>) -> Result<(), ValidationError> {
    match dec_block_data(bd) {
        None => Err(ValidationError::BlockDataCorrupt),
        Some(d) => match dec_parent_header(ph) {
            None => Err(ValidationError::ParentHeadCorrupt),
            Some(h) => if node_hash(enc_header(h)) != d.header.parent_hash {
                Err(ValidationError::ParentHashMismatch)
            } else if !contains_hash(bundle_nodes(d.witness), d.root) {
                Err(ValidationError::WitnessMismatch)
            } else {
                Ok(())
            },
        },
    }
}

/// Hash of a header: the content hash of its encoding.
pub fn header_hash(h: &Header) -> (r: [u8; 32])
    ensures
        r@ == node_hash(enc_header(h@)),
{
    let e = encode_header(h);
    hash_of(&e)
}

fn bytes32_eq(a: &[u8; 32], b: &[u8; 32]) -> (r: bool)
    ensures
        r == (a@ == b@),
{
    let mut i: usize = 0;
    while i < 32
        invariant
            i <= 32,
            forall|t: int| 0 <= t < i ==> a@[t] == b@[t],
        decreases 32 - i,
    {
        if a[i] != b[i] {
            return false;
        }
        i = i + 1;
    }
    proof {
        assert(a@ =~= b@);
    }
    true
}

impl Slot {
    /// A slot with no view of this library bound.
    pub fn new_unbound() -> (r: Slot)
        ensures
            !is_bound(&r),
    {
        Slot { current: Backend::Unbound }
    }

    /// Whether a witness-backed view is currently bound.
    pub fn bound(&self) -> (r: bool)
        ensures
            r == is_bound(self),
    {
        match &self.current {
            Backend::Witness(_) => true,
            Backend::Unbound => false,
        }
    }

    /// Bind a witness-backed view.
    pub fn bind(&mut self, view: WitnessStorage)
        ensures
            is_bound(final(self)),
            active_model(final(self)) == view@,
    {
        self.current = Backend::Witness(view);
    }

    /// get-allocated: the value in a freshly allocated buffer whose
    /// ownership passes to the caller, or absence.
    pub fn ext_get_allocated_storage(&self, key: &Vec<u8>) -> (r: Option<Vec<u8>>)
        requires
            is_bound(self),
        ensures
            opt_bytes(r) == get_spec(active_model(self), key@),
    {
        match &self.current {
            Backend::Witness(w) => w.get(key),
            Backend::Unbound => None,
        }
    }

    /// get-into-buffer: copy at most `dest.len()` bytes of the value,
    /// starting `offset` bytes in, into `dest`; the number copied is the
    /// smaller of the buffer's length and what is available past the offset.
    /// The maximum 32-bit value signals an absent key.
    pub fn ext_get_storage_into(&self, key: &Vec<u8>, dest: &mut Vec<u8>, offset: usize) -> (r: u32)
        requires
            is_bound(self),
            old(dest)@.len() < 0xffff_ffff,
        ensures
            final(dest)@.len() == old(dest)@.len(),
            (match get_spec(active_model(self), key@) {
                None => r == u32::MAX && final(dest)@ == old(dest)@,
                Some(v) => ({
                    let avail: int = if offset <= v.len() { v.len() - offset } else { 0 };
                    let n: int = if old(dest)@.len() <= avail { old(dest)@.len() as int } else { avail };
                    r == n
                    && (forall|t: int| 0 <= t < n ==> final(dest)@[t] == v[offset + t])
                    && (forall|t: int| n <= t < old(dest)@.len() ==> final(dest)@[t] == old(dest)@[t])
                }),
            }),
    {
        let value = match &self.current {
            Backend::Witness(w) => w.get(key),
            Backend::Unbound => None,
        };
        match value {
            None => u32::MAX,
            Some(v) => {
                let dlen = dest.len();
                let avail: usize = if offset <= v.len() { v.len() - offset } else { 0 };
                let n: usize = if dlen <= avail { dlen } else { avail };
                let mut newd: Vec<u8> = Vec::new();
                let mut t: usize = 0;
                while t < n
                    invariant
                        t <= n,
                        n <= dlen,
                        n != 0 ==> offset + n <= v@.len(),
                        v@.len() <= usize::MAX,
                        newd@.len() == t,
                        forall|s: int| 0 <= s < t ==> newd@[s] == v@[offset + s],
                    decreases n - t,
                {
                    newd.push(v[offset + t]);
                    t = t + 1;
                }
                let mut t2: usize = n;
                while t2 < dlen
                    invariant
                        n <= t2 <= dlen,
                        dlen == dest@.len(),
                        newd@.len() == t2,
                        forall|s: int| 0 <= s < n ==> newd@[s] == v@[offset + s],
                        forall|s: int| n <= s < t2 ==> newd@[s] == dest@[s],
                    decreases dlen - t2,
                {
                    newd.push(dest[t2]);
                    t2 = t2 + 1;
                }
                *dest = newd;
                n as u32
            },
        }
    }

    /// set: record a write; always succeeds.
    pub fn ext_set_storage(&mut self, key: &Vec<u8>, value: &Vec<u8>)
        requires
            is_bound(old(self)),
        ensures
            is_bound(final(self)),
            active_model(final(self)).nodes == active_model(old(self)).nodes,
            active_model(final(self)).root == active_model(old(self)).root,
            active_model(final(self)).overlay == active_model(old(self)).overlay.insert(key@, Some(value@)),
    {
        match &mut self.current {
            Backend::Witness(w) => w.insert(key, value),
            Backend::Unbound => (),
        }
    }

    /// exists: 1 when the key reads as present, 0 otherwise.
    pub fn ext_exists_storage(&self, key: &Vec<u8>) -> (r: u32)
        requires
            is_bound(self),
        ensures
            r == (if get_spec(active_model(self), key@) is Some { 1u32 } else { 0u32 }),
    {
        let present = match &self.current {
            Backend::Witness(w) => w.get(key),
            Backend::Unbound => None,
        };
        if present.is_some() {
            1
        } else {
            0
        }
    }

    /// clear: record a deletion.
    pub fn ext_clear_storage(&mut self, key: &Vec<u8>)
        requires
            is_bound(old(self)),
        ensures
            is_bound(final(self)),
            active_model(final(self)).nodes == active_model(old(self)).nodes,
            active_model(final(self)).root == active_model(old(self)).root,
            active_model(final(self)).overlay == active_model(old(self)).overlay.insert(key@, None),
    {
        match &mut self.current {
            Backend::Witness(w) => w.remove(key),
            Backend::Unbound => (),
        }
    }

    /// compute-root: the 32-byte storage root of the bound view, or the
    /// all-zero sentinel on failure.
    pub fn ext_storage_root(&mut self) -> (r: [u8; 32])
        requires
            is_bound(old(self)),
        ensures
            is_bound(final(self)),
            active_model(final(self)).root == active_model(old(self)).root,
            active_model(final(self)).overlay == empty_delta(),
            active_model(old(self)).overlay == empty_delta()
                ==> active_model(final(self)).nodes == active_model(old(self)).nodes
                    && r@ == clean_root_spec(active_model(old(self))),
            active_model(old(self)).overlay != empty_delta()
                ==> r@ == zero_root()
                    || delta_root_of(
                        active_model(old(self)).nodes,
                        active_model(old(self)).root,
                        active_model(old(self)).overlay,
                    ) == Some(r@),
    {
        match &mut self.current {
            Backend::Witness(w) => w.storage_root(),
            Backend::Unbound => [0u8; 32],
        }
    }
}

/// Validate a proposed block against a witness bundle.
///
/// The pipeline decodes the two payloads, reconstructs the candidate block,
/// checks that it declares the supplied parent, builds the witness-backed
/// storage view, binds it into the slot, invokes the execution routine once,
/// and restores the slot's previous binding whatever the routine did.  The
/// result is exactly the verdict of the first failing step, and the routine
/// runs only when every step passed.
pub fn validate_block<E: ExecuteBlock>(
    routine: &mut E,
    slot: &mut Slot,
    block_data: &Vec<u8>,
    parent_head: &Vec<u8>,
) -> (r: Result<(), ValidationError>)
    ensures
        r == validation_verdict(block_data@, parent_head@),
        final(slot).current == old(slot).current,
        r is Err ==> *final(routine) == *old(routine),
{
    let bd = match decode_block_data(block_data) {
        None => {
            return Err(ValidationError::BlockDataCorrupt);
        },
        Some(x) => x,
    };
    let ph = match decode_parent_header(parent_head) {
        None => {
            return Err(ValidationError::ParentHeadCorrupt);
        },
        Some(x) => x,
    };
    let ph_hash = header_hash(&ph);
    if !bytes32_eq(&ph_hash, &bd.header.parent_hash) {
        return Err(ValidationError::ParentHashMismatch);
    }
    let storage = match WitnessStorage::new(bd.witness, bd.root) {
        Err(_) => {
            return Err(ValidationError::WitnessMismatch);
        },
        Ok(s) => s,
    };
    let block = Block { header: bd.header, extrinsics: bd.extrinsics };
    let mut saved = Backend::Witness(storage);
    core::mem::swap(&mut slot.current, &mut saved);
    routine.execute_block(&block, slot);
    slot.current = saved;
    Ok(())
}

} // verus!
