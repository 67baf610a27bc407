//! Wire format of the validation inputs.
//!
//! The block-data payload carries a header, the extrinsics, the witness
//! bundle and the claimed pre-state root; the parent-head payload carries a
//! header alone.  Lengths and counts are little-endian 32-bit prefixes;
//! headers are two fixed 32-byte fields; trailing bytes after a complete
//! item are ignored, as the wire decoder of the host does.

use vstd::prelude::*;
use vstd::array::ArrayAdditionalExecFns;

verus! {

broadcast use vstd::array::group_array_axioms;

/// A block header: the hash of the parent header and an opaque 32-byte
/// digest standing for the rest of the header fields.
pub struct Header {
    pub parent_hash: [u8; 32],
    pub seal: [u8; 32],
}

/// Spec-level header.
#[verifier::ext_equal]
pub ghost struct HeaderModel {
    pub parent_hash: Seq<u8>,
    pub seal: Seq<u8>,
}

impl View for Header {
    type V = HeaderModel;

    open spec fn view(&self) -> HeaderModel {
        HeaderModel { parent_hash: self.parent_hash@, seal: self.seal@ }
    }
}

/// Decoded block-data payload.
pub struct BlockData {
    pub header: Header,
    pub extrinsics: Vec<Vec<u8>>,
    pub witness: Vec<Vec<u8>>,
    pub root: [u8; 32],
}

/// Spec-level block-data payload.
#[verifier::ext_equal]
pub ghost struct BlockDataModel {
    pub header: HeaderModel,
    pub extrinsics: Seq<Seq<u8>>,
    pub witness: Seq<Seq<u8>>,
    pub root: Seq<u8>,
}

impl View for BlockData {
    type V = BlockDataModel;

    open spec fn view(&self) -> BlockDataModel {
        BlockDataModel {
            header: self.header@,
            extrinsics: self.extrinsics.deep_view(),
            witness: self.witness.deep_view(),
            root: self.root@,
        }
    }
}

/// A candidate block, reconstructed from a decoded payload.
pub struct Block {
    pub header: Header,
    pub extrinsics: Vec<Vec<u8>>,
}

/// Spec-level block.
#[verifier::ext_equal]
pub ghost struct BlockModel {
    pub header: HeaderModel,
    pub extrinsics: Seq<Seq<u8>>,
}

impl View for Block {
    type V = BlockModel;

    open spec fn view(&self) -> BlockModel {
        BlockModel { header: self.header@, extrinsics: self.extrinsics.deep_view() }
    }
}

/// The value of four little-endian bytes.
pub open spec fn four_u32(b0: u8, b1: u8, b2: u8, b3: u8) -> u32 {
    (b0 as int + 256 * (b1 as int) + 65536 * (b2 as int) + 16777216 * (b3 as int)) as u32
}

/// The four little-endian bytes of a 32-bit value.
pub open spec fn u32_bytes(n: u32) -> Seq<u8> {
    seq![
        (n % 256) as u8,
        ((n / 256) % 256) as u8,
        ((n / 65536) % 256) as u8,
        ((n / 16777216) % 256) as u8,
    ]
}

pub open spec fn dec_u32(s: Seq<u8>, pos: int) -> Option<(u32, int)> {
    if 0 <= pos && pos + 4 <= s.len() {
        Some((four_u32(s[pos], s[pos + 1], s[pos + 2], s[pos + 3]), pos + 4))
    } else {
        None
    }
}

pub open spec fn dec_bytes(s: Seq<u8>, pos: int) -> Option<(Seq<u8>, int)> {
    match dec_u32(s, pos) {
        None => None,
        Some((l, p)) => if p + l <= s.len() {
            Some((s.subrange(p, p + l as int), p + l as int))
        } else {
            None
        },
    }
}

pub open spec fn dec_blobs(s: Seq<u8>, pos: int, n: nat) -> Option<(Seq<Seq<u8>>, int)>
    decreases n,
{
    if n == 0 {
        Some((Seq::empty(), pos))
    } else {
        match dec_bytes(s, pos) {
            None => None,
            Some((b, p)) => match dec_blobs(s, p, (n - 1) as nat) {
                None => None,
                Some((rest, e)) => Some((seq![b] + rest, e)),
            },
        }
    }
}

pub open spec fn dec_list(s: Seq<u8>, pos: int) -> Option<(Seq<Seq<u8>>, int)> {
    match dec_u32(s, pos) {
        None => None,
        Some((n, p)) => dec_blobs(s, p, n as nat),
    }
}

pub open spec fn dec_header(s: Seq<u8>, pos: int) -> Option<(HeaderModel, int)> {
    if 0 <= pos && pos + 64 <= s.len() {
        Some((
            HeaderModel {
                parent_hash: s.subrange(pos, pos + 32),
                seal: s.subrange(pos + 32, pos + 64),
            },
            pos + 64,
        ))
    } else {
        None
    }
}

/// What the block-data payload decodes to, if anything.
pub open spec fn dec_block_data(s: Seq<u8>) -> Option<BlockDataModel> {
    match dec_header(s, 0) {
        None => None,
        Some((h, p1)) => match dec_list(s, p1) {
            None => None,
            Some((ex, p2)) => match dec_list(s, p2) {
                None => None,
                Some((w, p3)) => if p3 + 32 <= s.len() {
                    Some(BlockDataModel {
                        header: h,
                        extrinsics: ex,
                        witness: w,
                        root: s.subrange(p3, p3 + 32),
                    })
                } else {
                    None
                },
            },
        },
    }
}

/// What the parent-head payload decodes to, if anything.
pub open spec fn dec_parent_header(s: Seq<u8>) -> Option<HeaderModel> {
    match dec_header(s, 0) {
        None => None,
        Some((h, _)) => Some(h),
    }
}

pub open spec fn enc_header(h: HeaderModel) -> Seq<u8> {
    h.parent_hash + h.seal
}

pub open spec fn enc_bytes(b: Seq<u8>) -> Seq<u8> {
    u32_bytes(b.len() as u32) + b
}

pub open spec fn enc_blobs(l: Seq<Seq<u8>>) -> Seq<u8>
    decreases l.len(),
{
    if l.len() == 0 {
        Seq::empty()
    } else {
        enc_blobs(l.drop_last()) + enc_bytes(l.last())
    }
}

pub open spec fn enc_list(l: Seq<Seq<u8>>) -> Seq<u8> {
    u32_bytes(l.len() as u32) + enc_blobs(l)
}

pub open spec fn enc_block_data(d: BlockDataModel) -> Seq<u8> {
    enc_header(d.header) + enc_list(d.extrinsics) + enc_list(d.witness) + d.root
}

/// Every blob, and the count itself, fits a 32-bit length prefix.
pub open spec fn blobs_fit(l: Seq<Seq<u8>>) -> bool {
    l.len() < 0x1_0000_0000 && forall|i: int| 0 <= i < l.len() ==> #[trigger] l[i].len() < 0x1_0000_0000
}

fn read_u32(data: &Vec<u8>, pos: usize) -> (r: Option<(u32, usize)>)
    ensures
        (match r {
            Some((v, p)) => dec_u32(data@, pos as int) == Some((v, p as int)),
            None => dec_u32(data@, pos as int) is None,
        }),
{
    if data.len() >= 4 && pos <= data.len() - 4 {
        let v: u32 = data[pos] as u32 + 256 * (data[pos + 1] as u32) + 65536 * (data[pos + 2] as u32)
            + 16777216 * (data[pos + 3] as u32);
        Some((v, pos + 4))
    } else {
        None
    }
}

fn read_blob(data: &Vec<u8>, pos: usize) -> (r: Option<(Vec<u8>, usize)>)
    ensures
        (match r {
            Some((b, p)) => dec_bytes(data@, pos as int) == Some((b@, p as int)),
            None => dec_bytes(data@, pos as int) is None,
        }),
{
    match read_u32(data, pos) {
        None => None,
        Some((l, p)) => {
            let len = l as usize;
            if len <= data.len() - p {
                let mut out: Vec<u8> = Vec::new();
                let mut j: usize = 0;
                while j < len
                    invariant
                        j <= len,
                        p + len <= data@.len(),
                        data@.len() <= usize::MAX,
                        out@.len() == j,
                        forall|t: int| 0 <= t < j ==> out@[t] == data@[p + t],
                    decreases len - j,
                {
                    out.push(data[p + j]);
                    j = j + 1;
                }
                proof {
                    assert(out@ =~= data@.subrange(p as int, p as int + l as int));
                }
                Some((out, p + len))
            } else {
                None
            }
        },
    }
}

/// Joins an already-read prefix with the rest of a blob-sequence decode.
pub open spec fn dec_blobs_join(pre: Seq<Seq<u8>>, r: Option<(Seq<Seq<u8>>, int)>) -> Option<(Seq<Seq<u8>>, int)> {
    match r {
        None => None,
        Some((rest, e)) => Some((pre + rest, e)),
    }
}

fn read_list(data: &Vec<u8>, pos: usize) -> (r: Option<(Vec<Vec<u8>>, usize)>)
    ensures
        (match r {
            Some((l, p)) => dec_list(data@, pos as int) == Some((l.deep_view(), p as int)),
            None => dec_list(data@, pos as int) is None,
        }),
{
    match read_u32(data, pos) {
        None => None,
        Some((n, p0)) => {
            let mut acc: Vec<Vec<u8>> = Vec::new();
            let mut cur: usize = p0;
            let mut k: u32 = 0;
            proof {
                assert(dec_blobs(data@, p0 as int, n as nat)
                    == dec_blobs_join(acc.deep_view(), dec_blobs(data@, cur as int, (n - k) as nat)))
                by {
                    let inner = dec_blobs(data@, cur as int, (n - k) as nat);
                    match inner {
                        None => {},
                        Some((rest, e)) => {
                            assert(acc.deep_view() + rest =~= rest);
                        },
                    }
                }
            }
            while k < n
                invariant
                    k <= n,
                    dec_u32(data@, pos as int) == Some((n, p0 as int)),
                    dec_blobs(data@, p0 as int, n as nat)
                        == dec_blobs_join(acc.deep_view(), dec_blobs(data@, cur as int, (n - k) as nat)),
                decreases n - k,
            {
                match read_blob(data, cur) {
                    None => {
                        proof {
                            assert(dec_blobs(data@, cur as int, (n - k) as nat) is None);
                        }
                        return None;
                    },
                    Some((b, p2)) => {
                        proof {
                            let pre = acc.deep_view();
                            let inner = dec_blobs(data@, cur as int, (n - k) as nat);
                            let tail = dec_blobs(data@, p2 as int, (n - k - 1) as nat);
                            assert(b.deep_view() =~= b@);
                            match tail {
                                None => {},
                                Some((rest2, e)) => {
                                    assert(pre + (seq![b@] + rest2) =~= (pre + seq![b@]) + rest2);
                                    assert(acc.deep_view().push(b.deep_view()) =~= pre + seq![b@]);
                                },
                            }
                        }
                        acc.push(b);
                        cur = p2;
                        k = k + 1;
                    },
                }
            }
            proof {
                assert(acc.deep_view() + Seq::<Seq<u8>>::empty() =~= acc.deep_view());
            }
            Some((acc, cur))
        },
    }
}

fn read_header(data: &Vec<u8>, pos: usize) -> (r: Option<(Header, usize)>)
    ensures
        (match r {
            Some((h, p)) => dec_header(data@, pos as int) == Some((h@, p as int)),
            None => dec_header(data@, pos as int) is None,
        }),
{
    if data.len() >= 64 && pos <= data.len() - 64 {
        let mut parent_hash = [0u8; 32];
        let mut seal = [0u8; 32];
        let mut j: usize = 0;
        while j < 32
            invariant
                j <= 32,
                pos + 64 <= data@.len(),
                data@.len() <= usize::MAX,
                forall|t: int| 0 <= t < j ==> parent_hash@[t] == data@[pos + t],
                forall|t: int| 0 <= t < j ==> seal@[t] == data@[pos + 32 + t],
            decreases 32 - j,
        {
            parent_hash[j] = data[pos + j];
            seal[j] = data[pos + 32 + j];
            j = j + 1;
        }
        proof {
            assert(parent_hash@ =~= data@.subrange(pos as int, pos as int + 32));
            assert(seal@ =~= data@.subrange(pos as int + 32, pos as int + 64));
        }
        Some((Header { parent_hash, seal }, pos + 64))
    } else {
        None
    }
}

/// Decode the block-data payload: header, extrinsics, witness bundle and
/// claimed pre-state root; `None` exactly when the payload is malformed.
pub fn decode_block_data(data: &Vec<u8>) -> (r: Option<BlockData>)
    ensures
        (match r {
            Some(bd) => dec_block_data(data@) == Some(bd@),
            None => dec_block_data(data@) is None,
        }),
{
    let (h, p1) = match read_header(data, 0) {
        None => {
            return None;
        },
        Some(x) => x,
    };
    let (ex, p2) = match read_list(data, p1) {
        None => {
            return None;
        },
        Some(x) => x,
    };
    let (w, p3) = match read_list(data, p2) {
        None => {
            return None;
        },
        Some(x) => x,
    };
    if data.len() < 32 || p3 > data.len() - 32 {
        return None;
    }
    let mut root = [0u8; 32];
    let mut j: usize = 0;
    while j < 32
        invariant
            j <= 32,
            p3 + 32 <= data@.len(),
            data@.len() <= usize::MAX,
            forall|t: int| 0 <= t < j ==> root@[t] == data@[p3 + t],
        decreases 32 - j,
    {
        root[j] = data[p3 + j];
        j = j + 1;
    }
    proof {
        assert(root@ =~= data@.subrange(p3 as int, p3 as int + 32));
    }
    Some(BlockData { header: h, extrinsics: ex, witness: w, root })
}

/// Decode the parent-head payload; `None` exactly when it is malformed.
pub fn decode_parent_header(data: &Vec<u8>) -> (r: Option<Header>)
    ensures
        (match r {
            Some(h) => dec_parent_header(data@) == Some(h@),
            None => dec_parent_header(data@) is None,
        }),
{
    match read_header(data, 0) {
        None => None,
        Some((h, _)) => Some(h),
    }
}

pub(crate) fn write_u32(out: &mut Vec<u8>, n: u32)
    ensures
        final(out)@ == old(out)@ + u32_bytes(n),
{
    out.push((n % 256) as u8);
    out.push(((n / 256) % 256) as u8);
    out.push(((n / 65536) % 256) as u8);
    out.push(((n / 16777216) % 256) as u8);
    proof {
        assert(out@ =~= old(out)@ + u32_bytes(n));
    }
}

pub(crate) fn write_blob(out: &mut Vec<u8>, b: &Vec<u8>)
    requires
        b@.len() < 0x1_0000_0000,
    ensures
        final(out)@ == old(out)@ + enc_bytes(b@),
{
    write_u32(out, b.len() as u32);
    let mut j: usize = 0;
    while j < b.len()
        invariant
            j <= b@.len(),
            out@ == old(out)@ + u32_bytes(b@.len() as u32) + b@.take(j as int),
        decreases b@.len() - j,
    {
        out.push(b[j]);
        proof {
            assert(b@.take(j as int + 1) =~= b@.take(j as int).push(b@[j as int]));
            assert(old(out)@ + u32_bytes(b@.len() as u32) + b@.take(j as int + 1)
                =~= (old(out)@ + u32_bytes(b@.len() as u32) + b@.take(j as int)).push(b@[j as int]));
        }
        j = j + 1;
    }
    proof {
        assert(b@.take(b@.len() as int) =~= b@);
        assert(old(out)@ + u32_bytes(b@.len() as u32) + b@ =~= old(out)@ + enc_bytes(b@));
    }
}

pub(crate) fn write_list(out: &mut Vec<u8>, l: &Vec<Vec<u8>>)
    requires
        blobs_fit(l.deep_view()),
    ensures
        final(out)@ == old(out)@ + enc_list(l.deep_view()),
{
    let ghost dv = l.deep_view();
    write_u32(out, l.len() as u32);
    let mut k: usize = 0;
    while k < l.len()
        invariant
            k <= l@.len(),
            dv == l.deep_view(),
            blobs_fit(dv),
            dv.len() == l@.len(),
            out@ == old(out)@ + u32_bytes(dv.len() as u32) + enc_blobs(dv.take(k as int)),
        decreases l@.len() - k,
    {
        proof {
            assert(dv[k as int] == l[k as int].deep_view());
            assert(l[k as int].deep_view() =~= l[k as int]@);
        }
        write_blob(out, &l[k]);
        proof {
            assert(dv.take(k as int + 1).drop_last() =~= dv.take(k as int));
            assert(dv.take(k as int + 1).last() == dv[k as int]);
            assert(old(out)@ + u32_bytes(dv.len() as u32) + enc_blobs(dv.take(k as int)) + enc_bytes(dv[k as int])
                =~= old(out)@ + u32_bytes(dv.len() as u32) + enc_blobs(dv.take(k as int + 1)));
        }
        k = k + 1;
    }
    proof {
        assert(dv.take(dv.len() as int) =~= dv);
        assert(old(out)@ + u32_bytes(dv.len() as u32) + enc_blobs(dv) =~= old(out)@ + enc_list(dv));
    }
}

/// Encode a header: parent hash then seal, 64 bytes.
pub fn encode_header(h: &Header) -> (r: Vec<u8>)
    ensures
        r@ == enc_header(h@),
{
    let mut out: Vec<u8> = Vec::new();
    let mut j: usize = 0;
    while j < 32
        invariant
            j <= 32,
            out@.len() == j,
            forall|t: int| 0 <= t < j ==> out@[t] == h.parent_hash@[t],
        decreases 32 - j,
    {
        out.push(h.parent_hash[j]);
        j = j + 1;
    }
    let mut j2: usize = 0;
    while j2 < 32
        invariant
            j2 <= 32,
            out@.len() == 32 + j2,
            forall|t: int| 0 <= t < 32 ==> out@[t] == h.parent_hash@[t],
            forall|t: int| 0 <= t < j2 ==> out@[32 + t] == h.seal@[t],
        decreases 32 - j2,
    {
        out.push(h.seal[j2]);
        j2 = j2 + 1;
    }
    proof {
        assert(out@ =~= h.parent_hash@ + h.seal@);
    }
    out
}

/// Encode a block-data payload.
pub fn encode_block_data(d: &BlockData) -> (r: Vec<u8>)
    requires
        blobs_fit(d.extrinsics.deep_view()),
        blobs_fit(d.witness.deep_view()),
    ensures
        r@ == enc_block_data(d@),
{
    let mut out = encode_header(&d.header);
    write_list(&mut out, &d.extrinsics);
    write_list(&mut out, &d.witness);
    let mut j: usize = 0;
    let ghost before = out@;
    while j < 32
        invariant
            j <= 32,
            out@.len() == before.len() + j,
            out@.take(before.len() as int) == before,
            forall|t: int| 0 <= t < j ==> out@[before.len() + t] == d.root@[t],
        decreases 32 - j,
    {
        out.push(d.root[j]);
        proof {
            assert(out@.take(before.len() as int) =~= before);
        }
        j = j + 1;
    }
    proof {
        assert(out@ =~= before + d.root@);
        assert(out@ =~= enc_block_data(d@));
    }
    out
}

/// A header's fields have their fixed widths.
pub open spec fn header_fits(h: HeaderModel) -> bool {
    h.parent_hash.len() == 32 && h.seal.len() == 32
}

/// A block-data value that the encoder accepts.
pub open spec fn block_data_fits(d: BlockDataModel) -> bool {
    header_fits(d.header) && blobs_fit(d.extrinsics) && blobs_fit(d.witness) && d.root.len() == 32
}

pub proof fn lemma_u32_round(n: u32)
    ensures
        four_u32(u32_bytes(n)[0], u32_bytes(n)[1], u32_bytes(n)[2], u32_bytes(n)[3]) == n,
{
    assert(n % 256 + 256 * ((n / 256) % 256) + 65536 * ((n / 65536) % 256) + 16777216 * ((n
        / 16777216) % 256) == n) by (bit_vector);
}

pub proof fn lemma_dec_u32_at(pre: Seq<u8>, n: u32, tail: Seq<u8>)
    ensures
        dec_u32(pre + u32_bytes(n) + tail, pre.len() as int) == Some((n, pre.len() as int + 4)),
{
    let s = pre + u32_bytes(n) + tail;
    assert(s[pre.len() as int] == u32_bytes(n)[0]);
    assert(s[pre.len() as int + 1] == u32_bytes(n)[1]);
    assert(s[pre.len() as int + 2] == u32_bytes(n)[2]);
    assert(s[pre.len() as int + 3] == u32_bytes(n)[3]);
    lemma_u32_round(n);
}

pub proof fn lemma_dec_bytes_at(pre: Seq<u8>, b: Seq<u8>, tail: Seq<u8>)
    requires
        b.len() < 0x1_0000_0000,
    ensures
        dec_bytes(pre + enc_bytes(b) + tail, pre.len() as int)
            == Some((b, pre.len() as int + 4 + b.len())),
{
    let s = pre + enc_bytes(b) + tail;
    assert(s =~= pre + u32_bytes(b.len() as u32) + (b + tail));
    lemma_dec_u32_at(pre, b.len() as u32, b + tail);
    assert(s.subrange(pre.len() as int + 4, pre.len() as int + 4 + b.len() as int) =~= b);
}

pub proof fn lemma_enc_blobs_first(l: Seq<Seq<u8>>)
    requires
        l.len() > 0,
    ensures
        enc_blobs(l) == enc_bytes(l[0]) + enc_blobs(l.drop_first()),
    decreases l.len(),
{
    if l.len() == 1 {
        assert(l.drop_last() =~= Seq::<Seq<u8>>::empty());
        assert(l.drop_first() =~= Seq::<Seq<u8>>::empty());
        assert(enc_blobs(l) =~= enc_bytes(l[0]) + enc_blobs(l.drop_first()));
    } else {
        let m = l.drop_last();
        lemma_enc_blobs_first(m);
        assert(l.drop_first().drop_last() =~= m.drop_first());
        assert(l.drop_first().last() == l.last());
        assert(enc_blobs(l.drop_first()) == enc_blobs(m.drop_first()) + enc_bytes(l.last()));
        assert(enc_blobs(l) =~= enc_bytes(l[0]) + enc_blobs(l.drop_first()));
    }
}

#[verifier::rlimit(100)]
pub proof fn lemma_dec_blobs_at(pre: Seq<u8>, l: Seq<Seq<u8>>, tail: Seq<u8>)
    requires
        blobs_fit(l),
    ensures
        dec_blobs(pre + enc_blobs(l) + tail, pre.len() as int, l.len())
            == Some((l, pre.len() as int + enc_blobs(l).len())),
    decreases l.len(),
{
    let s = pre + enc_blobs(l) + tail;
    if l.len() == 0 {
        assert(l =~= Seq::<Seq<u8>>::empty());
        assert(enc_blobs(l) =~= Seq::<u8>::empty());
    } else {
        lemma_enc_blobs_first(l);
        let first = l[0];
        let rest = l.drop_first();
        assert forall|i: int| 0 <= i < rest.len() implies #[trigger] rest[i].len()
            < 0x1_0000_0000 by {
            assert(rest[i] == l[i + 1]);
        }
        assert(s =~= pre + enc_bytes(first) + (enc_blobs(rest) + tail));
        lemma_dec_bytes_at(pre, first, enc_blobs(rest) + tail);
        let pre2 = pre + enc_bytes(first);
        assert(enc_bytes(first).len() == 4 + first.len());
        assert(dec_bytes(s, pre.len() as int) == Some((first, pre2.len() as int)));
        assert(s =~= pre2 + enc_blobs(rest) + tail);
        lemma_dec_blobs_at(pre2, rest, tail);
        assert(dec_blobs(s, pre2.len() as int, rest.len())
            == Some((rest, pre2.len() as int + enc_blobs(rest).len())));
        assert(rest.len() == (l.len() - 1) as nat);
        assert(seq![first] + rest =~= l);
        assert(pre2.len() as int + enc_blobs(rest).len() == pre.len() as int + enc_blobs(
            l,
        ).len());
    }
}

pub proof fn lemma_dec_list_at(pre: Seq<u8>, l: Seq<Seq<u8>>, tail: Seq<u8>)
    requires
        blobs_fit(l),
    ensures
        dec_list(pre + enc_list(l) + tail, pre.len() as int)
            == Some((l, pre.len() as int + enc_list(l).len())),
{
    let s = pre + enc_list(l) + tail;
    assert(s =~= pre + u32_bytes(l.len() as u32) + (enc_blobs(l) + tail));
    lemma_dec_u32_at(pre, l.len() as u32, enc_blobs(l) + tail);
    let pre2 = pre + u32_bytes(l.len() as u32);
    assert(s =~= pre2 + enc_blobs(l) + tail);
    lemma_dec_blobs_at(pre2, l, tail);
    assert((l.len() as u32) as nat == l.len());
}

pub proof fn lemma_dec_header_at(pre: Seq<u8>, h: HeaderModel, tail: Seq<u8>)
    requires
        header_fits(h),
    ensures
        dec_header(pre + enc_header(h) + tail, pre.len() as int)
            == Some((h, pre.len() as int + 64)),
{
    let s = pre + enc_header(h) + tail;
    assert(s.subrange(pre.len() as int, pre.len() as int + 32) =~= h.parent_hash);
    assert(s.subrange(pre.len() as int + 32, pre.len() as int + 64) =~= h.seal);
    assert(dec_header(s, pre.len() as int)->Some_0.0 =~= h);
}

/// Round trip: an encoded parent-head payload, with any trailing bytes,
/// decodes back to the same header.
pub proof fn lemma_parent_header_round_trip(h: HeaderModel, tail: Seq<u8>)
    requires
        header_fits(h),
    ensures
        dec_parent_header(enc_header(h) + tail) == Some(h),
{
    assert(enc_header(h) + tail =~= Seq::<u8>::empty() + enc_header(h) + tail);
    lemma_dec_header_at(Seq::empty(), h, tail);
}

/// Round trip: an encoded block-data payload, with any trailing bytes,
/// decodes back to the same value.
#[verifier::rlimit(100)]
pub proof fn lemma_block_data_round_trip(d: BlockDataModel, tail: Seq<u8>)
    requires
        block_data_fits(d),
    ensures
        dec_block_data(enc_block_data(d) + tail) == Some(d),
{
    let s = enc_block_data(d) + tail;
    let e_h = enc_header(d.header);
    let e_ex = enc_list(d.extrinsics);
    let e_w = enc_list(d.witness);
    assert(s =~= Seq::<u8>::empty() + e_h + (e_ex + (e_w + (d.root + tail))));
    lemma_dec_header_at(Seq::empty(), d.header, e_ex + (e_w + (d.root + tail)));
    assert(dec_header(s, 0) == Some((d.header, 64int)));
    assert(e_h.len() == 64);
    assert(s =~= e_h + e_ex + (e_w + (d.root + tail)));
    lemma_dec_list_at(e_h, d.extrinsics, e_w + (d.root + tail));
    assert(dec_list(s, 64) == Some((d.extrinsics, 64 + e_ex.len() as int)));
    assert(s =~= (e_h + e_ex) + e_w + (d.root + tail));
    lemma_dec_list_at(e_h + e_ex, d.witness, d.root + tail);
    let p3 = 64 + e_ex.len() as int + e_w.len();
    assert(dec_list(s, 64 + e_ex.len() as int) == Some((d.witness, p3)));
    assert(p3 + 32 <= s.len());
    assert(s.subrange(p3, p3 + 32) =~= d.root);
    assert(dec_block_data(s)->Some_0 =~= d);
}

} // verus!
