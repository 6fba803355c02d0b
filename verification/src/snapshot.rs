use vstd::bytes::lemma_auto_spec_u64_to_from_le_bytes;
use vstd::bytes::spec_u64_from_le_bytes;
use vstd::bytes::spec_u64_to_le_bytes;
use vstd::bytes::u64_from_le_bytes;
use vstd::bytes::u64_to_le_bytes;
use vstd::prelude::*;
use vstd::slice::slice_subrange;
use vstd::slice::slice_to_vec;

use crate::bitset::spec_bit;
use crate::error::SnapshotError;
use crate::filter::MembershipFilter;

verus! {

/// The wire format of a snapshot: the bit count `m` as a little-endian
/// `u64`, the hash count `k` as a little-endian `u64`, then the
/// `ceil(m / 8)` packed bit bytes, bit `i` stored in byte `i / 8` at bit
/// `i % 8` from the least significant end.
pub open spec fn spec_encode(f: MembershipFilter) -> Seq<u8> {
    spec_u64_to_le_bytes(f.spec_size() as u64) + spec_u64_to_le_bytes(f.spec_num_hashes() as u64)
        + f.spec_byte_view()
}

/// The bit count a snapshot records.
pub open spec fn spec_snapshot_size(bytes: Seq<u8>) -> int {
    spec_u64_from_le_bytes(bytes.subrange(0, 8)) as int
}

/// The hash count a snapshot records.
pub open spec fn spec_snapshot_hashes(bytes: Seq<u8>) -> int {
    spec_u64_from_le_bytes(bytes.subrange(8, 16)) as int
}

/// Whether snapshot bytes are acceptable: a full header, nonzero
/// dimensions that fit the machine, and exactly `16 + ceil(m / 8)` bytes
/// in all. Anything else is corrupt.
pub open spec fn spec_snapshot_ok(bytes: Seq<u8>) -> bool {
    &&& bytes.len() >= 16
    &&& 1 <= spec_snapshot_size(bytes) <= usize::MAX - 7
    &&& 1 <= spec_snapshot_hashes(bytes) <= usize::MAX
    &&& bytes.len() == 16 + (spec_snapshot_size(bytes) + 7) / 8
}

/// Serializes a filter to its byte-exact snapshot form and restores a
/// filter from one. Reading and writing the snapshot file itself is the
/// caller's concern; the store defines what the bytes mean.
pub struct SnapshotStore;

impl SnapshotStore {
    /// Serializes `filter` in the fixed wire order: `m`, then `k`, then
    /// the raw bit-array bytes.
    pub fn encode(filter: &MembershipFilter) -> (out: Vec<u8>)
        requires
            filter.wf(),
        ensures
            out@ == spec_encode(*filter),
    {
        let mut out: Vec<u8> = u64_to_le_bytes(filter.size() as u64);
        let mut k_bytes: Vec<u8> = u64_to_le_bytes(filter.hash_count() as u64);
        out.append(&mut k_bytes);
        let mut bit_bytes: Vec<u8> = filter.bit_bytes();
        out.append(&mut bit_bytes);
        out
    }

    /// Restores a filter from snapshot bytes, failing with
    /// `CorruptError` when the bytes are shorter than the header, record
    /// a zero or unrepresentable dimension, or do not hold exactly
    /// `ceil(m / 8)` bit bytes. The caller supplies the expected element
    /// count of its own configuration; a missing snapshot file is the
    /// caller's `NotFoundError`, decided before the bytes exist.
    pub fn decode(bytes: &[u8], expected_elements: usize) -> (r: Result<
        MembershipFilter,
        SnapshotError,
    >)
        ensures
            spec_snapshot_ok(bytes@) ==> (r matches Ok(f) && f.wf() && f.spec_size()
                == spec_snapshot_size(bytes@) && f.spec_num_hashes() == spec_snapshot_hashes(
                bytes@,
            ) && f.spec_expected_elements() == expected_elements && f.spec_insert_count() == 0 && (
            forall|i: int|
                0 <= i < f.spec_size() ==> f.spec_bits()[i] == spec_bit(bytes@.skip(16), i))),
            !spec_snapshot_ok(bytes@) ==> r == Err::<MembershipFilter, SnapshotError>(
                SnapshotError::CorruptError,
            ),
    {
        if bytes.len() < 16 {
            return Err(SnapshotError::CorruptError);
        }
        let m64: u64 = u64_from_le_bytes(slice_subrange(bytes, 0, 8));
        let k64: u64 = u64_from_le_bytes(slice_subrange(bytes, 8, 16));
        if m64 == 0 || k64 == 0 {
            return Err(SnapshotError::CorruptError);
        }
        if m64 > (usize::MAX - 7) as u64 {
            return Err(SnapshotError::CorruptError);
        }
        if k64 > usize::MAX as u64 {
            return Err(SnapshotError::CorruptError);
        }
        let m: usize = m64 as usize;
        let k: usize = k64 as usize;
        let n_bytes: usize = (m + 7) / 8;
        if bytes.len() - 16 != n_bytes {
            return Err(SnapshotError::CorruptError);
        }
        let payload: Vec<u8> = slice_to_vec(slice_subrange(bytes, 16, bytes.len()));
        proof {
            assert(payload@ =~= bytes@.skip(16));
        }
        Ok(MembershipFilter::from_snapshot(m, k, expected_elements, payload))
    }
}

/// Encoding always decodes: the snapshot of a well-formed filter is
/// acceptable, records the filter's exact dimensions, and carries its
/// exact bit bytes.
pub proof fn lemma_encode_decodes(f: MembershipFilter)
    requires
        f.wf(),
    ensures
        spec_snapshot_ok(spec_encode(f)),
        spec_snapshot_size(spec_encode(f)) == f.spec_size(),
        spec_snapshot_hashes(spec_encode(f)) == f.spec_num_hashes(),
        spec_encode(f).skip(16) == f.spec_byte_view(),
{
    lemma_auto_spec_u64_to_from_le_bytes();
    f.lemma_byte_view();
    let enc = spec_encode(f);
    assert(enc.subrange(0, 8) =~= spec_u64_to_le_bytes(f.spec_size() as u64));
    assert(enc.subrange(8, 16) =~= spec_u64_to_le_bytes(f.spec_num_hashes() as u64));
    assert(enc.skip(16) =~= f.spec_byte_view());
}

/// Round trip: a filter restored from the snapshot of a saved filter
/// answers every lookup exactly as the saved filter did, so everything
/// inserted before saving still tests positive after loading. The
/// premises are precisely what decoding an encoded well-formed filter
/// guarantees.
pub proof fn lemma_snapshot_round_trip(f: MembershipFilter, g: MembershipFilter)
    requires
        f.wf(),
        g.wf(),
        g.spec_size() == f.spec_size(),
        g.spec_num_hashes() == f.spec_num_hashes(),
        forall|i: int|
            0 <= i < g.spec_size() ==> g.spec_bits()[i] == spec_bit(spec_encode(f).skip(16), i),
    ensures
        forall|s: Seq<u8>| g.spec_contains(s) == f.spec_contains(s),
{
    lemma_encode_decodes(f);
    f.lemma_byte_view();
    assert(g.spec_bits() =~= f.spec_bits());
}

} // verus!
