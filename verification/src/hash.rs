use vstd::prelude::*;

verus! {

/// FNV-1a 64-bit offset basis, the seed of the first base hash.
pub const FNV_OFFSET: u64 = 0xcbf2_9ce4_8422_2325;

/// FNV-1a 64-bit prime.
pub const FNV_PRIME: u64 = 0x0000_0100_0000_01b3;

/// One FNV-1a pass over `bytes` starting from `acc`: each byte is folded
/// in by xor followed by a wrapping multiply with the FNV prime.
pub open spec fn spec_fnv1a(bytes: Seq<u8>, acc: u64) -> u64
    decreases bytes.len(),
{
    if bytes.len() == 0 {
        acc
    } else {
        spec_fnv1a(bytes.drop_first(), (acc ^ (bytes[0] as u64)).wrapping_mul(FNV_PRIME))
    }
}

/// The first base hash: FNV-1a from the standard offset basis.
pub open spec fn spec_h1(bytes: Seq<u8>) -> u64 {
    spec_fnv1a(bytes, FNV_OFFSET)
}

/// The second base hash: FNV-1a re-run over the same bytes, seeded with
/// the first hash instead of the offset basis.
pub open spec fn spec_h2(bytes: Seq<u8>) -> u64 {
    spec_fnv1a(bytes, spec_h1(bytes))
}

/// A deterministic family of hash functions over a byte string, combined
/// by double hashing: position `j` is `(h1 + j * h2) mod m`, with the
/// inner sum wrapping at 64 bits. The same bytes, count and size always
/// give the same positions, across runs and machines, which the
/// no-false-negative guarantee of the filter relies on after restarts
/// and snapshot reloads.
pub struct HashStrategy;

impl HashStrategy {
    /// Bit position number `j` for the byte string `bytes` in a bit array
    /// of size `m`.
    pub open spec fn spec_position(bytes: Seq<u8>, j: int, m: int) -> int
        recommends
            m >= 1,
    {
        (spec_h1(bytes).wrapping_add((j as u64).wrapping_mul(spec_h2(bytes))) as int) % m
    }

    /// Computes positions `0 .. k` for `bytes` in a bit array of size `m`.
    pub fn positions(bytes: &[u8], k: usize, m: usize) -> (r: Vec<usize>)
        requires
            m >= 1,
        ensures
            r@.len() == k,
            forall|j: int|
                0 <= j < k ==> r@[j] as int == #[trigger] Self::spec_position(
                    bytes@,
                    j,
                    m as int,
                ),
            forall|j: int| 0 <= j < k ==> r@[j] < m,
    {
        let h1: u64 = fnv1a(bytes, FNV_OFFSET);
        let h2: u64 = fnv1a(bytes, h1);
        let mut r: Vec<usize> = Vec::new();
        let mut j: usize = 0;
        while j < k
            invariant
                j <= k,
                m >= 1,
                h1 == spec_h1(bytes@),
                h2 == spec_h2(bytes@),
                r@.len() == j,
                forall|q: int|
                    0 <= q < j ==> r@[q] as int == #[trigger] Self::spec_position(
                        bytes@,
                        q,
                        m as int,
                    ),
                forall|q: int| 0 <= q < j ==> r@[q] < m,
            decreases k - j,
        {
            let mixed: u64 = h1.wrapping_add((j as u64).wrapping_mul(h2));
            let pos: u64 = mixed % (m as u64);
            r.push(pos as usize);
            j = j + 1;
        }
        r
    }
}

/// Computes the FNV-1a hash of `bytes` from the seed `acc`.
fn fnv1a(bytes: &[u8], acc: u64) -> (h: u64)
    ensures
        h == spec_fnv1a(bytes@, acc),
{
    let n: usize = bytes.len();
    let mut h: u64 = acc;
    let mut i: usize = 0;
    proof {
        assert(bytes@.skip(0) =~= bytes@);
    }
    while i < n
        invariant
            i <= n,
            n == bytes@.len(),
            spec_fnv1a(bytes@, acc) == spec_fnv1a(bytes@.skip(i as int), h),
        decreases n - i,
    {
        let b: u8 = bytes[i];
        proof {
            assert(bytes@.skip(i as int).drop_first() =~= bytes@.skip(i as int + 1));
            assert(bytes@.skip(i as int)[0] == bytes@[i as int]);
        }
        h = (h ^ (b as u64)).wrapping_mul(FNV_PRIME);
        i = i + 1;
    }
    proof {
        assert(bytes@.skip(n as int) =~= Seq::<u8>::empty());
    }
    h
}

} // verus!
