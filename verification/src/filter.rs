use vstd::prelude::*;

use vstd::string::StringSliceAdditionalSpecFns;

use crate::bitset::BitSet;
use crate::bitset::spec_bit;
use crate::hash::HashStrategy;

verus! {

/// Whether a bit array `bits` of size `m` has all `k` hash positions of
/// the byte string `bytes` set: the membership test of the filter.
pub open spec fn spec_contains_bits(bits: Seq<bool>, bytes: Seq<u8>, k: nat, m: nat) -> bool {
    forall|j: int| 0 <= j < k ==> bits[#[trigger] HashStrategy::spec_position(bytes, j, m as int)]
}

/// Whether `t` is one of the `k` hash positions of `bytes` in a bit array
/// of size `m`.
pub open spec fn spec_is_position(bytes: Seq<u8>, t: int, k: nat, m: nat) -> bool {
    exists|j: int| 0 <= j < k && #[trigger] HashStrategy::spec_position(bytes, j, m as int) == t
}

/// The bit array `bits` after inserting `bytes`: every hash position of
/// `bytes` is set, every other bit is unchanged.
pub open spec fn spec_insert_bits(bits: Seq<bool>, bytes: Seq<u8>, k: nat, m: nat) -> Seq<bool> {
    Seq::new(bits.len(), |t: int| bits[t] || spec_is_position(bytes, t, k, m))
}

/// A bit-array membership filter: `insert` sets the hash positions of a
/// name, `lookup` tests them. A lookup may report a name that was never
/// inserted (a false positive, at the configured rate), but a name that
/// was inserted always tests positive (never a false negative). The bit
/// count `m` and hash count `k` are fixed for the lifetime of the filter;
/// changing either would invalidate the encoding of everything inserted.
pub struct MembershipFilter {
    bit_set: BitSet,
    num_hashes: usize,
    expected_elements: usize,
    size: usize,
    insert_count: u64,
}

impl MembershipFilter {
    /// The bits of the filter.
    pub closed spec fn spec_bits(&self) -> Seq<bool> {
        self.bit_set@
    }

    /// The packed bytes of the bit array, as a snapshot stores them.
    pub closed spec fn spec_byte_view(&self) -> Seq<u8> {
        self.bit_set.spec_bytes()
    }

    /// The bit count `m`.
    pub closed spec fn spec_size(&self) -> nat {
        self.size as nat
    }

    /// The hash count `k`.
    pub closed spec fn spec_num_hashes(&self) -> nat {
        self.num_hashes as nat
    }

    /// The expected element count `n` the filter was sized for.
    pub closed spec fn spec_expected_elements(&self) -> nat {
        self.expected_elements as nat
    }

    /// How many inserts were performed, duplicates included.
    pub closed spec fn spec_insert_count(&self) -> u64 {
        self.insert_count
    }

    /// The padding invariant of the packed bit array.
    pub closed spec fn inv_bytes(&self) -> bool {
        self.bit_set.wf()
    }

    /// Well-formedness: at least one bit and one hash, and a bit array of
    /// exactly the stated size.
    pub open spec fn wf(&self) -> bool {
        &&& self.inv_bytes()
        &&& self.spec_bits().len() == self.spec_size()
        &&& 1 <= self.spec_size() <= usize::MAX - 7
        &&& 1 <= self.spec_num_hashes() <= usize::MAX
    }

    /// The membership test over this filter's bits.
    pub open spec fn spec_contains(&self, bytes: Seq<u8>) -> bool {
        spec_contains_bits(self.spec_bits(), bytes, self.spec_num_hashes(), self.spec_size())
    }

    /// The relation between the packed bytes and the bits.
    pub proof fn lemma_byte_view(&self)
        requires
            self.wf(),
        ensures
            self.spec_byte_view().len() == (self.spec_size() + 7) / 8,
            forall|i: int|
                0 <= i < self.spec_size() ==> self.spec_bits()[i] == spec_bit(
                    self.spec_byte_view(),
                    i,
                ),
    {
        self.bit_set.lemma_wf_facts();
    }

    /// Creates an empty filter of `size` bits and `num_hashes` hash
    /// functions, sized for `expected_elements` elements.
    pub fn with_params(size: usize, num_hashes: usize, expected_elements: usize) -> (f: Self)
        requires
            1 <= size <= usize::MAX - 7,
            1 <= num_hashes,
        ensures
            f.wf(),
            f.spec_size() == size,
            f.spec_num_hashes() == num_hashes,
            f.spec_expected_elements() == expected_elements,
            f.spec_insert_count() == 0,
            f.spec_bits().len() == size,
            forall|i: int| 0 <= i < size ==> !f.spec_bits()[i],
    {
        MembershipFilter {
            bit_set: BitSet::new(size),
            num_hashes,
            expected_elements,
            size,
            insert_count: 0,
        }
    }

    /// Reconstructs a filter from the fields a snapshot records: the bit
    /// count, the hash count and the packed bit bytes. The expected
    /// element count is not part of a snapshot and is supplied by the
    /// running configuration. The insert counter restarts at zero.
    pub fn from_snapshot(
        size: usize,
        num_hashes: usize,
        expected_elements: usize,
        bytes: Vec<u8>,
    ) -> (f: Self)
        requires
            1 <= size <= usize::MAX - 7,
            1 <= num_hashes,
            bytes@.len() == (size + 7) / 8,
        ensures
            f.wf(),
            f.spec_size() == size,
            f.spec_num_hashes() == num_hashes,
            f.spec_expected_elements() == expected_elements,
            f.spec_insert_count() == 0,
            forall|i: int| 0 <= i < size ==> f.spec_bits()[i] == spec_bit(bytes@, i),
    {
        MembershipFilter {
            bit_set: BitSet::from_bytes(bytes, size),
            num_hashes,
            expected_elements,
            size,
            insert_count: 0,
        }
    }

    /// The packed bytes of the bit array, for snapshotting.
    pub fn bit_bytes(&self) -> (r: Vec<u8>)
        requires
            self.wf(),
        ensures
            r@ == self.spec_byte_view(),
    {
        self.bit_set.to_bytes()
    }

    /// Sets all hash positions of `s`. Idempotent on the bits; always
    /// succeeds; counts every call, duplicates included, saturating at
    /// the counter's maximum.
    #[verifier::loop_isolation(false)]
    pub fn insert(&mut self, s: &str)
        requires
            old(self).wf(),
        ensures
            final(self).wf(),
            final(self).spec_size() == old(self).spec_size(),
            final(self).spec_num_hashes() == old(self).spec_num_hashes(),
            final(self).spec_expected_elements() == old(self).spec_expected_elements(),
            final(self).spec_insert_count() == old(self).spec_insert_count().saturating_add(1),
            final(self).spec_bits() == spec_insert_bits(
                old(self).spec_bits(),
                s.spec_bytes(),
                old(self).spec_num_hashes(),
                old(self).spec_size(),
            ),
            final(self).spec_contains(s.spec_bytes()),
    {
        let ghost old_bits = self.bit_set@;
        let ghost bs = s.spec_bytes();
        let ghost k = self.num_hashes as nat;
        let ghost m = self.size as nat;
        let bytes: &[u8] = s.as_bytes();
        let positions: Vec<usize> = HashStrategy::positions(bytes, self.num_hashes, self.size);
        let mut j: usize = 0;
        proof {
            assert(self.bit_set@ =~= spec_insert_bits(old_bits, bs, 0, m));
        }
        while j < self.num_hashes
            invariant
                j <= self.num_hashes,
                self.num_hashes == k,
                self.size == m,
                self.expected_elements == old(self).expected_elements,
                self.insert_count == old(self).insert_count,
                self.bit_set.wf(),
                self.bit_set@.len() == m,
                1 <= m <= usize::MAX - 7,
                positions@.len() == k,
                forall|q: int|
                    0 <= q < k ==> positions@[q] as int == #[trigger] HashStrategy::spec_position(
                        bs,
                        q,
                        m as int,
                    ),
                forall|q: int| 0 <= q < k ==> positions@[q] < m,
                self.bit_set@ == spec_insert_bits(old_bits, bs, j as nat, m),
                old_bits.len() == m,
            decreases self.num_hashes - j,
        {
            let ghost prev = self.bit_set@;
            let pos: usize = positions[j];
            // Every position is below the bit count, so the set cannot
            // fail with an index error.
            let _ = self.bit_set.set(pos);
            proof {
                assert forall|t: int| 0 <= t < m implies self.bit_set@[t] == (old_bits[t]
                    || spec_is_position(bs, t, (j + 1) as nat, m)) by {
                    if t == pos {
                        assert(HashStrategy::spec_position(bs, j as int, m as int) == t);
                        assert(spec_is_position(bs, t, (j + 1) as nat, m));
                    } else {
                        assert(self.bit_set@[t] == prev[t]);
                        if spec_is_position(bs, t, (j + 1) as nat, m) {
                            let q = choose|q: int|
                                0 <= q < j + 1 && #[trigger] HashStrategy::spec_position(
                                    bs,
                                    q,
                                    m as int,
                                ) == t;
                            assert(q < j);
                            assert(spec_is_position(bs, t, j as nat, m));
                        }
                        if spec_is_position(bs, t, j as nat, m) {
                            let q = choose|q: int|
                                0 <= q < j && #[trigger] HashStrategy::spec_position(
                                    bs,
                                    q,
                                    m as int,
                                ) == t;
                            assert(spec_is_position(bs, t, (j + 1) as nat, m));
                        }
                    }
                }
                assert(self.bit_set@ =~= spec_insert_bits(old_bits, bs, (j + 1) as nat, m));
            }
            j = j + 1;
        }
        self.insert_count = self.insert_count.saturating_add(1);
        proof {
            assert forall|q: int| 0 <= q < k implies self.bit_set@[#[trigger] HashStrategy::spec_position(
                bs,
                q,
                m as int,
            )] by {
                let t = HashStrategy::spec_position(bs, q, m as int);
                assert(positions@[q] as int == t);
                assert(0 <= t < m);
                assert(spec_is_position(bs, t, k, m));
            }
        }
    }

    /// Tests all hash positions of `s`: true exactly when every one is
    /// set. A name previously inserted into this filter (or into one this
    /// filter was restored from, byte for byte) always tests positive.
    #[verifier::loop_isolation(false)]
    pub fn lookup(&self, s: &str) -> (r: bool)
        requires
            self.wf(),
        ensures
            r == self.spec_contains(s.spec_bytes()),
    {
        let ghost bs = s.spec_bytes();
        let ghost k = self.num_hashes as nat;
        let ghost m = self.size as nat;
        let bytes: &[u8] = s.as_bytes();
        let positions: Vec<usize> = HashStrategy::positions(bytes, self.num_hashes, self.size);
        let mut j: usize = 0;
        while j < self.num_hashes
            invariant
                j <= self.num_hashes,
                self.num_hashes == k,
                self.size == m,
                self.wf(),
                positions@.len() == k,
                forall|q: int|
                    0 <= q < k ==> positions@[q] as int == #[trigger] HashStrategy::spec_position(
                        bs,
                        q,
                        m as int,
                    ),
                forall|q: int| 0 <= q < k ==> positions@[q] < m,
                forall|q: int|
                    0 <= q < j ==> self.spec_bits()[#[trigger] HashStrategy::spec_position(
                        bs,
                        q,
                        m as int,
                    )],
            decreases self.num_hashes - j,
        {
            let pos: usize = positions[j];
            // Every position is below the bit count, so the test cannot
            // fail with an index error.
            match self.bit_set.test(pos) {
                Ok(b) => {
                    if !b {
                        proof {
                            assert(!self.spec_bits()[HashStrategy::spec_position(
                                bs,
                                j as int,
                                m as int,
                            )]);
                        }
                        return false;
                    }
                },
                Err(_) => {
                    proof {
                        assert(false);
                    }
                },
            }
            j = j + 1;
        }
        true
    }

    /// The bit count `m`.
    pub fn size(&self) -> (r: usize)
        ensures
            r == self.spec_size(),
    {
        self.size
    }

    /// The hash count `k`.
    pub fn hash_count(&self) -> (r: usize)
        ensures
            r == self.spec_num_hashes(),
    {
        self.num_hashes
    }

    /// The expected element count `n` the filter was sized for.
    pub fn expected_elements(&self) -> (r: usize)
        ensures
            r == self.spec_expected_elements(),
    {
        self.expected_elements
    }

    /// How many inserts were performed, duplicates included. An estimate
    /// of the current false-positive rate, `(1 - e^(-k*c/m))^k` for `c`
    /// inserts, can be computed from this count together with `size` and
    /// `hash_count`.
    pub fn insert_count(&self) -> (r: u64)
        ensures
            r == self.spec_insert_count(),
    {
        self.insert_count
    }
}

} // verus!
