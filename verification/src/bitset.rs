use vstd::prelude::*;

use crate::error::FilterError;

verus! {

/// Whether bit `i` of the packed byte sequence `bytes` is set. Bit `i`
/// lives in byte `i / 8` at position `i % 8`, counted from the least
/// significant bit; this packing is also the on-disk snapshot layout.
pub open spec fn spec_bit(bytes: Seq<u8>, i: int) -> bool {
    (bytes[i / 8] >> ((i % 8) as u8)) & 1u8 == 1u8
}

/// A fixed-length array of bits backed by packed bytes. The length is set
/// at construction and never changes; each bit can be set and read in
/// constant time. The structure is raw: safe concurrent use is the
/// guard's responsibility, not the bit set's.
pub struct BitSet {
    bytes: Vec<u8>,
    num_bits: usize,
}

impl View for BitSet {
    type V = Seq<bool>;

    closed spec fn view(&self) -> Seq<bool> {
        Seq::new(self.num_bits as nat, |i: int| spec_bit(self.bytes@, i))
    }
}

/// Anding a byte with the mask of the `rs` low bits keeps bits below
/// `rs` and clears the rest.
proof fn lemma_mask_bit(b: u8, rs: u8, j: u8)
    requires
        rs < 8,
        j < 8,
    ensures
        ((b & (((1u8 << rs) - 1) as u8)) >> j) & 1u8 == (if j < rs {
            (b >> j) & 1u8
        } else {
            0u8
        }),
{
    assert(((b & (((1u8 << rs) - 1) as u8)) >> j) & 1u8 == (if j < rs {
        (b >> j) & 1u8
    } else {
        0u8
    })) by (bit_vector)
        requires
            rs < 8,
            j < 8,
    ;
}

impl BitSet {
    /// The packed bytes, exactly as a snapshot stores them.
    pub closed spec fn spec_bytes(&self) -> Seq<u8> {
        self.bytes@
    }

    /// Exactly `ceil(len / 8)` bytes are held and every bit at or above
    /// `len` is zero, so equal bit views mean equal packed bytes.
    pub closed spec fn wf(&self) -> bool {
        &&& self.num_bits <= usize::MAX - 7
        &&& self.bytes@.len() == (self.num_bits + 7) / 8
        &&& forall|i: int|
            self.num_bits <= i < self.bytes@.len() * 8 ==> !spec_bit(self.bytes@, i)
    }

    pub proof fn lemma_wf_facts(&self)
        requires
            self.wf(),
        ensures
            self@.len() <= usize::MAX - 7,
            self.spec_bytes().len() == (self@.len() + 7) / 8,
            forall|i: int| 0 <= i < self@.len() ==> self@[i] == spec_bit(self.spec_bytes(), i),
    {
    }

    /// Allocates `num_bits` bits, all zero.
    pub fn new(num_bits: usize) -> (s: Self)
        requires
            num_bits <= usize::MAX - 7,
        ensures
            s.wf(),
            s@.len() == num_bits,
            forall|i: int| 0 <= i < num_bits ==> !s@[i],
    {
        let n_bytes: usize = (num_bits + 7) / 8;
        let bytes: Vec<u8> = vec![0u8; n_bytes];
        let s = BitSet { bytes, num_bits };
        proof {
            assert forall|i: int| 0 <= i < s.bytes@.len() * 8 implies !spec_bit(s.bytes@, i) by {
                assert(0 <= i / 8 < s.bytes@.len());
                assert(s.bytes@[i / 8] == 0u8);
                let sh = (i % 8) as u8;
                assert((0u8 >> sh) & 1u8 == 0u8) by (bit_vector);
            }
        }
        s
    }

    /// Reconstructs a bit set of `num_bits` bits from packed bytes, as
    /// read back from a snapshot. Bits below `num_bits` are taken from
    /// `bytes`; the padding bits of the last byte are cleared, so the
    /// result is well formed whatever the padding held.
    pub fn from_bytes(bytes: Vec<u8>, num_bits: usize) -> (s: Self)
        requires
            num_bits <= usize::MAX - 7,
            bytes@.len() == (num_bits + 7) / 8,
        ensures
            s.wf(),
            s@.len() == num_bits,
            forall|i: int| 0 <= i < num_bits ==> s@[i] == spec_bit(bytes@, i),
    {
        let ghost orig = bytes@;
        let mut bytes = bytes;
        let r: usize = num_bits % 8;
        proof {
            vstd::arithmetic::div_mod::lemma_fundamental_div_mod(num_bits as int, 8);
        }
        if r != 0 {
            let last: usize = num_bits / 8;
            let b: u8 = bytes[last];
            let rs: u8 = r as u8;
            proof {
                assert(1u8 << rs >= 1) by (bit_vector)
                    requires
                        rs < 8,
                ;
            }
            let mask: u8 = (1u8 << rs) - 1;
            bytes[last] = b & mask;
            proof {
                assert forall|i: int| 0 <= i < num_bits implies spec_bit(bytes@, i) == spec_bit(
                    orig,
                    i,
                ) by {
                    vstd::arithmetic::div_mod::lemma_fundamental_div_mod(i, 8);
                    if i / 8 == last {
                        lemma_mask_bit(b, rs, (i % 8) as u8);
                    }
                }
                assert forall|i: int|
                    num_bits <= i < bytes@.len() * 8 implies !spec_bit(bytes@, i) by {
                    vstd::arithmetic::div_mod::lemma_fundamental_div_mod(i, 8);
                    assert(i / 8 == last);
                    lemma_mask_bit(b, rs, (i % 8) as u8);
                }
            }
        }
        let s = BitSet { bytes, num_bits };
        s
    }

    /// The packed bytes, as a snapshot stores them.
    pub fn to_bytes(&self) -> (r: Vec<u8>)
        ensures
            r@ == self.spec_bytes(),
    {
        let mut r: Vec<u8> = Vec::new();
        let n: usize = self.bytes.len();
        let mut i: usize = 0;
        while i < n
            invariant
                i <= n,
                n == self.bytes@.len(),
                r@ =~= self.bytes@.subrange(0, i as int),
            decreases n - i,
        {
            r.push(self.bytes[i]);
            i = i + 1;
        }
        proof {
            assert(r@ =~= self.bytes@);
        }
        r
    }

    /// The number of bits, fixed at construction.
    pub fn len(&self) -> (n: usize)
        ensures
            n == self@.len(),
    {
        self.num_bits
    }

    /// Sets bit `i` to one; rejects an out-of-range index.
    pub fn set(&mut self, i: usize) -> (r: Result<(), FilterError>)
        requires
            old(self).wf(),
        ensures
            final(self).wf(),
            i < old(self)@.len() ==> r is Ok && final(self)@ == old(self)@.update(i as int, true),
            i >= old(self)@.len() ==> r == Err::<(), FilterError>(FilterError::IndexError)
                && *final(self) == *old(self),
    {
        if i >= self.num_bits {
            return Err(FilterError::IndexError);
        }
        let byte_index: usize = i / 8;
        let shift: u8 = (i % 8) as u8;
        let mask: u8 = 1u8 << shift;
        let b: u8 = self.bytes[byte_index];
        self.bytes[byte_index] = b | mask;
        proof {
            let old_bytes = old(self).bytes@;
            let new_bytes = self.bytes@;
            assert forall|t: int| 0 <= t < new_bytes.len() * 8 implies spec_bit(new_bytes, t) == (
                if t == i {
                    true
                } else {
                    spec_bit(old_bytes, t)
                }
            ) by {
                vstd::arithmetic::div_mod::lemma_fundamental_div_mod(t, 8);
                vstd::arithmetic::div_mod::lemma_fundamental_div_mod(i as int, 8);
                if t / 8 == byte_index {
                    let sh2 = (t % 8) as u8;
                    assert(((b | (1u8 << shift)) >> sh2) & 1u8 == (
                        if sh2 == shift {
                            1u8
                        } else {
                            (b >> sh2) & 1u8
                        }
                    )) by (bit_vector)
                        requires
                            shift < 8,
                            sh2 < 8,
                    ;
                } else {
                    assert(new_bytes[t / 8] == old_bytes[t / 8]);
                }
            }
            assert(self@ =~= old(self)@.update(i as int, true));
        }
        Ok(())
    }

    /// Reads bit `i`; rejects an out-of-range index.
    pub fn test(&self, i: usize) -> (r: Result<bool, FilterError>)
        requires
            self.wf(),
        ensures
            i < self@.len() ==> r == Ok::<bool, FilterError>(self@[i as int]),
            i >= self@.len() ==> r == Err::<bool, FilterError>(FilterError::IndexError),
    {
        if i >= self.num_bits {
            return Err(FilterError::IndexError);
        }
        let byte: u8 = self.bytes[i / 8];
        let shift: u8 = (i % 8) as u8;
        Ok((byte >> shift) & 1u8 == 1u8)
    }
}

} // verus!
