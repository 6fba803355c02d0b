use vstd::prelude::*;

use crate::filter::spec_contains_bits;
use crate::filter::spec_insert_bits;
use crate::filter::spec_is_position;
use crate::hash::HashStrategy;

verus! {

/// The bit array `bits` after inserting every byte string of `names`, in
/// order.
pub open spec fn spec_insert_all(bits: Seq<bool>, names: Seq<Seq<u8>>, k: nat, m: nat) -> Seq<
    bool,
>
    decreases names.len(),
{
    if names.len() == 0 {
        bits
    } else {
        spec_insert_all(spec_insert_bits(bits, names[0], k, m), names.drop_first(), k, m)
    }
}

/// Inserting a batch and then one more name is inserting the extended
/// batch.
pub proof fn lemma_insert_all_push(
    bits: Seq<bool>,
    names: Seq<Seq<u8>>,
    x: Seq<u8>,
    k: nat,
    m: nat,
)
    ensures
        spec_insert_all(bits, names.push(x), k, m) == spec_insert_bits(
            spec_insert_all(bits, names, k, m),
            x,
            k,
            m,
        ),
    decreases names.len(),
{
    if names.len() == 0 {
        assert(names.push(x)[0] == x);
        assert(names.push(x).drop_first() =~= Seq::<Seq<u8>>::empty());
        assert(spec_insert_all(bits, names.push(x), k, m) == spec_insert_all(
            spec_insert_bits(bits, x, k, m),
            names.push(x).drop_first(),
            k,
            m,
        ));
        assert(spec_insert_all(spec_insert_bits(bits, x, k, m), Seq::<Seq<u8>>::empty(), k, m)
            == spec_insert_bits(bits, x, k, m));
    } else {
        assert(names.push(x)[0] == names[0]);
        assert(names.push(x).drop_first() =~= names.drop_first().push(x));
        lemma_insert_all_push(spec_insert_bits(bits, names[0], k, m), names.drop_first(), x, k, m);
        assert(spec_insert_all(bits, names.push(x), k, m) == spec_insert_all(
            spec_insert_bits(bits, names[0], k, m),
            names.drop_first().push(x),
            k,
            m,
        ));
        assert(spec_insert_all(bits, names, k, m) == spec_insert_all(
            spec_insert_bits(bits, names[0], k, m),
            names.drop_first(),
            k,
            m,
        ));
    }
}

/// Every hash position is a valid index of a nonempty bit array.
pub proof fn lemma_position_in_range(bytes: Seq<u8>, j: int, m: int)
    requires
        m >= 1,
    ensures
        0 <= HashStrategy::spec_position(bytes, j, m) < m,
{
    let mixed = crate::hash::spec_h1(bytes).wrapping_add(
        (j as u64).wrapping_mul(crate::hash::spec_h2(bytes)),
    );
    vstd::arithmetic::div_mod::lemma_mod_bound(mixed as int, m);
}

/// Inserting never clears a bit: the filter only ever grows.
pub proof fn lemma_insert_monotone(bits: Seq<bool>, bytes: Seq<u8>, k: nat, m: nat)
    ensures
        spec_insert_bits(bits, bytes, k, m).len() == bits.len(),
        forall|t: int| 0 <= t < bits.len() && bits[t] ==> spec_insert_bits(bits, bytes, k, m)[t],
{
}

/// A membership test only consults valid indices, so a pointwise-larger
/// bit array of the same size answers positively wherever a smaller one
/// does.
pub proof fn lemma_contains_monotone(
    bits1: Seq<bool>,
    bits2: Seq<bool>,
    s: Seq<u8>,
    k: nat,
    m: nat,
)
    requires
        1 <= m,
        bits1.len() == m,
        bits2.len() == m,
        forall|t: int| 0 <= t < m && bits1[t] ==> bits2[t],
        spec_contains_bits(bits1, s, k, m),
    ensures
        spec_contains_bits(bits2, s, k, m),
{
    assert forall|j: int| 0 <= j < k implies bits2[#[trigger] HashStrategy::spec_position(
        s,
        j,
        m as int,
    )] by {
        lemma_position_in_range(s, j, m as int);
        assert(bits1[HashStrategy::spec_position(s, j, m as int)]);
    }
}

/// Inserting a name makes it a member.
pub proof fn lemma_insert_contains(bits: Seq<bool>, s: Seq<u8>, k: nat, m: nat)
    requires
        1 <= m,
        bits.len() == m,
    ensures
        spec_contains_bits(spec_insert_bits(bits, s, k, m), s, k, m),
{
    assert forall|j: int| 0 <= j < k implies spec_insert_bits(bits, s, k, m)[#[trigger] HashStrategy::spec_position(
        s,
        j,
        m as int,
    )] by {
        lemma_position_in_range(s, j, m as int);
        assert(spec_is_position(s, HashStrategy::spec_position(s, j, m as int), k, m));
    }
}

/// No false negatives, ever: a name that tests positive still tests
/// positive after any later sequence of inserts.
pub proof fn lemma_membership_survives_inserts(
    bits: Seq<bool>,
    s: Seq<u8>,
    later: Seq<Seq<u8>>,
    k: nat,
    m: nat,
)
    requires
        1 <= m,
        bits.len() == m,
        spec_contains_bits(bits, s, k, m),
    ensures
        spec_insert_all(bits, later, k, m).len() == m,
        spec_contains_bits(spec_insert_all(bits, later, k, m), s, k, m),
    decreases later.len(),
{
    if later.len() > 0 {
        let next = spec_insert_bits(bits, later[0], k, m);
        lemma_insert_monotone(bits, later[0], k, m);
        lemma_contains_monotone(bits, next, s, k, m);
        lemma_membership_survives_inserts(next, s, later.drop_first(), k, m);
    }
}

/// Idempotence: inserting the same name twice leaves exactly the bits
/// that inserting it once leaves, so no lookup can tell the two apart.
/// (The insert counter still advances on the duplicate, since the filter
/// cannot distinguish it.)
pub proof fn lemma_insert_idempotent(bits: Seq<bool>, s: Seq<u8>, k: nat, m: nat)
    ensures
        spec_insert_bits(spec_insert_bits(bits, s, k, m), s, k, m) == spec_insert_bits(
            bits,
            s,
            k,
            m,
        ),
{
    let once = spec_insert_bits(bits, s, k, m);
    let twice = spec_insert_bits(once, s, k, m);
    assert forall|t: int| 0 <= t < bits.len() implies twice[t] == once[t] by {
        assert(once[t] == (bits[t] || spec_is_position(s, t, k, m)));
    }
    assert(twice =~= once);
}

} // verus!
