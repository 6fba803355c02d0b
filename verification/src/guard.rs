use vstd::prelude::*;
use vstd::string::StringSliceAdditionalSpecFns;

use crate::filter::MembershipFilter;
use crate::filter::spec_contains_bits;
use crate::filter::spec_insert_bits;
use crate::laws::lemma_insert_contains;

verus! {

/// The outcome of claiming a name.
#[derive(Clone, Copy, Debug, PartialEq, Eq, Structural)]
pub enum Decision {
    /// The name was not in the filter and has been inserted.
    Accepted,
    /// The filter already reported the name (possibly a false positive,
    /// the accepted cost of this design).
    Rejected,
}

/// The single point of mutation of the process-wide filter. Once a
/// filter is wrapped, no other component holds it; every claim goes
/// through `lookup_and_maybe_insert`, which tests and inserts in one
/// exclusive critical section. Performing the two as separate guarded
/// operations would let two concurrent claimers both observe "not
/// present" and both report `Accepted` for the same name. Exclusive
/// access is expressed here by `&mut`; a caller that shares the guard
/// across tasks wraps it in a mutual-exclusion primitive and holds the
/// lock only across this in-memory call, never across backing-store
/// I/O, with the filter check always ordered before the store write.
pub struct GuardedFilter {
    filter: MembershipFilter,
}

impl GuardedFilter {
    /// The wrapped filter.
    pub closed spec fn spec_filter(&self) -> MembershipFilter {
        self.filter
    }

    pub open spec fn wf(&self) -> bool {
        self.spec_filter().wf()
    }

    /// Takes exclusive ownership of `filter`.
    pub fn new(filter: MembershipFilter) -> (g: Self)
        ensures
            g.spec_filter() == filter,
    {
        GuardedFilter { filter }
    }

    /// Reads the filter for observation or snapshotting. Mutation stays
    /// behind the guard.
    pub fn inner(&self) -> (f: &MembershipFilter)
        ensures
            *f == self.spec_filter(),
    {
        &self.filter
    }

    /// Tests `s` without claiming it.
    pub fn lookup(&self, s: &str) -> (r: bool)
        requires
            self.wf(),
        ensures
            r == self.spec_filter().spec_contains(s.spec_bytes()),
    {
        self.filter.lookup(s)
    }

    /// One exclusive critical section that looks `s` up and, only if it
    /// is absent, inserts it: `Rejected` on a hit with the filter
    /// unchanged, `Accepted` on a miss with `s` now a member. A second
    /// identical claim therefore always returns `Rejected`.
    pub fn lookup_and_maybe_insert(&mut self, s: &str) -> (d: Decision)
        requires
            old(self).wf(),
        ensures
            final(self).wf(),
            final(self).spec_filter().spec_size() == old(self).spec_filter().spec_size(),
            final(self).spec_filter().spec_num_hashes()
                == old(self).spec_filter().spec_num_hashes(),
            old(self).spec_filter().spec_contains(s.spec_bytes()) ==> d == Decision::Rejected
                && *final(self) == *old(self),
            !old(self).spec_filter().spec_contains(s.spec_bytes()) ==> d == Decision::Accepted
                && final(self).spec_filter().spec_bits() == spec_insert_bits(
                old(self).spec_filter().spec_bits(),
                s.spec_bytes(),
                old(self).spec_filter().spec_num_hashes(),
                old(self).spec_filter().spec_size(),
            ) && final(self).spec_filter().spec_contains(s.spec_bytes())
                && final(self).spec_filter().spec_insert_count()
                == old(self).spec_filter().spec_insert_count().saturating_add(1),
    {
        if self.filter.lookup(s) {
            Decision::Rejected
        } else {
            self.filter.insert(s);
            Decision::Accepted
        }
    }
}

/// Claim-twice law: whatever the filter held before, once a claim for a
/// name has been accepted and inserted it, the very next claim for the
/// same name is rejected, because inserting a name makes it a member.
pub proof fn lemma_second_claim_rejected(bits: Seq<bool>, s: Seq<u8>, k: nat, m: nat)
    requires
        1 <= m,
        bits.len() == m,
    ensures
        spec_contains_bits(spec_insert_bits(bits, s, k, m), s, k, m),
{
    lemma_insert_contains(bits, s, k, m);
}

} // verus!
