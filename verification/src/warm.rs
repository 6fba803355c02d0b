use vstd::math::min;
use vstd::prelude::*;
use vstd::string::StringSliceAdditionalSpecFns;
use vstd::utf8::encode_utf8;

use crate::error::FilterError;
use crate::filter::MembershipFilter;
use crate::laws::lemma_insert_all_push;
use crate::laws::spec_insert_all;
use crate::params::FilterBuilder;
use crate::params::spec_buildable;
use crate::params::spec_target_bits;
use crate::params::spec_target_hashes;
use crate::snapshot::SnapshotStore;
use crate::snapshot::spec_snapshot_hashes;
use crate::snapshot::spec_snapshot_ok;
use crate::snapshot::spec_snapshot_size;

verus! {

/// The byte strings of a list of names, in order.
pub open spec fn spec_names_bytes(names: Seq<String>) -> Seq<Seq<u8>> {
    names.map_values(|nm: String| encode_utf8(nm@))
}

/// An all-zero bit array of `m` bits: the bits of a freshly built
/// filter.
pub open spec fn spec_zero_bits(m: int) -> Seq<bool> {
    Seq::new(m as nat, |i: int| false)
}

/// Whether a restored snapshot may replace a fresh build for a target
/// configuration: the target itself must be buildable, and the recorded
/// hash count must lie within one of the hash count the target would
/// compute. This is a soft sanity check, not a hard equality, since a
/// snapshot may stem from slightly different historical parameters.
pub open spec fn spec_loadable(bytes: Seq<u8>, n: int, p_num: int, p_den: int) -> bool {
    &&& spec_snapshot_ok(bytes)
    &&& spec_buildable(n, p_num, p_den)
    &&& spec_target_hashes(n, p_num, p_den) - 1 <= spec_snapshot_hashes(bytes)
        <= spec_target_hashes(n, p_num, p_den) + 1
}

/// Rebuilds the filter from the authoritative list of existing names:
/// the warm-start path taken when no usable snapshot exists.
pub struct WarmStartLoader;

impl WarmStartLoader {
    /// Builds a fresh filter for the target parameters and inserts the
    /// existing names in order, stopping after `target_n` insertions
    /// even if more names remain. The bound keeps the warm-start cost
    /// proportional to the configured capacity; names beyond it are
    /// covered by the backing store itself, not by the filter, and the
    /// filter under-reports duplicates for them until a snapshot of a
    /// fuller filter exists.
    pub fn rebuild(names: &Vec<String>, target_n: usize, p_num: u64, p_den: u64) -> (r: Result<
        MembershipFilter,
        FilterError,
    >)
        ensures
            !spec_buildable(target_n as int, p_num as int, p_den as int) ==> r == Err::<
                MembershipFilter,
                FilterError,
            >(FilterError::ConfigError),
            spec_buildable(target_n as int, p_num as int, p_den as int) ==> (r matches Ok(f)
                && f.wf() && f.spec_size() == spec_target_bits(
                target_n as int,
                p_num as int,
                p_den as int,
            ) && f.spec_num_hashes() == spec_target_hashes(
                target_n as int,
                p_num as int,
                p_den as int,
            ) && f.spec_expected_elements() == target_n && f.spec_insert_count() == min(
                target_n as int,
                names@.len() as int,
            ) && f.spec_bits() == spec_insert_all(
                spec_zero_bits(f.spec_size() as int),
                spec_names_bytes(names@).take(min(target_n as int, names@.len() as int)),
                f.spec_num_hashes(),
                f.spec_size(),
            )),
    {
        let mut f: MembershipFilter = match FilterBuilder::build(target_n, p_num, p_den) {
            Ok(f) => f,
            Err(e) => {
                return Err(e);
            },
        };
        let bound: usize = if names.len() < target_n {
            names.len()
        } else {
            target_n
        };
        let ghost zero = f.spec_bits();
        let ghost nb = spec_names_bytes(names@);
        let ghost k = f.spec_num_hashes();
        let ghost m = f.spec_size();
        proof {
            assert(zero =~= spec_zero_bits(m as int));
            assert(nb.take(0) =~= Seq::<Seq<u8>>::empty());
        }
        let mut i: usize = 0;
        while i < bound
            invariant
                i <= bound,
                bound == min(target_n as int, names@.len() as int),
                bound <= names@.len(),
                nb == spec_names_bytes(names@),
                f.wf(),
                f.spec_size() == m,
                f.spec_num_hashes() == k,
                f.spec_expected_elements() == target_n,
                f.spec_insert_count() == i,
                f.spec_bits() == spec_insert_all(spec_zero_bits(m as int), nb.take(i as int), k, m),
            decreases bound - i,
        {
            let name: &str = names[i].as_str();
            proof {
                assert(name.spec_bytes() == nb[i as int]);
            }
            f.insert(name);
            proof {
                assert(nb.take(i + 1) =~= nb.take(i as int).push(nb[i as int]));
                lemma_insert_all_push(spec_zero_bits(m as int), nb.take(i as int), nb[i as int], k, m);
            }
            i = i + 1;
        }
        Ok(f)
    }
}

impl FilterBuilder {
    /// Attempts the restore path alone: decodes the snapshot bytes, if
    /// any, and accepts the result only when its recorded dimensions
    /// pass the soft sanity check against the target parameters. `None`
    /// means a fresh build is needed; a caller that streams names from a
    /// backing store only fetches them in that case.
    pub fn try_load(snapshot: Option<&Vec<u8>>, target_n: usize, p_num: u64, p_den: u64) -> (r:
        Option<MembershipFilter>)
        ensures
            match snapshot {
                None => r is None,
                Some(bytes) => {
                    &&& !spec_loadable(bytes@, target_n as int, p_num as int, p_den as int)
                        ==> r is None
                    &&& spec_loadable(bytes@, target_n as int, p_num as int, p_den as int) ==> (
                    r matches Some(f) && f.wf() && f.spec_size() == spec_snapshot_size(bytes@)
                        && f.spec_num_hashes() == spec_snapshot_hashes(bytes@)
                        && f.spec_expected_elements() == target_n && f.spec_insert_count() == 0 && (
                    forall|i: int|
                        0 <= i < f.spec_size() ==> f.spec_bits()[i] == crate::bitset::spec_bit(
                            bytes@.skip(16),
                            i,
                        )))
                },
            },
    {
        let bytes: &Vec<u8> = match snapshot {
            Some(bytes) => bytes,
            None => {
                return None;
            },
        };
        let filter: MembershipFilter = match SnapshotStore::decode(bytes.as_slice(), target_n) {
            Ok(f) => f,
            Err(_) => {
                return None;
            },
        };
        let (_, target_k): (usize, usize) = match Self::compute_params(target_n, p_num, p_den) {
            Ok(p) => p,
            Err(_) => {
                return None;
            },
        };
        let k: usize = filter.hash_count();
        let close: bool = if k >= target_k {
            k - target_k <= 1
        } else {
            target_k - k <= 1
        };
        if close {
            Some(filter)
        } else {
            None
        }
    }

    /// Chooses between restoring a snapshot and building fresh, the
    /// whole warm start over in-memory data: a loadable snapshot wins;
    /// otherwise — file absent, bytes corrupt, or dimensions out of
    /// tune — the filter is rebuilt from the existing names, and only
    /// unusable target parameters make the start fail.
    pub fn load_or_build(
        snapshot: Option<&Vec<u8>>,
        names: &Vec<String>,
        target_n: usize,
        p_num: u64,
        p_den: u64,
    ) -> (r: Result<MembershipFilter, FilterError>)
        ensures
            (snapshot matches Some(bytes) && spec_loadable(
                bytes@,
                target_n as int,
                p_num as int,
                p_den as int,
            )) ==> (r matches Ok(f) && f.wf() && f.spec_size() == spec_snapshot_size(
                snapshot->0@,
            ) && f.spec_num_hashes() == spec_snapshot_hashes(snapshot->0@)
                && f.spec_expected_elements() == target_n && f.spec_insert_count() == 0 && (forall|
                i: int,
            |
                0 <= i < f.spec_size() ==> f.spec_bits()[i] == crate::bitset::spec_bit(
                    snapshot->0@.skip(16),
                    i,
                ))),
            !(snapshot matches Some(bytes) && spec_loadable(
                bytes@,
                target_n as int,
                p_num as int,
                p_den as int,
            )) ==> {
                &&& !spec_buildable(target_n as int, p_num as int, p_den as int) ==> r == Err::<
                    MembershipFilter,
                    FilterError,
                >(FilterError::ConfigError)
                &&& spec_buildable(target_n as int, p_num as int, p_den as int) ==> (r matches Ok(f)
                    && f.wf() && f.spec_size() == spec_target_bits(
                    target_n as int,
                    p_num as int,
                    p_den as int,
                ) && f.spec_num_hashes() == spec_target_hashes(
                    target_n as int,
                    p_num as int,
                    p_den as int,
                ) && f.spec_expected_elements() == target_n && f.spec_insert_count() == min(
                    target_n as int,
                    names@.len() as int,
                ) && f.spec_bits() == spec_insert_all(
                    spec_zero_bits(f.spec_size() as int),
                    spec_names_bytes(names@).take(min(target_n as int, names@.len() as int)),
                    f.spec_num_hashes(),
                    f.spec_size(),
                ))
            },
    {
        match Self::try_load(snapshot, target_n, p_num, p_den) {
            Some(filter) => Ok(filter),
            None => WarmStartLoader::rebuild(names, target_n, p_num, p_den),
        }
    }
}

} // verus!
