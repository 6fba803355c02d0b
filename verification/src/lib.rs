//! A persistent probabilistic membership filter for claimed names.
//!
//! The crate provides the in-memory core of a "claim a name" service: a
//! bit-array membership filter with a configurable false-positive rate
//! (never a false negative), sized from an expected element count, restored
//! from a byte-exact snapshot or rebuilt from an authoritative list of
//! names, and mutated only through a guard that combines lookup and insert
//! into one decision.

pub mod bitset;
pub mod error;
pub mod filter;
pub mod guard;
pub mod hash;
pub mod laws;
pub mod params;
pub mod pages;
pub mod seed;
pub mod snapshot;
pub mod warm;

pub use bitset::BitSet;
pub use error::FilterError;
pub use error::SnapshotError;
pub use filter::MembershipFilter;
pub use guard::Decision;
pub use guard::GuardedFilter;
pub use hash::HashStrategy;
pub use pages::HtmlTemplate;
pub use params::FilterBuilder;
pub use seed::prepare_test_data;
pub use snapshot::SnapshotStore;
pub use warm::WarmStartLoader;
