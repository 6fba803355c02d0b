use name_filter::FilterBuilder;
use name_filter::FilterError;
use name_filter::MembershipFilter;
use name_filter::SnapshotError;
use name_filter::SnapshotStore;
use name_filter::WarmStartLoader;

#[test]
fn snapshot_layout_is_size_hashes_then_bits() {
    let mut filter = FilterBuilder::build(100, 1, 100).unwrap();
    filter.insert("alice");
    let bytes = SnapshotStore::encode(&filter);
    let m = filter.size() as u64;
    let k = filter.hash_count() as u64;
    assert_eq!(&bytes[0..8], &m.to_le_bytes());
    assert_eq!(&bytes[8..16], &k.to_le_bytes());
    assert_eq!(bytes.len(), 16 + (filter.size() + 7) / 8);
}

#[test]
fn round_trip_preserves_every_lookup() {
    let mut filter = FilterBuilder::build(500, 1, 100).unwrap();
    let names: Vec<String> = (0..200).map(|i| format!("member{}", i)).collect();
    for name in &names {
        filter.insert(name);
    }
    let bytes = SnapshotStore::encode(&filter);
    let restored = SnapshotStore::decode(&bytes, 500).unwrap();
    assert_eq!(restored.size(), filter.size());
    assert_eq!(restored.hash_count(), filter.hash_count());
    assert_eq!(restored.expected_elements(), 500);
    assert_eq!(restored.insert_count(), 0);
    for name in &names {
        assert!(restored.lookup(name), "{} lost across the snapshot", name);
    }
    for i in 0..500 {
        let probe = format!("probe{}", i);
        assert_eq!(restored.lookup(&probe), filter.lookup(&probe));
    }
}

#[test]
fn truncated_snapshot_is_corrupt() {
    let mut filter = FilterBuilder::build(100, 1, 100).unwrap();
    filter.insert("alice");
    let mut bytes = SnapshotStore::encode(&filter);
    let len = bytes.len();
    bytes.truncate(len - 10);
    assert!(matches!(SnapshotStore::decode(&bytes, 100), Err(SnapshotError::CorruptError)));
}

#[test]
fn short_header_is_corrupt() {
    let bytes = vec![1u8; 15];
    assert!(matches!(SnapshotStore::decode(&bytes, 100), Err(SnapshotError::CorruptError)));
}

#[test]
fn zero_dimensions_are_corrupt() {
    let mut zero_size = Vec::new();
    zero_size.extend_from_slice(&0u64.to_le_bytes());
    zero_size.extend_from_slice(&7u64.to_le_bytes());
    assert!(matches!(SnapshotStore::decode(&zero_size, 100), Err(SnapshotError::CorruptError)));

    let mut zero_hashes = Vec::new();
    zero_hashes.extend_from_slice(&8u64.to_le_bytes());
    zero_hashes.extend_from_slice(&0u64.to_le_bytes());
    zero_hashes.push(0u8);
    assert!(matches!(SnapshotStore::decode(&zero_hashes, 100), Err(SnapshotError::CorruptError)));
}

#[test]
fn trailing_bytes_are_corrupt() {
    let filter = FilterBuilder::build(100, 1, 100).unwrap();
    let mut bytes = SnapshotStore::encode(&filter);
    bytes.push(0u8);
    assert!(matches!(SnapshotStore::decode(&bytes, 100), Err(SnapshotError::CorruptError)));
}

#[test]
fn load_or_build_restores_a_matching_snapshot() {
    let mut filter = FilterBuilder::build(1000, 1, 100).unwrap();
    filter.insert("alice");
    filter.insert("bob");
    let bytes = SnapshotStore::encode(&filter);
    let names: Vec<String> = vec!["carol".to_owned()];
    let loaded = FilterBuilder::load_or_build(Some(&bytes), &names, 1000, 1, 100).unwrap();
    // The snapshot wins: its contents are intact and the name list was
    // never inserted.
    assert_eq!(loaded.insert_count(), 0);
    assert!(loaded.lookup("alice"));
    assert!(loaded.lookup("bob"));
    assert_eq!(loaded.size(), filter.size());
    assert_eq!(loaded.hash_count(), filter.hash_count());
}

#[test]
fn load_or_build_falls_back_on_corrupt_snapshot() {
    let mut filter = FilterBuilder::build(1000, 1, 100).unwrap();
    filter.insert("alice");
    let mut bytes = SnapshotStore::encode(&filter);
    let len = bytes.len();
    bytes.truncate(len - 10);
    let names: Vec<String> = (0..5).map(|i| format!("member{}", i)).collect();
    let rebuilt = FilterBuilder::load_or_build(Some(&bytes), &names, 1000, 1, 100).unwrap();
    // The corrupt snapshot is treated as absent, not surfaced as an
    // error: the filter is rebuilt from the name list.
    assert_eq!(rebuilt.insert_count(), 5);
    for name in &names {
        assert!(rebuilt.lookup(name));
    }
}

#[test]
fn load_or_build_without_snapshot_builds_fresh() {
    let names: Vec<String> = (0..8).map(|i| format!("member{}", i)).collect();
    let built = FilterBuilder::load_or_build(None, &names, 1000, 1, 100).unwrap();
    assert_eq!(built.insert_count(), 8);
    assert_eq!(built.expected_elements(), 1000);
    for name in &names {
        assert!(built.lookup(name));
    }
}

#[test]
fn load_or_build_stops_rebuilding_at_the_target_count() {
    let names: Vec<String> = (0..50).map(|i| format!("member{}", i)).collect();
    let built = FilterBuilder::load_or_build(None, &names, 20, 1, 100).unwrap();
    // The bounded warm start inserts only the first twenty names.
    assert_eq!(built.insert_count(), 20);
    for name in names.iter().take(20) {
        assert!(built.lookup(name));
    }
}

#[test]
fn load_or_build_rejects_a_snapshot_with_foreign_hash_count() {
    // A snapshot whose hash count is far from what the target
    // parameters would compute fails the sanity check and is rebuilt.
    let foreign = MembershipFilter::with_params(9586, 20, 1000);
    let bytes = SnapshotStore::encode(&foreign);
    let names: Vec<String> = vec!["alice".to_owned()];
    let rebuilt = FilterBuilder::load_or_build(Some(&bytes), &names, 1000, 1, 100).unwrap();
    assert_eq!(rebuilt.insert_count(), 1);
    assert_ne!(rebuilt.hash_count(), 20);
}

#[test]
fn load_or_build_with_bad_target_parameters_fails() {
    let names: Vec<String> = Vec::new();
    assert!(matches!(
        FilterBuilder::load_or_build(None, &names, 0, 1, 100),
        Err(FilterError::ConfigError)
    ));
}

#[test]
fn rebuild_inserts_names_in_order_up_to_the_bound() {
    let names: Vec<String> = (0..10).map(|i| format!("member{}", i)).collect();
    let filter = WarmStartLoader::rebuild(&names, 3, 1, 2).unwrap();
    assert_eq!(filter.insert_count(), 3);
    assert!(filter.lookup("member0"));
    assert!(filter.lookup("member1"));
    assert!(filter.lookup("member2"));
}
