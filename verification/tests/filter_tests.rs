use name_filter::Decision;
use name_filter::FilterBuilder;
use name_filter::FilterError;
use name_filter::GuardedFilter;

#[test]
fn build_minimal_input_yields_usable_filter() {
    let filter = FilterBuilder::build(1, 1, 100).unwrap();
    assert!(filter.size() >= 1);
    assert!(filter.hash_count() >= 1);
    assert_eq!(filter.expected_elements(), 1);
    assert_eq!(filter.insert_count(), 0);
}

#[test]
fn build_zero_elements_is_config_error() {
    assert!(matches!(FilterBuilder::build(0, 1, 100), Err(FilterError::ConfigError)));
}

#[test]
fn build_zero_rate_is_config_error() {
    assert!(matches!(FilterBuilder::build(100, 0, 100), Err(FilterError::ConfigError)));
}

#[test]
fn build_rate_of_one_or_more_is_config_error() {
    assert!(matches!(FilterBuilder::build(100, 100, 100), Err(FilterError::ConfigError)));
    assert!(matches!(FilterBuilder::build(100, 101, 100), Err(FilterError::ConfigError)));
}

#[test]
fn lookup_on_fresh_filter_is_negative() {
    let filter = FilterBuilder::build(1000, 1, 100).unwrap();
    assert!(!filter.lookup("alice"));
}

#[test]
fn inserted_name_tests_positive_immediately() {
    let mut filter = FilterBuilder::build(1000, 1, 100).unwrap();
    filter.insert("alice");
    assert!(filter.lookup("alice"));
}

#[test]
fn membership_survives_unrelated_inserts() {
    let mut filter = FilterBuilder::build(1000, 1, 100).unwrap();
    filter.insert("alice");
    let mut inserted: Vec<String> = vec!["alice".to_owned()];
    for i in 0..300 {
        let name = format!("member{}", i);
        filter.insert(&name);
        inserted.push(name);
        for earlier in &inserted {
            assert!(filter.lookup(earlier), "{} fell out of the filter", earlier);
        }
    }
}

#[test]
fn duplicate_insert_changes_no_lookup_result() {
    let mut filter = FilterBuilder::build(1000, 1, 100).unwrap();
    filter.insert("bob");
    let probes: Vec<String> = (0..500).map(|i| format!("probe{}", i)).collect();
    let before: Vec<bool> = probes.iter().map(|p| filter.lookup(p)).collect();
    assert!(filter.lookup("bob"));
    filter.insert("bob");
    assert!(filter.lookup("bob"));
    let after: Vec<bool> = probes.iter().map(|p| filter.lookup(p)).collect();
    assert_eq!(before, after);
}

#[test]
fn duplicate_insert_still_increments_counter() {
    let mut filter = FilterBuilder::build(1000, 1, 100).unwrap();
    assert_eq!(filter.insert_count(), 0);
    filter.insert("bob");
    assert_eq!(filter.insert_count(), 1);
    filter.insert("bob");
    assert_eq!(filter.insert_count(), 2);
}

#[test]
fn guard_accepts_then_rejects_same_name() {
    let filter = FilterBuilder::build(1000, 1, 100).unwrap();
    let mut guard = GuardedFilter::new(filter);
    assert_eq!(guard.lookup_and_maybe_insert("bob"), Decision::Accepted);
    assert_eq!(guard.lookup_and_maybe_insert("bob"), Decision::Rejected);
}

#[test]
fn guard_lookup_sees_accepted_names() {
    let filter = FilterBuilder::build(1000, 1, 100).unwrap();
    let mut guard = GuardedFilter::new(filter);
    assert!(!guard.lookup("carol"));
    assert_eq!(guard.lookup_and_maybe_insert("carol"), Decision::Accepted);
    assert!(guard.lookup("carol"));
    assert_eq!(guard.inner().insert_count(), 1);
}

#[test]
fn observed_false_positive_rate_near_configured_one_percent() {
    let mut filter = FilterBuilder::build(1000, 1, 100).unwrap();
    filter.insert("alice");
    for i in 0..999 {
        filter.insert(&format!("member{}", i));
    }
    assert!(filter.lookup("alice"));
    let trials = 10_000u32;
    let mut hits = 0u32;
    for i in 0..trials {
        if filter.lookup(&format!("zzz_never_inserted{}", i)) {
            hits += 1;
        }
    }
    let rate = f64::from(hits) / f64::from(trials);
    assert!(
        (0.005..=0.02).contains(&rate),
        "observed false-positive rate {} outside [0.5%, 2%]",
        rate
    );
}
