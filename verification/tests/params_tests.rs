use name_filter::FilterBuilder;

#[test]
fn optimal_parameters_for_thousand_elements_at_one_percent() {
    // m = ceil(-(1000 * ln 0.01) / (ln 2)^2) = 9586, k = round((m / n) * ln 2) = 7.
    let filter = FilterBuilder::build(1000, 1, 100).unwrap();
    assert_eq!(filter.size(), 9586);
    assert_eq!(filter.hash_count(), 7);
}

#[test]
fn optimal_parameters_for_thousand_elements_at_one_permille() {
    // m = ceil(-(1000 * ln 0.001) / (ln 2)^2) = 14378, k = 10.
    let filter = FilterBuilder::build(1000, 1, 1000).unwrap();
    assert_eq!(filter.size(), 14378);
    assert_eq!(filter.hash_count(), 10);
}

#[test]
fn optimal_parameters_for_single_element() {
    // m = ceil(-ln(0.01) / (ln 2)^2) = 10, k = round((10 / 1) * ln 2) = 7.
    let filter = FilterBuilder::build(1, 1, 100).unwrap();
    assert_eq!(filter.size(), 10);
    assert_eq!(filter.hash_count(), 7);
}

#[test]
fn optimal_parameters_for_a_coin_flip_rate() {
    // m = ceil(-(2 * ln 0.5) / (ln 2)^2) = ceil(2 / ln 2) = 3, k = 1.
    let filter = FilterBuilder::build(2, 1, 2).unwrap();
    assert_eq!(filter.size(), 3);
    assert_eq!(filter.hash_count(), 1);
}

#[test]
fn hash_count_is_clamped_to_one_for_weak_rates() {
    // p = 0.99 would give k = 0 by the raw formula; it is clamped to 1.
    let filter = FilterBuilder::build(1000, 99, 100).unwrap();
    assert_eq!(filter.hash_count(), 1);
    assert!(filter.size() >= 1);
}

#[test]
fn parameters_match_the_production_configuration() {
    // The capacity the service runs with: ten million names at 1%.
    let filter = FilterBuilder::build(10_000_000, 1, 100).unwrap();
    assert_eq!(filter.size(), 95_850_584);
    assert_eq!(filter.hash_count(), 7);
}
