use name_filter::BitSet;
use name_filter::FilterError;
use name_filter::HashStrategy;

#[test]
fn new_bits_are_all_zero() {
    let bits = BitSet::new(20);
    assert_eq!(bits.len(), 20);
    for i in 0..20 {
        assert_eq!(bits.test(i), Ok(false));
    }
}

#[test]
fn set_bit_is_seen_and_neighbors_are_not() {
    let mut bits = BitSet::new(20);
    assert_eq!(bits.set(9), Ok(()));
    assert_eq!(bits.test(9), Ok(true));
    assert_eq!(bits.test(8), Ok(false));
    assert_eq!(bits.test(10), Ok(false));
}

#[test]
fn out_of_range_access_is_an_index_error() {
    let mut bits = BitSet::new(10);
    assert_eq!(bits.set(10), Err(FilterError::IndexError));
    assert_eq!(bits.test(10), Err(FilterError::IndexError));
    assert_eq!(bits.set(usize::MAX - 8), Err(FilterError::IndexError));
}

#[test]
fn length_never_changes() {
    let mut bits = BitSet::new(17);
    for i in 0..17 {
        let _ = bits.set(i);
    }
    let _ = bits.set(40);
    assert_eq!(bits.len(), 17);
}

#[test]
fn hash_positions_are_deterministic_and_in_range() {
    let first = HashStrategy::positions("alice".as_bytes(), 7, 9586);
    let again = HashStrategy::positions("alice".as_bytes(), 7, 9586);
    assert_eq!(first, again);
    assert_eq!(first.len(), 7);
    for position in &first {
        assert!(*position < 9586);
    }
    let other = HashStrategy::positions("bob".as_bytes(), 7, 9586);
    assert_ne!(first, other);
}
