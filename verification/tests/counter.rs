use download_tracker::counter::count_chunk;

#[test]
fn count_adds_where_the_sum_fits() {
    assert_eq!(count_chunk(0, 0), 0);
    assert_eq!(count_chunk(5, 7), 12);
    assert_eq!(count_chunk(0, 1000), 1000);
    assert_eq!(count_chunk(u64::MAX - 1, 1), u64::MAX);
}

#[test]
fn count_stops_at_the_largest_number() {
    assert_eq!(count_chunk(u64::MAX, 0), u64::MAX);
    assert_eq!(count_chunk(u64::MAX, 1), u64::MAX);
    assert_eq!(count_chunk(u64::MAX - 3, 10), u64::MAX);
    assert_eq!(count_chunk(u64::MAX, usize::MAX), u64::MAX);
}

#[test]
fn count_never_goes_down() {
    let mut count = 0u64;
    for len in [0usize, 1, 2, 1 << 20, usize::MAX, 3, usize::MAX] {
        let next = count_chunk(count, len);
        assert!(next >= count);
        count = next;
    }
    assert_eq!(count, u64::MAX);
}
