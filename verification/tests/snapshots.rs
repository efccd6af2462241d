use odeon::snapshots::nearest_snapshot;

#[test]
fn the_nearest_snapshot_is_shown() {
    assert_eq!(nearest_snapshot(&[], 7), 0);
    assert_eq!(nearest_snapshot(&[0, 10, 20, 30], 12), 1);
    assert_eq!(nearest_snapshot(&[0, 10, 20, 30], 15), 1, "a tie goes to the first");
    assert_eq!(nearest_snapshot(&[0, 10, 20, 30], 99), 3);
    assert_eq!(nearest_snapshot(&[5, 5, 5], 0), 0);
}
