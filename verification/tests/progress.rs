use odeon::progress::Progress;

#[test]
fn steps_are_counted_and_cancel_is_sticky() {
    let mut p = Progress::default();
    assert_eq!(p.done(), 0);
    assert!(!p.cancelled());
    for _ in 0..50 {
        p.step();
    }
    assert_eq!(p.done(), 50);
    p.cancel();
    assert!(p.cancelled());
    assert_eq!(p.done(), 50);
    p.step();
    assert!(p.cancelled());
    assert_eq!(p.done(), 51);
    p.cancel();
    assert!(p.cancelled());
}

#[test]
fn the_flag_rises_only_on_cancel() {
    let mut p = Progress::new();
    for _ in 0..10 {
        p.step();
        let _ = p.done();
        assert!(!p.cancelled());
    }
    p.cancel();
    for _ in 0..3 {
        p.step();
        assert!(p.cancelled());
    }
}
