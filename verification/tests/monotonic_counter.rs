use mailbox::monotonic_counter::MonotonicCounter;

#[test]
fn monotonic_counter_test_next_unique() {
    let mut counter = MonotonicCounter::new();
    assert!(counter.next() != counter.next());
}

#[test]
fn monotonic_counter_test_last() {
    let mut counter = MonotonicCounter::new();
    assert!(counter.next() == counter.last());

    let id = counter.next();
    counter.next();
    assert!(id != counter.last());
}

#[test]
fn monotonic_counter_test_is_last() {
    let mut counter = MonotonicCounter::new();
    let first = counter.next();
    assert!(counter.is_last(first));
    let second = counter.next();
    assert!(!counter.is_last(first));
    assert!(counter.is_last(second));
}

#[test]
fn monotonic_counter_test_stale_after_many() {
    let mut counter = MonotonicCounter::new();
    let id = counter.next();
    for _ in 0..1000 {
        counter.next();
        assert!(!counter.is_last(id));
    }
}
