use mailbox::request_counter::RequestCounter;

#[test]
fn request_counter_test_next_unique() {
    let mut req_counter = RequestCounter::new();
    assert!(req_counter.next() != req_counter.next());
}

#[test]
fn test_is_latest() {
    let mut req_counter = RequestCounter::new();
    let req_1 = req_counter.next();
    let req_2 = req_counter.next();
    assert_eq!(req_counter.is_latest(&req_1), false);
    assert_eq!(req_counter.is_latest(&req_2), true);
}
