use csv_processor::limiter::Limiter;

#[test]
fn grants_stop_at_capacity() {
    // a batch larger than the limit: the fourth unit is turned away
    let mut l = Limiter::new(3);
    assert!(l.try_acquire());
    assert!(l.try_acquire());
    assert!(l.try_acquire());
    assert_eq!(l.in_flight, 3);
    assert!(!l.try_acquire());
    assert_eq!(l.in_flight, 3);
}

#[test]
fn released_slot_can_be_granted_again() {
    let mut l = Limiter::new(1);
    assert!(l.try_acquire());
    assert!(!l.try_acquire());
    l.release();
    assert_eq!(l.in_flight, 0);
    assert!(l.try_acquire());
    assert_eq!(l.in_flight, 1);
}
