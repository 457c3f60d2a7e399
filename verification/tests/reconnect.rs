use pocket_relay_client_shared::servers::reconnect::Reconnect;

#[test]
fn attempts_end_after_five_errors_in_a_row() {
    let mut reconnect = Reconnect::new();
    for error in 1..=5u64 {
        assert!(reconnect.goes_on());
        assert_eq!(reconnect.record(Err(error)), 1000 * error);
    }
    assert!(!reconnect.goes_on());
    assert_eq!(reconnect.into_error(), Some(5));
}

#[test]
fn tunnel_that_was_created_resets_the_errors() {
    let mut reconnect = Reconnect::new();
    for _ in 0..3 {
        for error in 1..=4u64 {
            assert_eq!(reconnect.record(Err(error)), 1000 * error);
            assert!(reconnect.goes_on());
        }
        assert_eq!(reconnect.record(Ok(())), 1000);
        assert!(reconnect.goes_on());
    }
    assert_eq!(reconnect.into_error(), Some(4));
}

#[test]
fn no_error_without_attempts() {
    let reconnect: Reconnect<u8> = Reconnect::new();
    assert!(reconnect.goes_on());
    assert_eq!(reconnect.into_error(), None);
}
