use ephemeris::CallEvery;

#[test]
fn first_call_due_one_period_after_creation() {
    let mut every: CallEvery<1000> = CallEvery::new(0);
    assert_eq!(every.next_due_ms(), 1000);
    assert!(!every.call(0));
    assert!(!every.call(999));
    assert_eq!(every.next_due_ms(), 1000);
    assert!(every.call(1000));
    assert_eq!(every.next_due_ms(), 2000);
}

#[test]
fn schedule_advances_one_period_per_due_call() {
    let mut every: CallEvery<250> = CallEvery::new(100);
    assert_eq!(every.next_due_ms(), 350);
    // a late caller catches up one period at a time
    assert!(every.call(1000));
    assert_eq!(every.next_due_ms(), 600);
    assert!(every.call(1000));
    assert_eq!(every.next_due_ms(), 850);
    assert!(every.call(1000));
    assert_eq!(every.next_due_ms(), 1100);
    assert!(!every.call(1000));
    assert_eq!(every.next_due_ms(), 1100);
}
