use lora_link::limiter::LeakyBucket;

#[test]
fn at_most_capacity_within_window() {
    let mut bucket = LeakyBucket::new(3, 1000);
    assert!(bucket.check(0));
    assert!(bucket.check(10));
    assert!(bucket.check(20));
    // The fourth attempt inside the same window fails the check.
    assert!(!bucket.check(30));
    assert!(!bucket.check(999));
}

#[test]
fn budget_returns_after_window() {
    let mut bucket = LeakyBucket::new(3, 1000);
    assert!(bucket.check(0));
    assert!(bucket.check(1));
    assert!(bucket.check(2));
    assert!(!bucket.check(3));
    // Once the two earliest successes' windows elapse, tokens free up again.
    assert!(bucket.check(1001));
    assert!(bucket.check(1001));
    // But the budget over the sliding window is still respected.
    assert!(!bucket.check(1001));
}

#[test]
fn failed_checks_consume_nothing() {
    let mut bucket = LeakyBucket::new(1, 100);
    assert!(bucket.check(0));
    assert!(!bucket.check(1));
    assert!(!bucket.check(2));
    assert!(bucket.check(100));
}

#[test]
fn single_token_bucket_spacing() {
    let mut bucket = LeakyBucket::new(1, 500);
    assert!(bucket.check(0));
    assert!(!bucket.check(499));
    assert!(bucket.check(500));
    assert!(!bucket.check(999));
    assert!(bucket.check(1000));
}
