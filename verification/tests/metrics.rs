use zo_tunnel::metrics::{Metrics, RateLimiter};

#[test]
fn test_rate_limiter_disabled() {
    let mut rl = RateLimiter::new(0);
    // When max_per_second is 0, all requests are allowed
    for _ in 0..1000 {
        assert!(rl.check("test", 0));
    }
}

#[test]
fn test_rate_limiter_basic() {
    let mut rl = RateLimiter::new(3);
    assert!(rl.check("client-a", 0)); // 1
    assert!(rl.check("client-a", 0)); // 2
    assert!(rl.check("client-a", 0)); // 3
    assert!(!rl.check("client-a", 0)); // 4 → rejected

    // Different key should have its own counter
    assert!(rl.check("client-b", 0));
}

#[test]
fn rate_limiter_window_slides() {
    let mut rl = RateLimiter::new(2);
    assert!(rl.check("k", 900));
    assert!(rl.check("k", 1000));
    // Two requests passed in the second before: refused.
    assert!(!rl.check("k", 1001));
    assert!(!rl.check("k", 1899));
    // The request at 900 has left the window; the one at 1000 has not.
    assert!(rl.check("k", 1900));
    assert!(!rl.check("k", 1901));
    assert!(rl.check("k", 2000));
    assert!(!rl.check("k", 2899));
    // Other keys are limited on their own.
    assert!(rl.check("other", 1901));
}

#[test]
fn test_metrics_snapshot() {
    let mut m = Metrics::new(5_000);
    m.total_requests += 42;
    m.failed_auth += 3;

    let snap = m.snapshot(5_100);
    assert_eq!(snap.total_requests, 42);
    assert_eq!(snap.failed_auth, 3);
    assert_eq!(snap.active_connections, 0);
    assert!(snap.uptime_secs < 2); // just created
}

#[test]
fn metrics_uptime_counts_whole_seconds() {
    let m = Metrics::new(1_000);
    assert_eq!(m.snapshot(3_999).uptime_secs, 2);
    assert_eq!(m.snapshot(500).uptime_secs, 0);
}
