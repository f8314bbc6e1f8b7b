use cargo_check_i18n::RateLimiter;

#[test]
fn interval_from_rate() {
    assert_eq!(RateLimiter::new(8).interval(), 125_000_000);
    assert_eq!(RateLimiter::new(1).interval(), 1_000_000_000);
    assert_eq!(RateLimiter::new(0).interval(), 1_000_000_000);
    assert_eq!(RateLimiter::new(3).interval(), 333_333_333);
}

#[test]
fn first_call_passes_at_once() {
    let mut g = RateLimiter::new(8);
    assert_eq!(g.last(), None);
    assert_eq!(g.wait(42), 0);
    assert_eq!(g.last(), Some(42));
}

#[test]
fn close_calls_are_spaced() {
    let mut g = RateLimiter::new(8);
    let mut times = Vec::new();
    for now in [0u64, 10, 20, 30] {
        let d = g.wait(now);
        times.push(now + d);
        assert_eq!(g.last(), Some(now + d));
    }
    assert_eq!(times, vec![0, 125_000_000, 250_000_000, 375_000_000]);
    for w in times.windows(2) {
        assert!(w[1] - w[0] >= 125_000_000);
    }
}

#[test]
fn late_call_does_not_wait() {
    let mut g = RateLimiter::new(4);
    g.wait(0);
    assert_eq!(g.wait(300_000_000), 0);
    assert_eq!(g.last(), Some(300_000_000));
}
