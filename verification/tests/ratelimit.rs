use mooshie_core::ratelimit::RateLimiter;

#[test]
fn allows_up_to_limit_then_blocks() {
    let mut rl = RateLimiter::new(3);
    assert!(rl.check("1.2.3.4", 100));
    assert!(rl.check("1.2.3.4", 101));
    assert!(rl.check("1.2.3.4", 102));
    assert!(!rl.check("1.2.3.4", 103), "4th in same window is blocked");
}

#[test]
fn resets_in_next_window() {
    let mut rl = RateLimiter::new(1);
    assert!(rl.check("ip", 0));
    assert!(!rl.check("ip", 30));
    assert!(rl.check("ip", 60), "new 60s window resets the count");
}

#[test]
fn keys_are_independent() {
    let mut rl = RateLimiter::new(1);
    assert!(rl.check("a", 0));
    assert!(rl.check("b", 0));
}

#[test]
fn zero_limit_refuses_everything() {
    let mut rl = RateLimiter::new(0);
    assert!(!rl.check("a", 0));
    assert!(!rl.check("a", 600));
}
