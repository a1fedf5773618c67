use ghost_crab::rate_limit::{Rate, RateLimit, RateLimitLayer, Readiness};

#[test]
fn three_per_second_serves_ten_requests_in_four_windows() {
    let layer = RateLimitLayer::new(3, 1000);
    let mut limiter = layer.layer(0);
    let mut pending: Vec<u32> = (0..10).collect();
    let mut completed_at: Vec<(u32, u64)> = Vec::new();
    let mut now = 0;
    while !pending.is_empty() {
        let mut still = Vec::new();
        for req in pending {
            match limiter.poll_ready(now) {
                Readiness::Available => {
                    limiter.charge();
                    completed_at.push((req, now))
                }
                Readiness::Exhausted { until } => {
                    assert_eq!(until, now + 1000);
                    still.push(req)
                }
            }
        }
        pending = still;
        now += 1000;
    }
    let in_window = |w: u64| completed_at.iter().filter(|(_, t)| *t / 1000 == w).count();
    assert_eq!(in_window(0), 3);
    assert_eq!(in_window(1), 3);
    assert_eq!(in_window(2), 3);
    assert_eq!(in_window(3), 1);
    assert_eq!(completed_at.len(), 10);
}

fn check_and_charge(limiter: &mut RateLimit, now: u64) -> Readiness {
    let r = limiter.poll_ready(now);
    if r == Readiness::Available {
        limiter.charge();
    }
    r
}

#[test]
fn a_check_alone_charges_nothing() {
    let mut limiter = RateLimit::new(Rate { limit: 1, period: 1000 }, 0);
    assert_eq!(limiter.poll_ready(10), Readiness::Available);
    assert_eq!(limiter.state.reserved, 0);
    assert_eq!(check_and_charge(&mut limiter, 20), Readiness::Available);
    assert_eq!(limiter.poll_ready(30), Readiness::Exhausted { until: 1000 });
}

#[test]
fn expired_window_reopens_at_now() {
    let mut limiter = RateLimit::new(Rate { limit: 2, period: 100 }, 0);
    assert_eq!(check_and_charge(&mut limiter, 0), Readiness::Available);
    assert_eq!(check_and_charge(&mut limiter, 0), Readiness::Available);
    assert_eq!(check_and_charge(&mut limiter, 50), Readiness::Exhausted { until: 100 });
    assert_eq!(check_and_charge(&mut limiter, 250), Readiness::Available);
    assert_eq!(limiter.state.window_end, 350);
    assert_eq!(limiter.state.reserved, 1);
}

#[test]
fn zero_limit_admits_nothing() {
    let mut limiter = RateLimit::new(Rate { limit: 0, period: 100 }, 0);
    assert_eq!(limiter.poll_ready(0), Readiness::Exhausted { until: 100 });
}

#[test]
fn window_end_saturates() {
    let limiter = RateLimit::new(Rate { limit: 1, period: 10 }, u64::MAX - 5);
    assert_eq!(limiter.state.window_end, u64::MAX);
}

#[test]
fn layer_keeps_rate() {
    let layer = RateLimitLayer::new(7, 1000);
    assert_eq!(layer.rate.limit, 7);
    assert_eq!(layer.rate.period, 1000);
}
