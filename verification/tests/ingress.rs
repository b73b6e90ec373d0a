use rathole::ingress::{
    run_ingress_handshake, IngressConfigError, IngressLimit, IngressLimiter, IngressOutcome,
    IngressPermit, IngressReport, IngressStats, IpAddr,
};

fn parse(text: &str) -> IpAddr {
    let mut n: u32 = 0;
    for part in text.split('.') {
        n = n * 256 + part.parse::<u32>().unwrap();
    }
    IpAddr::V4(n)
}

fn limiter(max_global: usize, max_per_ip: usize) -> IngressLimiter {
    match IngressLimiter::new(max_global, max_per_ip) {
        Ok(limiter) => limiter,
        Err(e) => panic!("{}", e.message()),
    }
}

fn acquire(limiter: &mut IngressLimiter, ip: IpAddr) -> IngressPermit {
    match limiter.try_acquire(ip) {
        Ok(permit) => permit,
        Err(limit) => panic!("unexpected ingress limit: {limit:?}"),
    }
}

#[test]
fn ingress_limiter_bounds_global_and_per_ip_concurrency() {
    let mut limiter = limiter(2, 1);
    let first_ip = parse("192.0.2.1");
    let second_ip = parse("192.0.2.2");
    let third_ip = parse("192.0.2.3");

    let first = acquire(&mut limiter, first_ip);
    assert!(matches!(
        limiter.try_acquire(first_ip),
        Err(IngressLimit::Peer)
    ));

    let second = acquire(&mut limiter, second_ip);
    assert!(matches!(
        limiter.try_acquire(third_ip),
        Err(IngressLimit::Global)
    ));

    limiter.release(first);
    let replacement = acquire(&mut limiter, first_ip);
    limiter.release(replacement);
    limiter.release(second);

    assert_eq!(limiter.available_permits(), 2);
    assert_eq!(limiter.active_peers(), 0);
}

#[test]
fn limiter_rejects_bad_bounds() {
    for (global, per_ip, expected) in [
        (0, 0, IngressConfigError::NoPendingHandshakes),
        (0, 1, IngressConfigError::NoPendingHandshakes),
        (1, 0, IngressConfigError::PerIpOutOfRange),
        (1, 2, IngressConfigError::PerIpOutOfRange),
    ] {
        match IngressLimiter::new(global, per_ip) {
            Ok(_) => panic!("{global} {per_ip}"),
            Err(e) => assert_eq!(e, expected),
        }
    }
    assert_eq!(
        IngressConfigError::NoPendingHandshakes.message(),
        "Maximum pending handshakes must be greater than zero"
    );
    assert_eq!(
        IngressConfigError::PerIpOutOfRange.message(),
        "Maximum pending handshakes per IP must be between one and the global limit"
    );
    assert!(IngressLimiter::new(3, 3).is_ok());
}

#[test]
fn global_limit_is_named_before_the_peer_limit() {
    let mut limiter = limiter(1, 1);
    let ip = IpAddr::V6(1);
    let permit = acquire(&mut limiter, ip);
    assert!(matches!(limiter.try_acquire(ip), Err(IngressLimit::Global)));
    limiter.release(permit);
    let again = acquire(&mut limiter, ip);
    assert_eq!(again.ip(), ip);
}

#[test]
fn families_are_told_apart() {
    let mut limiter = limiter(3, 1);
    let _a = acquire(&mut limiter, IpAddr::V4(7));
    let _b = acquire(&mut limiter, IpAddr::V6(7));
    assert_eq!(limiter.active_peers(), 2);
    assert_eq!(limiter.available_permits(), 1);
}

#[test]
fn one_address_leaves_room_for_another() {
    let mut limiter = limiter(3, 2);
    let busy = IpAddr::V4(1);
    let _a = acquire(&mut limiter, busy);
    let _b = acquire(&mut limiter, busy);
    assert!(matches!(limiter.try_acquire(busy), Err(IngressLimit::Peer)));
    let _c = acquire(&mut limiter, IpAddr::V4(2));
    assert_eq!(limiter.active_peers(), 2);
}

#[test]
fn report_takes_the_counts() {
    let mut limiter = limiter(2, 1);
    assert!(limiter.report().is_none());
    let a = acquire(&mut limiter, IpAddr::V4(1));
    let _ = limiter.try_acquire(IpAddr::V4(1));
    let b = acquire(&mut limiter, IpAddr::V4(2));
    let _ = limiter.try_acquire(IpAddr::V4(3));
    limiter.record_outcome(&IngressOutcome::<()>::Completed);
    limiter.release(a);
    limiter.record_outcome(&IngressOutcome::Failed("bad"));
    limiter.record_outcome(&IngressOutcome::<()>::TimedOut);
    assert_eq!(
        limiter.report(),
        Some(IngressReport {
            counts: IngressStats {
                completed: 1,
                failed: 1,
                timed_out: 1,
                rejected_global: 1,
                rejected_peer: 1,
            },
            active: 1,
            peers: 1,
        })
    );
    assert!(limiter.report().is_none());
    limiter.release(b);
}

#[test]
fn a_broken_off_handshake_is_not_counted() {
    let mut limiter = limiter(2, 2);
    let a = acquire(&mut limiter, IpAddr::V4(1));
    let _b = acquire(&mut limiter, IpAddr::V4(1));
    limiter.release(a);
    assert_eq!(limiter.available_permits(), 1);
    assert_eq!(limiter.report(), None);
}

#[test]
fn counters_wrap() {
    let mut stats = IngressStats {
        rejected_peer: u64::MAX,
        ..Default::default()
    };
    stats.record_limit(IngressLimit::Peer);
    assert_eq!(stats, IngressStats::default());
    stats.record_limit(IngressLimit::Global);
    assert_eq!(stats.rejected_global, 1);
    assert_eq!(
        stats.report(4, 3),
        Some(IngressReport {
            counts: IngressStats {
                rejected_global: 1,
                ..Default::default()
            },
            active: 4,
            peers: 3,
        })
    );
    assert_eq!(stats.report(4, 3), None);
}

#[test]
fn outcome_of_a_handshake_with_a_deadline() {
    assert!(matches!(
        run_ingress_handshake::<u8>(Some(Ok(()))),
        IngressOutcome::Completed
    ));
    assert!(matches!(
        run_ingress_handshake(Some(Err(3u8))),
        IngressOutcome::Failed(3)
    ));
    assert!(matches!(
        run_ingress_handshake::<u8>(None),
        IngressOutcome::TimedOut
    ));
}

#[test]
fn every_increment_is_reported_once() {
    let mut stats = IngressStats::default();
    let (mut failed, mut refused) = (0, 0);
    for round in 0..4 {
        for _ in 0..round {
            stats.record_outcome(&IngressOutcome::Failed("bad"));
            stats.record_limit(IngressLimit::Peer);
        }
        if let Some(report) = stats.report(0, 0) {
            failed += report.counts.failed;
            refused += report.counts.rejected_peer;
        }
        stats.record_outcome(&IngressOutcome::Failed("bad"));
    }
    assert_eq!(stats.failed, 1);
    assert_eq!(failed + stats.failed, 1 + 2 + 3 + 4);
    assert_eq!(refused + stats.rejected_peer, 1 + 2 + 3);
}
