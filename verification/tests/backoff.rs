use rathole::backoff::RetryBackoff;

const MS: u64 = 1_000_000;

fn next(b: &mut RetryBackoff) -> u64 {
    b.next_backoff().expect("the policy gave up")
}

#[test]
fn pauses_stay_around_the_interval() {
    for _ in 0..50 {
        let mut b = RetryBackoff::new(1000 * MS);
        for interval in [500 * MS, 750 * MS, 1000 * MS, 1000 * MS] {
            let d = next(&mut b);
            let high = (interval * 3 / 2 + 1).min(1000 * MS);
            assert!(interval / 2 <= d && d <= high, "{interval} {d}");
        }
    }
}

#[test]
fn no_pause_is_longer_than_the_longest() {
    let mut shortened = false;
    for _ in 0..50 {
        let mut b = RetryBackoff::new(100 * MS);
        assert_eq!(next(&mut b), 100 * MS);
        for _ in 0..5 {
            let d = next(&mut b);
            assert!(50 * MS <= d && d <= 100 * MS, "{d}");
            shortened = shortened || d < 100 * MS;
        }
        b.reset();
        assert_eq!(next(&mut b), 100 * MS);
    }
    assert!(shortened);
}
