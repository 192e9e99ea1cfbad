use lockstep::Ewma;
use lockstep::PingSendTimes;

#[test]
fn test_ewma_default_and_observe() {
    // default smoothing factor is one tenth, starting from zero
    let mut e = Ewma::default();
    assert_eq!(e.value(), 0);

    // one tenth of the distance to each sample, rounded down
    e.observe(100);
    assert_eq!(e.value(), 10);
    e.observe(100);
    assert_eq!(e.value(), 19);
}

#[test]
fn test_ewma_with_value_and_set() {
    let e = Ewma::new_with_value(1, 10, 100);
    assert_eq!(e.value(), 100);

    let mut e2 = e.with_value(200);
    assert_eq!(e2.value(), 200);

    // (1 * 100 + 9 * 200) / 10
    e2.observe(100);
    assert_eq!(e2.value(), 190);

    e2.set(5);
    assert_eq!(e2.value(), 5);

    // a half smoothing factor moves halfway to the sample
    e2.set_exp(1, 2);
    e2.observe(15);
    assert_eq!(e2.value(), 10);
}

#[test]
fn test_ewma_alpha_one_tracks_sample() {
    let mut e = Ewma::new(1, 1);
    e.observe(123);
    assert_eq!(e.value(), 123);
    e.observe(7);
    assert_eq!(e.value(), 7);
}

#[test]
fn test_ping_send_times_match_and_remove() {
    let mut pings = PingSendTimes::new();
    let a = pings.send_next_ping(100);
    let b = pings.send_next_ping(250);
    assert_eq!(a, 0);
    assert_eq!(b, 1);

    // taking a ping returns its send time and removes it
    assert_eq!(pings.take(a), Some(100));
    assert_eq!(pings.take(a), None);
    assert_eq!(pings.take(b), Some(250));

    // an id never sent is not outstanding
    assert_eq!(pings.take(99), None);
}

#[test]
fn test_ping_record_send_overwrites() {
    let mut pings = PingSendTimes::new();
    pings.record_send(7, 100);
    pings.record_send(7, 300);
    assert_eq!(pings.take(7), Some(300));
}
