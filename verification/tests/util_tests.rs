use icmp_probe::util::next_interval_delay;

#[test]
fn sleeps_to_the_next_boundary() {
    assert_eq!(next_interval_delay(7, 5), 3);
    assert_eq!(next_interval_delay(0, 5), 5);
    assert_eq!(next_interval_delay(4, 5), 1);
}

#[test]
fn a_tick_on_the_boundary_waits_a_full_interval() {
    assert_eq!(next_interval_delay(10, 5), 5);
    assert_eq!(next_interval_delay(5_000_000_000, 5_000_000_000), 5_000_000_000);
}

#[test]
fn wakeups_land_on_multiples_of_the_interval() {
    let interval: u128 = 5_000_000_000;
    for ep in [1u128, 999, interval - 1, interval, interval + 1, 3 * interval + 17] {
        let d = next_interval_delay(ep, interval);
        assert!(d > 0 && d <= interval);
        assert_eq!((ep + d) % interval, 0);
    }
}
