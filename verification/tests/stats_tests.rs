use icmp_probe::stats::Stats;

#[test]
fn fresh_counters_are_zero_with_min_sentinel() {
    let mut s = Stats::new();
    let snap = s.zero_extract();
    assert_eq!(snap.reply, 0);
    assert_eq!(snap.non_reply, 0);
    assert_eq!(snap.timeout, 0);
    assert_eq!(snap.time_sum_us, 0);
    assert_eq!(snap.time_min_us, u64::MAX);
    assert_eq!(snap.time_max_us, 0);
    assert!(!snap.has_samples());
}

#[test]
fn reply_updates_all_latency_counters() {
    let mut s = Stats::new();
    s.update_micros_working(1200);
    s.update_micros_working(1800);
    assert_eq!(s.reply, 2);
    assert_eq!(s.non_reply, 0);
    assert_eq!(s.time_sum_us, 3000);
    assert_eq!(s.time_min_us, 1200);
    assert_eq!(s.time_max_us, 1800);
}

#[test]
fn non_reply_uses_its_own_bucket() {
    let mut s = Stats::new();
    s.update_micros_non_reply(500);
    assert_eq!(s.reply, 0);
    assert_eq!(s.non_reply, 1);
    assert_eq!(s.time_sum_us, 500);
    assert_eq!(s.time_min_us, 500);
    assert_eq!(s.time_max_us, 500);
}

#[test]
fn update_fail_counts_timeouts_only() {
    let mut s = Stats::new();
    s.update_fail();
    s.update_fail();
    assert_eq!(s.timeout, 2);
    assert_eq!(s.reply, 0);
    assert_eq!(s.time_sum_us, 0);
}

#[test]
fn zero_extract_returns_old_values_and_resets() {
    let mut s = Stats::new();
    s.update_micros_working(100);
    s.update_fail();
    let snap = s.zero_extract();
    assert_eq!(snap.reply, 1);
    assert_eq!(snap.timeout, 1);
    assert_eq!(snap.time_sum_us, 100);
    assert_eq!(snap.time_min_us, 100);
    assert_eq!(snap.time_max_us, 100);
    let again = s.zero_extract();
    assert_eq!(again.reply, 0);
    assert_eq!(again.timeout, 0);
    assert_eq!(again.time_sum_us, 0);
    assert_eq!(again.time_min_us, u64::MAX);
    assert_eq!(again.time_max_us, 0);
}

#[test]
fn counters_wrap_like_plain_adds() {
    let mut s = Stats {
        reply: u64::MAX,
        non_reply: 0,
        timeout: 0,
        time_sum_us: u64::MAX,
        time_min_us: u64::MAX,
        time_max_us: 0,
    };
    s.update_micros_working(5);
    assert_eq!(s.reply, 0);
    assert_eq!(s.time_sum_us, 4);
}

#[test]
fn average_over_both_buckets() {
    let mut s = Stats::new();
    s.update_micros_working(1200);
    s.update_micros_working(1800);
    let snap = s.zero_extract();
    assert!(snap.has_samples());
    assert_eq!(snap.avg_us(), Some(1500));

    let empty = s.zero_extract();
    assert_eq!(empty.avg_us(), None);
}
