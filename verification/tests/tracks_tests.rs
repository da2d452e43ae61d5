use icmp_probe::cli::{Config, HostAddress, HostInfo, LogLevel};
use icmp_probe::tracks::{Tracks, UpdateSendIteration};

fn config_with(ips: Vec<HostInfo>) -> Config {
    Config {
        interval_ns: 1_000_000_000,
        timeout_ns: 5_000_000_000,
        stat_interval_ns: 5_000_000_000,
        ips,
        raw_write_odd: false,
        log_level: LogLevel::Info,
        ident_base: 22000,
    }
}

fn three_hosts() -> Config {
    config_with(vec![
        HostInfo::new(Some(String::from("a")), HostAddress::V4(0x0a000001)),
        HostInfo::new(Some(String::from("b")), HostAddress::V4(0x0a000002)),
        HostInfo::new(None, HostAddress::V6(0x20010db8_00000000_00000000_00000001)),
    ])
}

#[test]
fn table_built_in_configuration_order_with_sequential_idents() {
    let t = Tracks::new(&three_hosts()).unwrap();
    assert_eq!(t.hosts.len(), 3);
    assert_eq!(t.hosts[0].ident, 22000);
    assert_eq!(t.hosts[1].ident, 22001);
    assert_eq!(t.hosts[2].ident, 22002);
    assert_eq!(t.hosts[1].host.host, Some(String::from("b")));
    assert_eq!(t.hosts[1].host.ip, HostAddress::V4(0x0a000002));
    assert_eq!(t.hosts[0].last_seq, None);
    assert_eq!(t.hosts[0].last_time, None);
    assert!(!t.hosts[0].mark);
}

#[test]
fn ident_assignment_wraps_at_sixteen_bits() {
    let mut cfg = three_hosts();
    cfg.ident_base = 0xffff;
    let t = Tracks::new(&cfg).unwrap();
    assert_eq!(t.hosts[0].ident, 0xffff);
    assert_eq!(t.hosts[1].ident, 0);
    assert_eq!(t.hosts[2].ident, 1);
}

#[test]
fn duplicate_address_is_a_configuration_error() {
    let cfg = config_with(vec![
        HostInfo::new(Some(String::from("x")), HostAddress::V4(1)),
        HostInfo::new(Some(String::from("y")), HostAddress::V4(2)),
        HostInfo::new(Some(String::from("z")), HostAddress::V4(1)),
    ]);
    let r = Tracks::new(&cfg);
    assert!(r.is_err());
    let dup = r.err().unwrap();
    assert_eq!(dup.0, HostAddress::V4(1));
}

#[test]
fn timeout_inferred_at_next_send_exactly_once() {
    let ip = HostAddress::V4(7);
    let cfg = config_with(vec![HostInfo::new(None, ip)]);
    let mut t = Tracks::new(&cfg).unwrap();

    // first send: nothing outstanding, no timeout
    t.update_for_send(ip, 1_000, 22000, 5);
    assert_eq!(t.hosts[0].stats.timeout, 0);
    assert_eq!(t.hosts[0].last_seq, Some(5));

    // next send with the previous request still unanswered: one timeout
    t.update_for_send(ip, 2_000, 22000, 6);
    assert_eq!(t.hosts[0].stats.timeout, 1);

    // a late reply now arrives: recorded, but no double-counting
    let got = t.update_for_recv(ip, 2_500, 22000, 6, true);
    assert!(got);
    assert_eq!(t.hosts[0].stats.timeout, 1);
    assert_eq!(t.hosts[0].stats.reply, 1);

    // the answered request causes no timeout at the send after it
    let was_answered = t.update_for_send(ip, 3_000, 22000, 7);
    assert!(was_answered);
    assert_eq!(t.hosts[0].stats.timeout, 1);
}

#[test]
fn reply_from_unmonitored_source_changes_nothing() {
    let ip = HostAddress::V4(7);
    let cfg = config_with(vec![HostInfo::new(None, ip)]);
    let mut t = Tracks::new(&cfg).unwrap();
    t.update_for_send(ip, 1_000, 22000, 1);

    let got = t.update_for_recv(HostAddress::V4(8), 1_500, 22000, 1, true);
    assert!(!got);
    assert_eq!(t.hosts[0].stats.reply, 0);
    assert_eq!(t.hosts[0].stats.non_reply, 0);
    assert_eq!(t.hosts[0].stats.timeout, 0);
    assert!(!t.hosts[0].mark);
}

#[test]
fn snapshot_resets_counters_to_na_state() {
    let ip = HostAddress::V4(7);
    let cfg = config_with(vec![HostInfo::new(Some(String::from("h")), ip)]);
    let mut t = Tracks::new(&cfg).unwrap();
    t.update_for_send(ip, 0, 22000, 1);
    t.update_for_recv(ip, 777, 22000, 1, true);

    let first = t.snapshot_and_reset();
    assert_eq!(first.len(), 1);
    assert_eq!(first[0].0.host, Some(String::from("h")));
    assert_eq!(first[0].1.reply, 1);
    assert_eq!(first[0].1.time_sum_us, 777);

    let second = t.snapshot_and_reset();
    assert_eq!(second[0].1.reply, 0);
    assert_eq!(second[0].1.non_reply, 0);
    assert_eq!(second[0].1.timeout, 0);
    assert_eq!(second[0].1.time_sum_us, 0);
    assert_eq!(second[0].1.time_min_us, u64::MAX);
    assert_eq!(second[0].1.time_max_us, 0);
    assert!(!second[0].1.has_samples());
}

#[test]
fn window_where_only_one_host_replies() {
    let a = HostAddress::V4(1);
    let b = HostAddress::V4(2);
    let c = HostAddress::V4(3);
    let cfg = config_with(vec![
        HostInfo::new(Some(String::from("a")), a),
        HostInfo::new(Some(String::from("b")), b),
        HostInfo::new(Some(String::from("c")), c),
    ]);
    let mut t = Tracks::new(&cfg).unwrap();

    // one send round at time 0
    let round = vec![
        UpdateSendIteration { ident: 22000, ip: a, now: 0 },
        UpdateSendIteration { ident: 22001, ip: b, now: 0 },
        UpdateSendIteration { ident: 22002, ip: c, now: 0 },
    ];
    t.update_for_send_bulk(&round, 100);

    // only b answers, twice
    assert!(t.update_for_recv(b, 1200, 22001, 100, true));
    assert!(t.update_for_recv(b, 1800, 22001, 100, true));

    let snap = t.snapshot_and_reset();
    assert_eq!(snap.len(), 3);

    let (ref bh, ref bs) = snap[1];
    assert_eq!(bh.host, Some(String::from("b")));
    assert_eq!(bs.reply, 2);
    assert_eq!(bs.avg_us(), Some(1500));
    assert_eq!(bs.time_min_us, 1200);
    assert_eq!(bs.time_max_us, 1800);

    for i in [0usize, 2] {
        let (_, ref s) = snap[i];
        assert_eq!(s.reply, 0);
        assert_eq!(s.non_reply, 0);
        assert_eq!(s.timeout, 0);
        assert!(!s.has_samples());
    }
}

#[test]
fn mismatched_sequence_still_records_latency() {
    let ip = HostAddress::V4(9);
    let cfg = config_with(vec![HostInfo::new(None, ip)]);
    let mut t = Tracks::new(&cfg).unwrap();
    t.update_for_send(ip, 1_000, 22000, 5);

    // the reply carries sequence 4, not the 5 just sent
    let got = t.update_for_recv(ip, 2_200, 22000, 4, true);
    assert!(got);
    assert_eq!(t.hosts[0].stats.reply, 1);
    assert_eq!(t.hosts[0].stats.time_sum_us, 1_200);
    assert!(t.hosts[0].mark);
    // the mismatch is visible to the caller for logging
    assert_eq!(t.hosts[0].last_seq, Some(5));
}

#[test]
fn non_reply_type_goes_to_its_own_bucket() {
    let ip = HostAddress::V4(9);
    let cfg = config_with(vec![HostInfo::new(None, ip)]);
    let mut t = Tracks::new(&cfg).unwrap();
    t.update_for_send(ip, 0, 22000, 1);
    t.update_for_recv(ip, 300, 22000, 1, false);
    assert_eq!(t.hosts[0].stats.reply, 0);
    assert_eq!(t.hosts[0].stats.non_reply, 1);
    assert_eq!(t.hosts[0].stats.time_sum_us, 300);
}

#[test]
fn bulk_send_touches_every_listed_host() {
    let a = HostAddress::V4(1);
    let b = HostAddress::V4(2);
    let cfg = config_with(vec![HostInfo::new(None, a), HostInfo::new(None, b)]);
    let mut t = Tracks::new(&cfg).unwrap();
    let round = vec![
        UpdateSendIteration { ident: 22000, ip: a, now: 10 },
        UpdateSendIteration { ident: 22001, ip: b, now: 11 },
    ];
    t.update_for_send_bulk(&round, 42);
    assert_eq!(t.hosts[0].last_seq, Some(42));
    assert_eq!(t.hosts[0].last_time, Some(10));
    assert_eq!(t.hosts[1].last_seq, Some(42));
    assert_eq!(t.hosts[1].last_time, Some(11));

    // a second round with nothing answered counts one timeout per host
    t.update_for_send_bulk(&round, 43);
    assert_eq!(t.hosts[0].stats.timeout, 1);
    assert_eq!(t.hosts[1].stats.timeout, 1);
}
