use psutil::net_table::parse_net_dev;
use psutil::network::{nowrap, nowrap_struct, NetIoCounters, NetIoCountersCollector};

fn one(name: &str, c: NetIoCounters) -> Vec<(String, NetIoCounters)> {
    vec![(name.to_string(), c)]
}

fn table(lines: &[&str]) -> String {
    let mut t = String::from("Inter-|   Receive                                                |  Transmit\n");
    t.push_str(" face |bytes    packets errs drop fifo frame compressed multicast|bytes    packets errs drop fifo colls carrier compressed\n");
    for l in lines {
        t.push_str(l);
        t.push('\n');
    }
    t
}

#[test]
fn add_then_sub_gives_back_the_first() {
    let a = NetIoCounters::new(1, 2, 3, 4, 5, 6, 7, u64::MAX);
    let b = NetIoCounters::new(10, 20, 30, 40, 50, 60, 70, 5);
    assert_eq!((a + b) - b, a);
    let s = a + b;
    assert_eq!(s.bytes_sent(), 11);
    assert_eq!(s.drop_out(), 4);
    assert_eq!(b.minus(&a).drop_out(), 6);
}

#[test]
fn first_poll_passes_through() {
    let mut c = NetIoCountersCollector::new();
    let raw = one("eth0", NetIoCounters::new(100, 200, 3, 4, 0, 0, 0, 0));
    let out = c.normalize(raw.clone());
    assert_eq!(out, raw);
}

#[test]
fn second_poll_adds_exact_delta() {
    let mut c = NetIoCountersCollector::default();
    c.normalize(one("eth0", NetIoCounters::new(100, 200, 3, 4, 0, 0, 0, 0)));
    let out = c.normalize(one("eth0", NetIoCounters::new(150, 260, 5, 4, 1, 0, 0, 2)));
    assert_eq!(out, one("eth0", NetIoCounters::new(150, 260, 5, 4, 1, 0, 0, 2)));
    let out = c.normalize(one("eth0", NetIoCounters::new(160, 300, 5, 9, 1, 0, 0, 2)));
    assert_eq!(out, one("eth0", NetIoCounters::new(160, 300, 5, 9, 1, 0, 0, 2)));
}

#[test]
fn wraparound_adds_the_distance_past_the_limit() {
    assert_eq!(nowrap(4294967290, 5, 1000), 1010);
    assert_eq!(nowrap(10, 25, 1000), 1015);
    let mut c = NetIoCountersCollector::new();
    c.normalize(one("eth0", NetIoCounters::new(4294967290, 7, 0, 0, 0, 0, 0, 0)));
    let out = c.normalize(one("eth0", NetIoCounters::new(5, 8, 0, 0, 0, 0, 0, 0)));
    assert_eq!(out[0].1.bytes_sent(), 4294967290 + 10);
    assert_eq!(out[0].1.bytes_recv(), 8);
    let out = c.normalize(one("eth0", NetIoCounters::new(6, 8, 0, 0, 0, 0, 0, 0)));
    assert_eq!(out[0].1.bytes_sent(), 4294967290 + 11);
}

#[test]
fn wraparound_on_every_field() {
    let prev = NetIoCounters::new(4294967290, 4294967290, 4294967290, 4294967290, 4294967290, 4294967290, 4294967290, 4294967290);
    let now = NetIoCounters::new(5, 5, 5, 5, 5, 5, 5, 5);
    let corrected = NetIoCounters::new(1, 2, 3, 4, 5, 6, 7, 8);
    assert_eq!(nowrap_struct(&prev, &now, &corrected), NetIoCounters::new(11, 12, 13, 14, 15, 16, 17, 18));
}

#[test]
fn new_interfaces_pass_through_and_gone_ones_drop() {
    let mut c = NetIoCountersCollector::new();
    c.normalize(one("eth0", NetIoCounters::new(10, 10, 0, 0, 0, 0, 0, 0)));
    let out = c.normalize(one("wlan0", NetIoCounters::new(3, 3, 0, 0, 0, 0, 0, 0)));
    assert_eq!(out, one("wlan0", NetIoCounters::new(3, 3, 0, 0, 0, 0, 0, 0)));
}

#[test]
fn parses_the_counter_table() {
    let t = table(&[
        "    lo: 1000 10 0 0 0 0 0 0 1000 10 0 0 0 0 0 0",
        "  eth0: 5000 50 1 2 0 0 0 0 7000 70 3 4 0 0 0 0",
    ]);
    let m = parse_net_dev(&t).unwrap();
    assert_eq!(m.len(), 2);
    assert_eq!(m[0].0, "lo");
    assert_eq!(m[1].0, "eth0");
    assert_eq!(m[1].1, NetIoCounters::new(7000, 5000, 70, 50, 1, 3, 2, 4));
}

#[test]
fn malformed_table_line_is_a_parse_failure() {
    let t = table(&["  eth0: 5000 50 1 2"]);
    assert!(matches!(parse_net_dev(&t), Err(psutil::Error::ParseFailure { .. })));
    let t = table(&["  eth0 5000 50 1 2 0 0 0 0 7000 70 3 4 0 0 0 0"]);
    assert!(parse_net_dev(&t).is_err());
    let t = table(&["  eth0: 5000 x 1 2 0 0 0 0 7000 70 3 4 0 0 0 0"]);
    assert!(parse_net_dev(&t).is_err());
}

#[test]
fn collector_sums_and_filters() {
    let t = table(&[
        "    lo: 1000 10 0 0 0 0 0 0 1000 10 0 0 0 0 0 0",
        "  eth0: 5000 50 1 2 0 0 0 0 7000 70 3 4 0 0 0 0",
    ]);
    let mut c = NetIoCountersCollector::new();
    let total = c.net_io_counters(&t).unwrap();
    assert_eq!(total, NetIoCounters::new(8000, 6000, 80, 60, 1, 3, 2, 4));
    let mut d = NetIoCountersCollector::new();
    let mine = d.this_net_io_counters_pernic("eth0", &t).unwrap();
    assert_eq!(mine.len(), 1);
    assert_eq!(mine[0].1.bytes_recv(), 5000);
    let mut e = NetIoCountersCollector::new();
    let sum = e.this_net_io_counters("lo", &t).unwrap();
    assert_eq!(sum.packets_sent(), 10);
    let per = e.net_io_counters_pernic(&t).unwrap();
    assert_eq!(per.len(), 2);
}

#[test]
fn bad_table_leaves_the_collector_alone() {
    let good = table(&["  eth0: 5000 50 1 2 0 0 0 0 4294967290 70 3 4 0 0 0 0"]);
    let bad = table(&["  eth0: 5000"]);
    let later = table(&["  eth0: 5000 50 1 2 0 0 0 0 5 70 3 4 0 0 0 0"]);
    let mut c = NetIoCountersCollector::new();
    c.net_io_counters_pernic(&good).unwrap();
    assert!(c.net_io_counters_pernic(&bad).is_err());
    let out = c.net_io_counters_pernic(&later).unwrap();
    assert_eq!(out[0].1.bytes_sent(), 4294967300);
}

#[test]
fn later_line_of_an_interface_replaces_the_earlier() {
    let t = table(&[
        "  eth0: 1 1 0 0 0 0 0 0 1 1 0 0 0 0 0 0",
        "    lo: 2 2 0 0 0 0 0 0 2 2 0 0 0 0 0 0",
        "  eth0: 9 9 0 0 0 0 0 0 9 9 0 0 0 0 0 0",
    ]);
    let m = parse_net_dev(&t).unwrap();
    assert_eq!(m.len(), 2);
    assert_eq!(m[0].0, "eth0");
    assert_eq!(m[0].1.bytes_recv(), 9);
    assert_eq!(m[1].0, "lo");
}
