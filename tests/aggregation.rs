use net_sniff::capture::PacketData;
use net_sniff::filter::{filter_records, matches_folded, record_matches};
use net_sniff::flows::{FlowKey, FlowTable};
use net_sniff::history::{RecordBuffer, ThroughputRing, RING_CAPACITY};
use net_sniff::inspector::{correlate, dominant_index, in_bucket, spike_summary, NANOS_PER_SECOND};
use net_sniff::monitor::{chart_window, due_ticks, Monitor};

fn record(ts: u64, app: &str, source: &str, dest: &str, len: usize) -> PacketData {
    PacketData {
        timestamp: ts,
        time_label: String::new(),
        summary: format!("{:<15} -> {:<15} | TCP:9", source, dest),
        full_details: String::new(),
        hex_dump: String::new(),
        app_name: String::from(app),
        source: String::from(source),
        dest: String::from(dest),
        proto_label: String::from("TCP:9"),
        length: len,
    }
}

fn key(source: &str, dest: &str, proto: &str, app: &str) -> FlowKey {
    FlowKey {
        source: String::from(source),
        dest: String::from(dest),
        proto_label: String::from(proto),
        app_name: String::from(app),
    }
}

#[test]
fn flow_totals_sum_per_key() {
    let mut t = FlowTable::new();
    t.add(key("a", "b", "TCP:1", "x"), 100);
    t.add(key("a", "c", "TCP:1", "x"), 7);
    t.add(key("a", "b", "TCP:1", "x"), 50);
    assert_eq!(t.get(&key("a", "b", "TCP:1", "x")), 150);
    assert_eq!(t.get(&key("a", "c", "TCP:1", "x")), 7);
    assert_eq!(t.get(&key("a", "b", "TCP:1", "y")), 0);
    assert_eq!(t.len(), 2);
}

#[test]
fn flow_totals_do_not_depend_on_order() {
    let deliveries = [("a", 10u64), ("b", 20), ("a", 5), ("c", 1), ("b", 2)];
    let mut forward = FlowTable::new();
    for (app, n) in deliveries.iter() {
        forward.add(key("s", "d", "UDP:1", app), *n);
    }
    let mut backward = FlowTable::new();
    for (app, n) in deliveries.iter().rev() {
        backward.add(key("s", "d", "UDP:1", app), *n);
    }
    for app in ["a", "b", "c"] {
        let k = key("s", "d", "UDP:1", app);
        assert_eq!(forward.get(&k), backward.get(&k));
    }
    assert_eq!(forward.get(&key("s", "d", "UDP:1", "a")), 15);
    assert_eq!(forward.get(&key("s", "d", "UDP:1", "b")), 22);
}

#[test]
fn flow_total_saturates() {
    let mut t = FlowTable::new();
    t.add(key("a", "b", "c", "d"), u64::MAX - 1);
    t.add(key("a", "b", "c", "d"), 10);
    assert_eq!(t.get(&key("a", "b", "c", "d")), u64::MAX);
}

#[test]
fn flows_ranked_largest_first_stable() {
    let mut t = FlowTable::new();
    t.add(key("1", "", "", ""), 5);
    t.add(key("2", "", "", ""), 9);
    t.add(key("3", "", "", ""), 5);
    t.add(key("4", "", "", ""), 1);
    assert_eq!(t.ranked(), vec![1, 0, 2, 3]);
    let e = t.entries();
    assert_eq!(e[1].key.source, "2");
}

#[test]
fn ring_evicts_exactly_the_oldest() {
    let mut ring = ThroughputRing::new(3);
    ring.push(1);
    ring.push(2);
    ring.push(3);
    assert_eq!(ring.to_vec(), vec![1, 2, 3]);
    ring.push(4);
    assert_eq!(ring.to_vec(), vec![2, 3, 4]);
    assert_eq!(ring.len(), 3);
    assert_eq!(*ring.get(0), 2);
}

#[test]
fn ring_starts_zero_filled() {
    let ring = ThroughputRing::zero_filled(RING_CAPACITY);
    assert_eq!(ring.len(), 200);
    assert!(ring.to_vec().iter().all(|v| *v == 0));
}

#[test]
fn record_buffer_evicts_oldest() {
    let mut buf = RecordBuffer::new(2);
    buf.push(record(1, "a", "s", "d", 1));
    buf.push(record(2, "b", "s", "d", 1));
    buf.push(record(3, "c", "s", "d", 1));
    assert_eq!(buf.len(), 2);
    assert_eq!(buf.get(0).timestamp, 2);
    assert_eq!(buf.get(1).timestamp, 3);
}

#[test]
fn tick_pushes_second_total() {
    let mut m = Monitor::new();
    m.deliver(record(1, "a", "s", "d", 60));
    m.deliver(record(2, "b", "s", "d", 40));
    assert_eq!(m.current(), 100);
    m.tick();
    assert_eq!(m.current(), 0);
    let chart = m.chart();
    assert_eq!(chart.len(), 200);
    assert_eq!(chart[199], 100);
    m.tick();
    let chart = m.chart();
    assert_eq!(chart[198], 100);
    assert_eq!(chart[199], 0);
}

#[test]
fn clear_keeps_ring() {
    let mut m = Monitor::new();
    m.deliver(record(1, "a", "s", "d", 60));
    m.tick();
    let before = m.ring().to_vec();
    m.clear();
    assert_eq!(m.records().len(), 0);
    assert_eq!(m.flows().len(), 0);
    assert_eq!(m.ring().to_vec(), before);
    assert_eq!(before[199], 60);
}

#[test]
fn pause_holds_records_until_resume() {
    let mut m = Monitor::new();
    m.deliver(record(1, "a", "s", "d", 10));
    m.toggle_pause(5);
    assert!(m.is_paused());
    assert_eq!(m.selected(), Some(199));
    m.deliver(record(2, "b", "s", "d", 20));
    assert_eq!(m.records().len(), 1);
    assert_eq!(m.current(), 10);
    m.toggle_pause(6);
    assert!(!m.is_paused());
    assert_eq!(m.selected(), None);
    assert_eq!(m.records().len(), 2);
    assert_eq!(m.records().get(1).timestamp, 2);
    assert_eq!(m.current(), 30);
    assert_eq!(m.flows().get(&key("s", "d", "TCP:9", "b")), 20);
}

#[test]
fn scrubbing_clamps_to_frozen_ring() {
    let mut m = Monitor::new();
    m.toggle_pause(0);
    m.scrub_right();
    assert_eq!(m.selected(), Some(199));
    m.scrub_left();
    assert_eq!(m.selected(), Some(198));
    for _ in 0..300 {
        m.scrub_left();
    }
    assert_eq!(m.selected(), Some(0));
}

#[test]
fn frozen_chart_ignores_later_ticks() {
    let mut m = Monitor::new();
    m.deliver(record(1, "a", "s", "d", 8));
    m.tick();
    m.toggle_pause(0);
    m.tick();
    assert_eq!(m.chart()[199], 8);
    assert_eq!(m.ring().to_vec()[199], 0);
}

const T: u64 = 100 * NANOS_PER_SECOND;

fn spike_buffer() -> RecordBuffer {
    let mut buf = RecordBuffer::new(10);
    buf.push(record(T - 2 * NANOS_PER_SECOND - 1, "old", "s", "d", 10));
    buf.push(record(T - NANOS_PER_SECOND - 500, "web", "s", "d", 30));
    buf.push(record(T - NANOS_PER_SECOND, "db", "s", "d", 7));
    buf.push(record(T - 2 * NANOS_PER_SECOND + 1, "web", "s", "d", 3));
    buf.push(record(T - 10, "now", "s", "d", 5));
    buf.push(record(T, "now", "s", "d", 0));
    buf.push(record(T + 1, "late", "s", "d", 99));
    buf
}

#[test]
fn spike_correlation_scenario() {
    let ring: Vec<u64> = vec![10, 0, 40, 5];
    let buf = spike_buffer();
    assert_eq!(correlate(&buf, ring.len(), 2, T), vec![1, 2, 3]);
    assert_eq!(correlate(&buf, ring.len(), 3, T), vec![4, 5]);
    assert_eq!(correlate(&buf, ring.len(), 1, T), vec![0]);
    assert_eq!(correlate(&buf, ring.len(), 0, T), Vec::<usize>::new());
    let s = spike_summary(&buf, &ring, 2, T);
    assert_eq!(s.seconds_ago, 1);
    assert_eq!(s.bucket_bytes, 40);
    assert_eq!(s.total_bytes, 40);
    assert_eq!(s.packet_count, 3);
    assert_eq!(s.dominant_app, Some(String::from("web")));
    let s = spike_summary(&buf, &ring, 3, T);
    assert_eq!(s.seconds_ago, 0);
    assert_eq!(s.bucket_bytes, 5);
    assert_eq!(s.packet_count, 2);
    assert_eq!(s.total_bytes, 5);
    let s = spike_summary(&buf, &ring, 0, T);
    assert_eq!(s.packet_count, 0);
    assert_eq!(s.dominant_app, None);
}

#[test]
fn bucket_membership_edges() {
    assert!(in_bucket(T, 4, 3, T));
    assert!(in_bucket(T - NANOS_PER_SECOND + 1, 4, 3, T));
    assert!(!in_bucket(T - NANOS_PER_SECOND, 4, 3, T));
    assert!(!in_bucket(T + 1, 4, 3, T));
    assert!(!in_bucket(T, 4, 4, T));
}

#[test]
fn dominant_app_ties_go_to_first_seen() {
    let apps: Vec<String> = ["b", "a", "a", "b", "c"].iter().map(|s| String::from(*s)).collect();
    assert_eq!(dominant_index(&apps), Some(0));
    let apps: Vec<String> = ["c", "a", "a", "b"].iter().map(|s| String::from(*s)).collect();
    assert_eq!(dominant_index(&apps), Some(1));
    assert_eq!(dominant_index(&Vec::new()), None);
}

#[test]
fn paused_monitor_inspects_selected_bucket() {
    let mut m = Monitor::new();
    m.deliver(record(T - 10, "now", "s", "d", 5));
    m.deliver(record(T - NANOS_PER_SECOND - 5, "web", "s", "d", 30));
    m.toggle_pause(T);
    assert_eq!(m.feed(""), vec![0]);
    let s = m.spike().unwrap();
    assert_eq!(s.packet_count, 1);
    assert_eq!(s.dominant_app, Some(String::from("now")));
    m.scrub_left();
    assert_eq!(m.feed(""), vec![1]);
    m.toggle_pause(T);
    assert!(m.spike().is_none());
    assert_eq!(m.feed(""), vec![0, 1]);
    assert_eq!(m.feed("WEB"), vec![1]);
}

#[test]
fn filter_ignores_case() {
    let r = record(1, "Firefox", "10.0.0.1", "1.1.1.1", 1);
    assert!(record_matches("", &r));
    assert!(record_matches("FIREFOX", &r));
    assert!(record_matches("tcp:9", &r));
    assert!(record_matches("10.0.0", &r));
    assert!(!record_matches("chrome", &r));
    assert!(matches_folded("fox", "x", "firefox"));
    assert!(!matches_folded("Fox", "x", "firefox"));
}

#[test]
fn filter_records_keeps_order() {
    let mut buf = RecordBuffer::new(5);
    buf.push(record(1, "curl", "s", "d", 1));
    buf.push(record(2, "ssh", "s", "d", 1));
    buf.push(record(3, "CURL", "s", "d", 1));
    assert_eq!(filter_records(&buf, "Curl"), vec![0, 2]);
    assert_eq!(filter_records(&buf, ""), vec![0, 1, 2]);
}

#[test]
fn chart_window_shows_newest() {
    assert_eq!(chart_window(200, 50, Some(199)), (150, Some(49)));
    assert_eq!(chart_window(200, 50, Some(10)), (150, None));
    assert_eq!(chart_window(20, 50, Some(3)), (0, Some(3)));
    assert_eq!(chart_window(20, 50, None), (0, None));
}

#[test]
fn every_ended_second_gets_a_tick() {
    assert_eq!(due_ticks(0, 999_999_999), (0, 0));
    assert_eq!(due_ticks(0, 1_000_000_000), (1, 1_000_000_000));
    assert_eq!(due_ticks(500, 3_000_000_600), (3, 3_000_000_500));
    assert_eq!(due_ticks(10, 5), (0, 10));
}
