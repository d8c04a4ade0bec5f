use datum_connect::state::Authority;
use datum_connect::tunnel_activity::{
    authority_lookup_variants, metrics_bytes_for_tunnel, tunnel_counters, TunnelActivityTracker,
    UpstreamMetrics,
};
use datum_connect::tunnels::TunnelSummary;

fn tunnel(id: &str, label: &str, endpoint: &str) -> TunnelSummary {
    TunnelSummary {
        id: id.to_string(),
        label: label.to_string(),
        endpoint: endpoint.to_string(),
        hostnames: vec![],
        enabled: true,
        accepted: true,
        programmed: true,
    }
}

fn rate(bytes: u64, nanos: u128) -> u64 {
    let seconds = (nanos as f64 / 1e9).max(0.001);
    (bytes as f64 / seconds) as u64
}

const SECOND: u128 = 1_000_000_000;

#[test]
fn recent_active_includes_idle_tunnels() {
    let mut tracker = TunnelActivityTracker::new();
    let tunnels = vec![tunnel("t1", "app", "http://127.0.0.1:8080")];
    let metrics = UpstreamMetrics::default();
    tracker.tick(&tunnels, &metrics, 0, rate);
    let recent = tracker.recent_active(5);
    assert_eq!(recent.len(), 1);
    assert_eq!(recent[0].tunnel_id, "t1");
    assert_eq!(recent[0].label, "app");
    assert!(recent[0].online);
    assert_eq!(recent[0].rate_per_s, 0);
}

#[test]
fn traffic_is_counted_from_sample_to_sample() {
    let mut tracker = TunnelActivityTracker::new();
    let tunnels = vec![tunnel("a", "A", "http://h:1"), tunnel("b", "B", "http://h:2")];
    let counters = |a: (u64, u64), b: (u64, u64)| {
        vec![("a".to_string(), a.0, a.1), ("b".to_string(), b.0, b.1)]
    };
    tracker.tick_counters(&tunnels, &counters((100, 0), (0, 0)), 0, rate);
    assert_eq!(tracker.recent_active(9)[0].bytes_last_hour, 0);
    tracker.tick_counters(&tunnels, &counters((100, 0), (30, 10)), 2 * SECOND, rate);
    let recent = tracker.recent_active(9);
    assert_eq!(recent[0].tunnel_id, "b");
    assert_eq!(recent[0].bytes_last_hour, 40);
    assert_eq!(recent[0].rate_per_s, 20);
    assert_eq!(recent[0].last_activity_at, 2 * SECOND);
    assert_eq!(recent[1].tunnel_id, "a");
    assert_eq!(recent[1].rate_per_s, 0);
    assert_eq!(recent[1].last_activity_at, 2 * SECOND);
    // A counter that went back is counted anew.
    tracker.tick_counters(&tunnels, &counters((5, 0), (30, 10)), 3 * SECOND, rate);
    let recent = tracker.recent_active(9);
    assert_eq!((recent[0].tunnel_id.as_str(), recent[0].rate_per_s), ("b", 0));
    assert_eq!(recent[0].bytes_last_hour, 40);
    // Traffic of more than an hour ago no longer counts.
    tracker.tick_counters(&tunnels, &counters((6, 0), (30, 10)), 3603 * SECOND, rate);
    let recent = tracker.recent_active(1);
    assert_eq!(recent.len(), 1);
    assert_eq!((recent[0].tunnel_id.as_str(), recent[0].bytes_last_hour), ("a", 1));
    let recent = tracker.recent_active(9);
    assert_eq!(recent[1].bytes_last_hour, 0);
    assert!(tracker.totals_fit());
}

#[test]
fn tunnels_that_are_gone_are_forgotten() {
    let mut tracker = TunnelActivityTracker::default();
    tracker.tick_counters(&vec![tunnel("a", "A", "http://h:1")], &vec![], 0, rate);
    tracker.tick_counters(&vec![tunnel("b", "B", "http://h:1")], &vec![], 1, rate);
    let recent = tracker.recent_active(9);
    assert_eq!(recent.len(), 1);
    assert_eq!(recent[0].tunnel_id, "b");
    tracker.tick_counters(&vec![tunnel("c", "C", "nowhere")], &vec![], 2, rate);
    assert!(tracker.recent_active(9).is_empty());
}

#[test]
fn tracked_tunnels_stay_while_they_are_listed() {
    let mut tracker = TunnelActivityTracker::new();
    let bytes = |n: u64| vec![("a".to_string(), n, 0)];
    tracker.tick_counters(&vec![tunnel("a", "A", "http://h:1")], &bytes(5), 0, rate);
    tracker.tick_counters(&vec![tunnel("a", "A", "http://h:1")], &bytes(9), SECOND, rate);
    assert_eq!(tracker.recent_active(9)[0].bytes_last_hour, 4);
    // An endpoint that names no origin server any more leaves the tunnel as it was.
    tracker.tick_counters(&vec![tunnel("a", "New", "nowhere")], &bytes(20), 2 * SECOND, rate);
    let recent = tracker.recent_active(9);
    assert_eq!((recent.len(), recent[0].label.as_str(), recent[0].bytes_last_hour), (1, "A", 4));
    // One that was never sampled is not tracked for such an endpoint.
    let both = vec![tunnel("a", "A", "http://h:1"), tunnel("b", "B", "nowhere")];
    tracker.tick_counters(&both, &bytes(20), 3 * SECOND, rate);
    let recent = tracker.recent_active(9);
    assert_eq!((recent.len(), recent[0].bytes_last_hour), (1, 15));
}

#[test]
fn tunnel_that_comes_back_starts_anew() {
    let mut tracker = TunnelActivityTracker::new();
    let listed = vec![tunnel("a", "A", "http://h:1")];
    let bytes = |n: u64| vec![("a".to_string(), n, n)];
    tracker.tick_counters(&listed, &bytes(1), 0, rate);
    tracker.tick_counters(&listed, &bytes(50), SECOND, rate);
    assert_eq!(tracker.recent_active(9)[0].bytes_last_hour, 98);
    tracker.tick_counters(&vec![], &bytes(60), 2 * SECOND, rate);
    assert!(tracker.recent_active(9).is_empty());
    tracker.tick_counters(&listed, &bytes(90), 3 * SECOND, rate);
    let recent = tracker.recent_active(9);
    assert_eq!((recent.len(), recent[0].bytes_last_hour, recent[0].rate_per_s), (1, 0, 0));
    assert_eq!(recent[0].last_activity_at, 3 * SECOND);
}

#[test]
fn counters_may_be_as_large_as_they_get() {
    let mut tracker = TunnelActivityTracker::new();
    let listed = vec![tunnel("a", "A", "http://h:1")];
    let bytes = |sent: u64, received: u64| vec![("a".to_string(), sent, received)];
    assert!(tracker.deltas_fit(&listed, &bytes(u64::MAX, u64::MAX)));
    tracker.tick_counters(&listed, &bytes(u64::MAX - 2, u64::MAX - 3), 0, rate);
    assert!(tracker.deltas_fit(&listed, &bytes(u64::MAX, u64::MAX)));
    tracker.tick_counters(&listed, &bytes(u64::MAX, u64::MAX), SECOND, rate);
    assert_eq!(tracker.recent_active(9)[0].bytes_last_hour, 5);
    // From nothing to all of it in one step is more than one number holds.
    let mut tracker = TunnelActivityTracker::new();
    tracker.tick_counters(&listed, &bytes(0, 0), 0, rate);
    assert!(tracker.deltas_fit(&listed, &bytes(u64::MAX, 0)));
    assert!(!tracker.deltas_fit(&listed, &bytes(u64::MAX, 1)));
    assert!(tracker.deltas_fit(&vec![tunnel("a", "A", "nowhere")], &bytes(u64::MAX, 1)));
    assert!(tracker.deltas_fit(&vec![tunnel("b", "B", "http://h:1")], &bytes(u64::MAX, 1)));
}

#[test]
fn tunnels_shown_are_those_used_last() {
    let mut tracker = TunnelActivityTracker::new();
    let ids = ["a", "b", "c", "d"];
    let mut listed: Vec<TunnelSummary> =
        ids.iter().map(|id| tunnel(id, id, "http://h:1")).collect();
    // The same tunnel listed twice is tracked once.
    listed.push(tunnel("a", "again", "http://h:1"));
    let bytes = |used: &str, n: u64| vec![(used.to_string(), n, 0)];
    tracker.tick_counters(&listed, &vec![], 0, rate);
    tracker.tick_counters(&listed, &bytes("c", 1), SECOND, rate);
    tracker.tick_counters(&listed, &bytes("b", 1), 2 * SECOND, rate);
    let shown = |limit: usize| -> Vec<String> {
        tracker.recent_active(limit).into_iter().map(|e| e.tunnel_id).collect()
    };
    assert_eq!(shown(2), vec!["b", "c"]);
    assert_eq!(shown(9), vec!["b", "c", "a", "d"]);
    assert!(shown(0).is_empty());
    assert!(TunnelActivityTracker::new().recent_active(9).is_empty());
}

#[test]
fn counters_of_tunnels_come_from_their_origin_servers() {
    let metrics = UpstreamMetrics {
        origins: vec![(Authority { host: "h".to_string(), port: 1 }, 3, 4)],
    };
    let listed = vec![
        tunnel("a", "A", "http://h:1"),
        tunnel("b", "B", "http://h:2"),
        tunnel("c", "C", "http://h:1"),
    ];
    assert_eq!(
        tunnel_counters(&listed, &metrics),
        vec![("a".to_string(), 3, 4), ("b".to_string(), 0, 0), ("c".to_string(), 3, 4)]
    );
}

#[test]
fn label_and_state_follow_the_list() {
    let mut tracker = TunnelActivityTracker::new();
    let mut t = tunnel("a", "A", "http://h:1");
    tracker.tick_counters(&vec![t.clone()], &vec![], 0, rate);
    t.label = "New".to_string();
    t.programmed = false;
    tracker.tick_counters(&vec![t], &vec![("a".to_string(), 1, 0), ("a".to_string(), 2, 0)], 0, rate);
    let recent = tracker.recent_active(9);
    assert_eq!(recent[0].label, "New");
    assert!(!recent[0].online);
    // The counters given last count, and a sample at the same instant is not divided by nothing.
    assert_eq!((recent[0].bytes_last_hour, recent[0].rate_per_s), (2, 2000));
}

#[test]
fn local_host_has_two_names() {
    let auth = |host: &str| Authority { host: host.to_string(), port: 8080 };
    assert_eq!(
        authority_lookup_variants(&auth("localhost")),
        vec![auth("localhost"), auth("127.0.0.1")]
    );
    assert_eq!(
        authority_lookup_variants(&auth("127.0.0.1")),
        vec![auth("127.0.0.1"), auth("localhost")]
    );
    assert_eq!(authority_lookup_variants(&auth("h")), vec![auth("h")]);
    let metrics = UpstreamMetrics {
        origins: vec![(auth("localhost"), 1, 2), (auth("127.0.0.1"), 3, 4)],
    };
    let t = tunnel("t", "T", "http://127.0.0.1:8080");
    assert_eq!(metrics_bytes_for_tunnel(&metrics, &t), (3, 4));
    let only = UpstreamMetrics { origins: vec![(auth("localhost"), 1, 2)] };
    assert_eq!(metrics_bytes_for_tunnel(&only, &t), (1, 2));
    assert_eq!(metrics_bytes_for_tunnel(&only, &tunnel("t", "T", "http://h:8080")), (0, 0));
    assert_eq!(metrics_bytes_for_tunnel(&only, &tunnel("t", "T", "x")), (0, 0));
}
