use scan_ids::activity::SourceActivity;
use scan_ids::address::is_internal_address;
use scan_ids::clock::{current_timestamp, seconds_since_epoch};
use scan_ids::engine::{severity_of, AlertKind, Observation, ScanAlert, ScanDetectionConfig, ScanDetector, Severity};
use scan_ids::rules::normalize;

fn obs(src: &str, port: u16, t: u64) -> Observation {
    Observation {
        timestamp: t,
        source_address: src.to_string(),
        destination_port: port,
        protocol: None,
        action: None,
        origin_host: None,
    }
}

#[test]
fn rapid_scan_of_ten_ports_alerts_once() {
    let mut d = ScanDetector::new(ScanDetectionConfig::default());
    let mut alerts = Vec::new();
    for p in 1..=10u16 {
        let t = 1000 + (p as u64 - 1) / 2;
        if let Some(a) = d.process_observation(&obs("203.0.113.5", p, t)) {
            alerts.push((p, a));
        }
    }
    assert_eq!(alerts.len(), 1);
    let (p, a) = &alerts[0];
    assert_eq!(*p, 10);
    assert_eq!(a.kind, AlertKind::RapidScan);
    assert_eq!(a.unique_port_count, 10);
    assert_eq!(a.severity, Severity::Low);
    assert_eq!(a.window_seconds, 60);
    assert_eq!(a.source_address, "203.0.113.5");
    assert_eq!(a.message, "Network scan RAPID_SCAN detected: IP 203.0.113.5 accessed 10 unique ports in the last 60 seconds");
    assert!(d.process_observation(&obs("203.0.113.5", 11, 1010)).is_none());
    assert_eq!(d.alerts_generated(), 1);
}

#[test]
fn malformed_line_changes_nothing() {
    assert!(normalize("hello world", 5).is_none());
    let mut d = ScanDetector::new(ScanDetectionConfig::default());
    assert!(d.process_line("hello world", 5).is_none());
    assert_eq!(d.tracked_sources(), 0);
    assert_eq!(d.rejected_sources(), 0);
    assert_eq!(d.events_processed(), 0);
}

#[test]
fn private_source_is_dropped_when_filtering() {
    let mut d = ScanDetector::new(ScanDetectionConfig::default());
    assert!(d.process_line("SRC=192.168.1.10 DST=10.0.0.1 DPT=22 PROTO=TCP", 5).is_none());
    assert_eq!(d.tracked_sources(), 0);
    let mut cfg = ScanDetectionConfig::default();
    cfg.ignore_private = false;
    let mut open = ScanDetector::new(cfg);
    assert!(open.process_line("SRC=192.168.1.10 DST=10.0.0.1 DPT=22 PROTO=TCP", 5).is_none());
    assert_eq!(open.tracked_sources(), 1);
}

#[test]
fn full_store_rejects_new_sources_only() {
    let mut cfg = ScanDetectionConfig::default();
    cfg.max_tracked_sources = 1;
    cfg.rapid_scan_threshold = 2;
    let mut d = ScanDetector::new(cfg);
    assert!(d.process_observation(&obs("198.51.100.1", 80, 10)).is_none());
    assert!(d.process_observation(&obs("198.51.100.2", 80, 11)).is_none());
    assert_eq!(d.rejected_sources(), 1);
    assert_eq!(d.tracked_sources(), 1);
    assert!(d.activity_of(&"198.51.100.2".to_string()).is_none());
    let a = d.process_observation(&obs("198.51.100.1", 81, 12)).expect("known source is still processed");
    assert_eq!(a.unique_port_count, 2);
    assert_eq!(d.rejected_sources(), 1);
}

#[test]
fn eviction_keeps_entries_at_or_after_cutoff() {
    let mut d = ScanDetector::new(ScanDetectionConfig::default());
    d.process_observation(&obs("198.51.100.1", 80, 100));
    d.process_observation(&obs("198.51.100.2", 80, 150));
    d.process_observation(&obs("198.51.100.3", 80, 200));
    assert_eq!(d.evict_older_than(150), 1);
    assert_eq!(d.tracked_sources(), 2);
    assert!(d.activity_of(&"198.51.100.1".to_string()).is_none());
    assert!(d.activity_of(&"198.51.100.2".to_string()).is_some());
    assert_eq!(d.evict_stale(150 + 2 * 3600), 0);
    assert_eq!(d.evict_stale(151 + 2 * 3600), 1);
    assert_eq!(d.tracked_sources(), 1);
}

#[test]
fn suppression_lasts_until_eviction() {
    let mut cfg = ScanDetectionConfig::default();
    cfg.rapid_scan_threshold = 3;
    let mut d = ScanDetector::new(cfg);
    let mut count = 0;
    for p in 1..=20u16 {
        if d.process_observation(&obs("203.0.113.9", p, 50)).is_some() {
            count += 1;
        }
    }
    assert_eq!(count, 1);
    assert_eq!(d.evict_older_than(51), 1);
    let mut again = 0;
    for p in 1..=3u16 {
        if d.process_observation(&obs("203.0.113.9", p, 60)).is_some() {
            again += 1;
        }
    }
    assert_eq!(again, 1);
}

#[test]
fn slow_scan_alert_when_rapid_threshold_not_met() {
    let mut d = ScanDetector::new(ScanDetectionConfig::default());
    let mut last = None;
    for p in 1..=20u16 {
        last = d.process_observation(&obs("203.0.113.7", p, 100 * p as u64));
    }
    let a = last.expect("slow scan");
    assert_eq!(a.kind, AlertKind::SlowScan);
    assert_eq!(a.unique_port_count, 20);
    assert_eq!(a.window_seconds, 3600);
    assert_eq!(a.severity, Severity::Medium);
}

#[test]
fn window_counts_distinct_recent_ports() {
    let mut a = SourceActivity::new(0);
    a.add_port(22, 10);
    a.add_port(22, 100);
    a.add_port(80, 100);
    a.add_port(443, 130);
    assert_eq!(a.unique_ports_in_window(60, 130), 3);
    assert_eq!(a.unique_ports_in_window(30, 130), 1);
    assert_eq!(a.unique_ports_in_window(500, 130), 3);
    assert_eq!(a.connection_count, 4);
    a.cleanup(60, 130);
    assert_eq!(a.port_events, vec![(22, 100), (80, 100), (443, 130)]);
    assert_eq!(a.last_seen, 130);
    a.add_port(8080, 120);
    assert_eq!(a.last_seen, 130);
}

#[test]
fn normalizes_structured_and_free_text() {
    let o = normalize("CEF:0|v|p|1|100|deny|5|src=203.0.113.5 dst=10.0.0.1 dpt=8080 act=blocked proto=TCP", 7).unwrap();
    assert_eq!(o.source_address, "203.0.113.5");
    assert_eq!(o.destination_port, 8080);
    assert_eq!(o.timestamp, 7);
    assert_eq!(o.protocol.as_deref(), Some("TCP"));
    assert_eq!(o.action.as_deref(), Some("blocked"));
    let s = normalize("Jan 26 10:30:45 host sshd[1]: Failed password for root from 198.51.100.4 port 2222 ssh2", 1).unwrap();
    assert_eq!(s.source_address, "198.51.100.4");
    assert_eq!(s.destination_port, 2222);
    assert_eq!(s.origin_host.as_deref(), Some("host"));
    assert_eq!(s.protocol.as_deref(), Some("SSH"));
    assert_eq!(s.action.as_deref(), Some("FAILED_AUTH"));
    let h = normalize("Jan  6 01:02:03 fw-edge kernel: SRC=198.51.100.8 DPT=22 PROTO=UDP", 1).unwrap();
    assert_eq!(h.origin_host.as_deref(), Some("fw-edge"));
    assert_eq!(h.protocol.as_deref(), Some("UDP"));
    assert_eq!(o.origin_host, None);
    let k = normalize("kernel: IN=eth0 SOURCE=198.51.100.8 DPORT=443", 1).unwrap();
    assert_eq!(k.source_address, "198.51.100.8");
    assert_eq!(k.destination_port, 443);
    assert_eq!(k.action.as_deref(), Some("DROP"));
    assert_eq!(k.protocol, None);
    assert!(normalize("src=198.51.100.8 dpt=70000", 1).is_none());
    assert!(normalize("src=198.51.100.8", 1).is_none());
    assert!(normalize("xsrc=198.51.100.8 dpt=22", 1).is_none());
}

#[test]
fn internal_ranges_are_exact() {
    assert!(is_internal_address("10.1.2.3"));
    assert!(is_internal_address("172.16.0.1"));
    assert!(is_internal_address("172.31.255.255"));
    assert!(!is_internal_address("172.32.0.1"));
    assert!(!is_internal_address("172.160.0.1"));
    assert!(is_internal_address("192.168.1.10"));
    assert!(is_internal_address("127.0.0.1"));
    assert!(is_internal_address("169.254.9.9"));
    assert!(!is_internal_address("8.8.8.8"));
    assert!(!is_internal_address("10.1.2"));
    assert!(!is_internal_address("10.1.2.256"));
}

#[test]
fn cef_record_is_exact() {
    let a = ScanAlert {
        kind: AlertKind::RapidScan,
        source_address: "203.0.113.5|x".to_string(),
        unique_port_count: 10,
        window_seconds: 60,
        severity: Severity::Low,
        detected_at: 0,
        message: "scan".to_string(),
    };
    assert_eq!(a.to_cef(), "CEF:0|CustomIDS|NetworkScanner|1.0|RAPID_SCAN|scan|4|src=203.0.113.5\\|x msg=scan cnt=10");
    let b = ScanAlert {
        kind: AlertKind::SlowScan,
        source_address: "198.51.100.7".to_string(),
        unique_port_count: 20,
        window_seconds: 3600,
        severity: Severity::Medium,
        detected_at: 0,
        message: "a|b".to_string(),
    };
    let rec = b.to_cef();
    assert!(rec.starts_with("CEF:0|CustomIDS|NetworkScanner|1.0|SLOW_SCAN|"));
    assert!(rec.ends_with(" msg=a\\|b cnt=20"));
    assert!(rec.contains("|src=198.51.100.7 "));
    assert_eq!(rec, "CEF:0|CustomIDS|NetworkScanner|1.0|SLOW_SCAN|a\\|b|6|src=198.51.100.7 msg=a\\|b cnt=20");
}

#[test]
fn severity_bands() {
    let c = ScanDetectionConfig::default();
    assert_eq!(severity_of(&c, 19), Severity::Low);
    assert_eq!(severity_of(&c, 20), Severity::Medium);
    assert_eq!(severity_of(&c, 50), Severity::High);
    assert_eq!(severity_of(&c, 100), Severity::Critical);
}

#[test]
fn clock_is_after_epoch() {
    assert_eq!(seconds_since_epoch(Err(5)), 0);
    assert_eq!(seconds_since_epoch(Ok(42)), 42);
    assert!(current_timestamp() > 1_600_000_000);
}

#[test]
fn both_clock_names_agree() {
    let a = scan_ids::clock::timestamp_curent();
    let b = current_timestamp();
    assert!(b >= a && b - a < 5);
}

#[test]
fn connection_burst_on_one_port() {
    let mut d = ScanDetector::new(ScanDetectionConfig::default());
    let mut alerts = Vec::new();
    for i in 0..60u64 {
        if let Some(a) = d.process_observation(&obs("198.51.100.77", 22, 500 + i / 10)) {
            alerts.push((i, a));
        }
    }
    assert_eq!(alerts.len(), 1);
    let (i, a) = &alerts[0];
    assert_eq!(*i, 49);
    assert_eq!(a.kind, AlertKind::ConnectionBurst);
    assert_eq!(a.unique_port_count, 50);
    assert_eq!(a.window_seconds, 10);
    assert_eq!(a.severity, Severity::High);
    assert_eq!(a.message, "Connection burst CONN_BURST detected: IP 198.51.100.77 made 50 connections in the last 10 seconds");
    assert_eq!(
        a.to_cef(),
        "CEF:0|CustomIDS|NetworkScanner|1.0|CONN_BURST|Connection burst CONN_BURST detected: IP 198.51.100.77 made 50 connections in the last 10 seconds|8|src=198.51.100.77 msg=Connection burst CONN_BURST detected: IP 198.51.100.77 made 50 connections in the last 10 seconds cnt=50"
    );
}

#[test]
fn vendor_rules_attach_protocol_and_action() {
    let s = normalize("Jan 26 10:30:45 srv01 sshd[123]: Failed password for root from 203.0.113.5 port 54321 ssh2", 3).unwrap();
    assert_eq!(s.source_address, "203.0.113.5");
    assert_eq!(s.destination_port, 54321);
    assert_eq!(s.protocol.as_deref(), Some("SSH"));
    assert_eq!(s.action.as_deref(), Some("FAILED_AUTH"));
    assert_eq!(s.origin_host.as_deref(), Some("srv01"));
    let f = normalize("IN=eth0 SRC=203.0.113.5 DST=10.0.0.1 DPT=22 PROTO=TCP", 3).unwrap();
    assert_eq!(f.source_address, "203.0.113.5");
    assert_eq!(f.destination_port, 22);
    assert_eq!(f.protocol.as_deref(), Some("TCP"));
    assert_eq!(f.action.as_deref(), Some("DROP"));
    let a = normalize("Jan 26 10:30:45 fw1 %ASA-4-106023: Deny src 203.0.113.9 dst 10.0.0.1:443 by access-group", 3).unwrap();
    assert_eq!(a.source_address, "203.0.113.9");
    assert_eq!(a.destination_port, 443);
    assert_eq!(a.protocol.as_deref(), Some("TCP"));
    assert_eq!(a.action.as_deref(), Some("DENY"));
    assert_eq!(a.origin_host.as_deref(), Some("fw1"));
    let g = normalize("DENY tcp 203.0.113.10 -> 10.0.0.2 port 3389", 3).unwrap();
    assert_eq!(g.source_address, "203.0.113.10");
    assert_eq!(g.destination_port, 3389);
    assert_eq!(g.protocol.as_deref(), Some("TCP"));
    assert_eq!(g.action.as_deref(), Some("DENY"));
    assert!(normalize("Jan 26 10:30:45 srv01 sshd[9]: Accepted password for bob from 203.0.113.5 port 22 ssh2", 3).is_none());
    assert!(normalize("%FTD-1-1: src 203.0.113.9 dst 10.0.0.1", 3).is_none());
    let c = normalize("CEF:0|v|p|1|100|deny|5|src=203.0.113.5 dpt=22", 3).unwrap();
    assert_eq!(c.action, None);
    assert!(normalize("CEF:0|v|p|1|100|deny|5|src=203.0.113.5 Failed password from 1.2.3.4 port 22", 3).is_none());
}

#[test]
fn ttl_governs_eviction_when_longer() {
    let mut cfg = ScanDetectionConfig::default();
    cfg.cache_expiry = 10_000;
    let mut d = ScanDetector::new(cfg);
    d.process_observation(&obs("198.51.100.1", 80, 100));
    assert_eq!(d.evict_stale(10_100), 0);
    assert_eq!(d.evict_stale(10_101), 1);
}
