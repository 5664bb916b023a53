use vstd::prelude::*;
use crate::activity::{
    ActivityView, SourceActivity, events_after, fresh_activity, ports_after, trimmed, window_start, with_access,
};
use crate::store::{ActivityStore, Admission, recent_only};
use crate::rules::{normalize, reading};
use crate::address::{is_internal, is_internal_address};
use crate::cef::{alert_message, message_text};

verus! {

/// Thresholds and windows of the detection rules.
#[derive(Clone, Debug)]
pub struct ScanDetectionConfig {
    /// Distinct ports within the rapid window that make a rapid scan.
    pub rapid_scan_threshold: usize,
    /// Length of the rapid window, in seconds.
    pub rapid_scan_window: u64,
    /// Distinct ports within the slow window that make a slow scan.
    pub slow_scan_threshold: usize,
    /// Length of the slow window, in seconds.
    pub slow_scan_window: u64,
    /// Accesses within the burst window that make a connection burst.
    pub burst_threshold: usize,
    /// Length of the burst window, in seconds.
    pub burst_window: u64,
    /// How long a silent source stays tracked, in seconds.
    pub cache_expiry: u64,
    /// The most sources tracked at once.
    pub max_tracked_sources: usize,
    /// Whether observations from private, loopback and link-local addresses are dropped.
    pub ignore_private: bool,
    /// Port counts from which an alert is rated critical, high and medium.
    pub critical_ports: usize,
    pub high_ports: usize,
    pub medium_ports: usize,
}

impl Default for ScanDetectionConfig {
    fn default() -> (r: ScanDetectionConfig)
        ensures
            r.rapid_scan_threshold == 10 && r.rapid_scan_window == 60,
            r.slow_scan_threshold == 20 && r.slow_scan_window == 3600,
            r.burst_threshold == 50 && r.burst_window == 10,
            r.cache_expiry == 7200 && r.max_tracked_sources == 100_000 && r.ignore_private,
            r.critical_ports == 100 && r.high_ports == 50 && r.medium_ports == 20,
    {
        ScanDetectionConfig {
            rapid_scan_threshold: 10,
            rapid_scan_window: 60,
            slow_scan_threshold: 20,
            slow_scan_window: 3600,
            burst_threshold: 50,
            burst_window: 10,
            cache_expiry: 7200,
            max_tracked_sources: 100_000,
            ignore_private: true,
            critical_ports: 100,
            high_ports: 50,
            medium_ports: 20,
        }
    }
}

/// The longest of the configured windows: rapid, slow and burst.
pub open spec fn longest_window(c: ScanDetectionConfig) -> u64 {
    let scan = if c.rapid_scan_window >= c.slow_scan_window { c.rapid_scan_window } else { c.slow_scan_window };
    if scan >= c.burst_window {
        scan
    } else {
        c.burst_window
    }
}

/// How long a silent source stays tracked: the configured expiry, but never
/// less than twice the longest window, so that no detection loses history.
pub open spec fn retention(c: ScanDetectionConfig) -> int {
    if c.cache_expiry as int >= 2 * longest_window(c) {
        c.cache_expiry as int
    } else {
        2 * longest_window(c)
    }
}

/// The kind of behaviour an alert reports.
#[derive(Clone, Copy, Debug, PartialEq, Eq, Structural)]
pub enum AlertKind {
    RapidScan,
    SlowScan,
    ConnectionBurst,
}

/// How serious an alert is.
#[derive(Clone, Copy, Debug, PartialEq, Eq, Structural)]
pub enum Severity {
    Low,
    Medium,
    High,
    Critical,
}

/// The rating of a scan that touched `ports` distinct ports.
pub open spec fn severity_for(c: ScanDetectionConfig, ports: nat) -> Severity {
    if ports >= c.critical_ports {
        Severity::Critical
    } else if ports >= c.high_ports {
        Severity::High
    } else if ports >= c.medium_ports {
        Severity::Medium
    } else {
        Severity::Low
    }
}

/// The rating of a scan that touched `ports` distinct ports, banded by the
/// thresholds of the configuration.
pub fn severity_of(c: &ScanDetectionConfig, ports: usize) -> (r: Severity)
    ensures
        r == severity_for(*c, ports as nat),
{
    if ports >= c.critical_ports {
        Severity::Critical
    } else if ports >= c.high_ports {
        Severity::High
    } else if ports >= c.medium_ports {
        Severity::Medium
    } else {
        Severity::Low
    }
}

/// One access seen in the logs: who, which port, when.
#[derive(Clone, Debug)]
pub struct Observation {
    /// Time of the access, in seconds.
    pub timestamp: u64,
    pub source_address: String,
    pub destination_port: u16,
    pub protocol: Option<String>,
    pub action: Option<String>,
    pub origin_host: Option<String>,
}

/// A detected scan.
#[derive(Clone, Debug)]
pub struct ScanAlert {
    pub kind: AlertKind,
    pub source_address: String,
    /// Distinct ports in the window for a scan; accesses in the window for a burst.
    pub unique_port_count: usize,
    pub window_seconds: u64,
    pub severity: Severity,
    /// Time of the observation that raised the alert, in seconds.
    pub detected_at: u64,
    /// One line saying what was detected.
    pub message: String,
}

/// The record of a source once an access of `port` at `now` is added and the
/// events older than the longest window are dropped.
pub open spec fn after_access(c: ScanDetectionConfig, a: ActivityView, port: u16, now: u64) -> ActivityView {
    trimmed(with_access(a, port, now), longest_window(c), now)
}

/// Distinct ports of `a` within the rapid window ending at `now`.
pub open spec fn rapid_ports(c: ScanDetectionConfig, a: ActivityView, now: u64) -> nat {
    ports_after(a.events, window_start(now, c.rapid_scan_window)).len()
}

/// Distinct ports of `a` within the slow window ending at `now`.
pub open spec fn slow_ports(c: ScanDetectionConfig, a: ActivityView, now: u64) -> nat {
    ports_after(a.events, window_start(now, c.slow_scan_window)).len()
}

/// Accesses of `a`, repeated ports included, within the burst window ending at `now`.
pub open spec fn burst_accesses(c: ScanDetectionConfig, a: ActivityView, now: u64) -> nat {
    events_after(a.events, window_start(now, c.burst_window)).len()
}

/// What the rules find in the record `a` (already updated) at `now`: nothing
/// once an alert was raised for the source; else a rapid scan when the rapid
/// threshold is met, else a slow scan when the slow threshold is met, else a
/// connection burst when the burst threshold is met.
pub open spec fn finding(c: ScanDetectionConfig, a: ActivityView, now: u64) -> Option<(AlertKind, nat)> {
    if a.alert_emitted {
        None
    } else if rapid_ports(c, a, now) >= c.rapid_scan_threshold {
        Some((AlertKind::RapidScan, rapid_ports(c, a, now)))
    } else if slow_ports(c, a, now) >= c.slow_scan_threshold {
        Some((AlertKind::SlowScan, slow_ports(c, a, now)))
    } else if burst_accesses(c, a, now) >= c.burst_threshold {
        Some((AlertKind::ConnectionBurst, burst_accesses(c, a, now)))
    } else {
        None
    }
}

/// The window that an alert of `kind` reports.
pub open spec fn window_of(c: ScanDetectionConfig, kind: AlertKind) -> u64 {
    match kind {
        AlertKind::RapidScan => c.rapid_scan_window,
        AlertKind::SlowScan => c.slow_scan_window,
        AlertKind::ConnectionBurst => c.burst_window,
    }
}

/// The rating of an alert of `kind` counting `n`: a burst is always high,
/// a scan is banded by its port count.
pub open spec fn rating(c: ScanDetectionConfig, kind: AlertKind, n: nat) -> Severity {
    if kind == AlertKind::ConnectionBurst {
        Severity::High
    } else {
        severity_for(c, n)
    }
}

/// The record kept after the rules ran on `a` at `now`.
pub open spec fn settled(c: ScanDetectionConfig, a: ActivityView, now: u64) -> ActivityView {
    ActivityView { alert_emitted: a.alert_emitted || finding(c, a, now).is_some(), ..a }
}

/// The record that the store holds for `address` before an observation at `now`.
pub open spec fn prior(m: Map<Seq<char>, ActivityView>, address: Seq<char>, now: u64) -> ActivityView {
    if m.contains_key(address) {
        m[address]
    } else {
        fresh_activity(now)
    }
}

/// The instant before which an eviction at `now` removes a silent source:
/// the retention period back, never below zero.
pub open spec fn eviction_cutoff(c: ScanDetectionConfig, now: u64) -> u64 {
    if now as int >= retention(c) {
        (now - retention(c)) as u64
    } else {
        0
    }
}

/// `n` increased by one, staying at the largest value once there.
pub open spec fn bumped(n: u64) -> u64 {
    if n < u64::MAX {
        (n + 1) as u64
    } else {
        u64::MAX
    }
}

/// What one observation of `key` accessing `port` at `now` does to the
/// engine `before`, leaving `after` and returning `r`.
pub open spec fn step_outcome(before: ScanDetector, after: ScanDetector, key: Seq<char>, port: u16, now: u64, r: Option<ScanAlert>) -> bool {
    let c = before.spec_config();
    let m = before.entries();
    let a = after_access(c, prior(m, key, now), port, now);
    if !m.contains_key(key) && m.len() >= c.max_tracked_sources {
        &&& r.is_none()
        &&& after.entries() == m
        &&& after.spec_rejected() == bumped(before.spec_rejected())
        &&& after.spec_processed() == before.spec_processed()
        &&& after.spec_alerts() == before.spec_alerts()
    } else {
        &&& after.entries() == m.insert(key, settled(c, a, now))
        &&& after.spec_rejected() == before.spec_rejected()
        &&& after.spec_processed() == bumped(before.spec_processed())
        &&& after.spec_alerts() == if r.is_some() { bumped(before.spec_alerts()) } else { before.spec_alerts() }
        &&& r.is_some() == finding(c, a, now).is_some()
        &&& (r matches Some(al) ==> {
            let (kind, n) = finding(c, a, now).unwrap();
            &&& al.kind == kind
            &&& al.unique_port_count == n
            &&& al.source_address@ == key
            &&& al.window_seconds == window_of(c, kind)
            &&& al.severity == rating(c, kind, n)
            &&& al.detected_at == now
            &&& al.message@ == message_text(kind, key, n, window_of(c, kind))
        })
    }
}

/// The detection engine: per-source activity, thresholds and counters.
pub struct ScanDetector {
    config: ScanDetectionConfig,
    store: ActivityStore,
    processed: u64,
    alerts: u64,
}

impl ScanDetector {
    pub closed spec fn spec_config(&self) -> ScanDetectionConfig {
        self.config
    }

    /// The tracked sources and their records.
    pub closed spec fn entries(&self) -> Map<Seq<char>, ActivityView> {
        self.store.entries()
    }

    /// Observations turned away because the store was full.
    pub closed spec fn spec_rejected(&self) -> u64 {
        self.store.spec_rejected()
    }

    pub closed spec fn spec_processed(&self) -> u64 {
        self.processed
    }

    pub closed spec fn spec_alerts(&self) -> u64 {
        self.alerts
    }

    /// The store is bound to the configured capacity.
    pub closed spec fn store_bound(&self) -> bool {
        self.store.wf() && self.store.spec_capacity() == self.config.max_tracked_sources
    }

    /// Finitely many sources are tracked, never more than the configured maximum.
    pub open spec fn wf(&self) -> bool {
        &&& self.store_bound()
        &&& self.entries().dom().finite()
        &&& self.entries().len() <= self.spec_config().max_tracked_sources
    }

    /// An engine with the given rules, tracking no source yet.
    pub fn new(config: ScanDetectionConfig) -> (r: ScanDetector)
        ensures
            r.wf(),
            r.spec_config() == config,
            r.entries().dom() == Set::<Seq<char>>::empty(),
            r.spec_rejected() == 0 && r.spec_processed() == 0 && r.spec_alerts() == 0,
    {
        let store = ActivityStore::new(config.max_tracked_sources);
        ScanDetector { config, store, processed: 0, alerts: 0 }
    }

    pub fn config(&self) -> (r: &ScanDetectionConfig)
        ensures
            *r == self.spec_config(),
    {
        &self.config
    }

    /// The longest of the configured windows.
    pub fn longest_window(&self) -> (r: u64)
        ensures
            r == longest_window(self.spec_config()),
    {
        let scan = if self.config.rapid_scan_window >= self.config.slow_scan_window {
            self.config.rapid_scan_window
        } else {
            self.config.slow_scan_window
        };
        if scan >= self.config.burst_window {
            scan
        } else {
            self.config.burst_window
        }
    }

    /// The number of tracked sources.
    pub fn tracked_sources(&self) -> (r: usize)
        ensures
            r == self.entries().len(),
    {
        self.store.len()
    }

    /// Observations turned away because the store was full.
    pub fn rejected_sources(&self) -> (r: u64)
        ensures
            r == self.spec_rejected(),
    {
        self.store.rejected()
    }

    /// Observations applied to a record so far (saturating).
    pub fn events_processed(&self) -> (r: u64)
        ensures
            r == self.spec_processed(),
    {
        self.processed
    }

    /// Alerts raised so far (saturating).
    pub fn alerts_generated(&self) -> (r: u64)
        ensures
            r == self.spec_alerts(),
    {
        self.alerts
    }

    /// A copy of the record of `address`, if it is tracked.
    pub fn activity_of(&self, address: &String) -> (r: Option<SourceActivity>)
        ensures
            r.is_some() == self.entries().contains_key(address@),
            r matches Some(a) ==> a@ == self.entries()[address@],
    {
        self.store.get(address)
    }

    fn raise(&self, kind: AlertKind, address: &String, n: usize, now: u64) -> (r: ScanAlert)
        ensures
            r.kind == kind,
            r.source_address@ == address@,
            r.unique_port_count == n,
            r.window_seconds == window_of(self.spec_config(), kind),
            r.severity == rating(self.spec_config(), kind, n as nat),
            r.detected_at == now,
            r.message@ == message_text(kind, address@, n as nat, window_of(self.spec_config(), kind)),
    {
        let (window, severity) = match kind {
            AlertKind::RapidScan => (self.config.rapid_scan_window, severity_of(&self.config, n)),
            AlertKind::SlowScan => (self.config.slow_scan_window, severity_of(&self.config, n)),
            AlertKind::ConnectionBurst => (self.config.burst_window, Severity::High),
        };
        ScanAlert {
            kind,
            source_address: address.clone(),
            unique_port_count: n,
            window_seconds: window,
            severity,
            detected_at: now,
            message: alert_message(kind, address, n, window),
        }
    }

    /// Applies one observation. A new source is dropped, and counted as
    /// rejected, when the store is full. Otherwise the access is recorded,
    /// events older than the longest window are dropped, and an alert is
    /// returned when a threshold is met and no alert was raised for the source
    /// before; the source is then marked as reported.
    pub fn process_observation(&mut self, obs: &Observation) -> (r: Option<ScanAlert>)
        requires
            old(self).wf(),
        ensures
            final(self).wf(),
            final(self).spec_config() == old(self).spec_config(),
            step_outcome(*old(self), *final(self), obs.source_address@, obs.destination_port, obs.timestamp, r),
    {
        let now = obs.timestamp;
        let mut activity = match self.store.admission(&obs.source_address) {
            Admission::Known(a) => a,
            Admission::Fresh => SourceActivity::new(now),
            Admission::Saturated => {
                return None;
            },
        };
        if self.processed < u64::MAX {
            self.processed = self.processed + 1;
        }
        let longest = self.longest_window();
        activity.add_port(obs.destination_port, now);
        activity.cleanup(longest, now);
        let mut result: Option<ScanAlert> = None;
        if !activity.alert_emitted {
            let rapid = activity.unique_ports_in_window(self.config.rapid_scan_window, now);
            if rapid >= self.config.rapid_scan_threshold {
                result = Some(self.raise(AlertKind::RapidScan, &obs.source_address, rapid, now));
            } else {
                let slow = activity.unique_ports_in_window(self.config.slow_scan_window, now);
                if slow >= self.config.slow_scan_threshold {
                    result = Some(self.raise(AlertKind::SlowScan, &obs.source_address, slow, now));
                } else {
                    let burst = activity.accesses_in_window(self.config.burst_window, now);
                    if burst >= self.config.burst_threshold {
                        result = Some(self.raise(AlertKind::ConnectionBurst, &obs.source_address, burst, now));
                    }
                }
            }
        }
        if result.is_some() {
            activity.alert_emitted = true;
            if self.alerts < u64::MAX {
                self.alerts = self.alerts + 1;
            }
        }
        self.store.put(obs.source_address.clone(), activity);
        result
    }

    /// Removes every source last seen before `cutoff`; returns how many went.
    pub fn evict_older_than(&mut self, cutoff: u64) -> (r: usize)
        requires
            old(self).wf(),
        ensures
            final(self).wf(),
            final(self).spec_config() == old(self).spec_config(),
            final(self).spec_rejected() == old(self).spec_rejected(),
            final(self).spec_processed() == old(self).spec_processed(),
            final(self).spec_alerts() == old(self).spec_alerts(),
            final(self).entries() == recent_only(old(self).entries(), cutoff),
            r == old(self).entries().len() - final(self).entries().len(),
    {
        self.store.evict_older_than(cutoff)
    }

    /// One periodic eviction pass at `now`: removes every source last seen
    /// longer ago than the retention period (the configured expiry, at least
    /// twice the longest window); returns how many went.
    pub fn evict_stale(&mut self, now: u64) -> (r: usize)
        requires
            old(self).wf(),
        ensures
            final(self).wf(),
            final(self).spec_config() == old(self).spec_config(),
            final(self).spec_rejected() == old(self).spec_rejected(),
            final(self).spec_processed() == old(self).spec_processed(),
            final(self).spec_alerts() == old(self).spec_alerts(),
            final(self).entries() == recent_only(old(self).entries(), eviction_cutoff(old(self).spec_config(), now)),
            r == old(self).entries().len() - final(self).entries().len(),
    {
        let longest = self.longest_window();
        let margin: u64 = if longest > u64::MAX / 2 { u64::MAX } else { 2 * longest };
        let keep: u64 = if self.config.cache_expiry >= margin { self.config.cache_expiry } else { margin };
        let cutoff = if now >= keep { now - keep } else { 0 };
        assert(cutoff == eviction_cutoff(self.config, now));
        self.store.evict_older_than(cutoff)
    }
}

impl ScanDetector {
    /// Handles one raw log line seen at `now`: a line that yields no
    /// observation, or (when internal addresses are ignored) one from a
    /// private, loopback or link-local address, leaves the engine as it was;
    /// any other goes through `process_observation`.
    pub fn process_line(&mut self, line: &str, now: u64) -> (r: Option<ScanAlert>)
        requires
            old(self).wf(),
        ensures
            final(self).wf(),
            final(self).spec_config() == old(self).spec_config(),
            ({
                let read = reading(line@);
                if read is None || (old(self).spec_config().ignore_private && is_internal(read.unwrap().0)) {
                    &&& r.is_none()
                    &&& final(self).entries() == old(self).entries()
                    &&& final(self).spec_rejected() == old(self).spec_rejected()
                    &&& final(self).spec_processed() == old(self).spec_processed()
                    &&& final(self).spec_alerts() == old(self).spec_alerts()
                } else {
                    step_outcome(*old(self), *final(self), read.unwrap().0, read.unwrap().1, now, r)
                }
            }),
    {
        let obs = match normalize(line, now) {
            Some(o) => o,
            None => { return None; },
        };
        if self.config.ignore_private && is_internal_address(obs.source_address.as_str()) {
            return None;
        }
        self.process_observation(&obs)
    }
}

} // verus!
