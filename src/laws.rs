use vstd::prelude::*;
use crate::activity::{ActivityView, events_after, inside, ports_after, window_start};
use crate::engine::{
    AlertKind, ScanDetectionConfig, Severity, after_access, burst_accesses, finding, longest_window, rapid_ports,
    rating, settled, slow_ports,
};
use crate::store::recent_only;

verus! {

/// A source for which no alert was raised yet gets a rapid-scan alert, with
/// the number of distinct ports in the rapid window, on the observation after
/// which that number meets the rapid threshold.
pub proof fn lemma_rapid_alert_at_threshold(c: ScanDetectionConfig, a: ActivityView, now: u64)
    requires
        !a.alert_emitted,
        rapid_ports(c, a, now) >= c.rapid_scan_threshold,
    ensures
        finding(c, a, now) == Some((AlertKind::RapidScan, rapid_ports(c, a, now))),
        settled(c, a, now).alert_emitted,
{
}

/// Once an alert was raised for a source, no further observation raises
/// another, and the source stays marked as reported.
pub proof fn lemma_suppression_holds(c: ScanDetectionConfig, a: ActivityView, now: u64)
    requires
        a.alert_emitted,
    ensures
        finding(c, a, now).is_none(),
        settled(c, a, now) == a,
{
}

/// An eviction keeps a source exactly when it was last seen at or after the
/// cutoff.
pub proof fn lemma_eviction_exact(m: Map<Seq<char>, ActivityView>, cutoff: u64, k: Seq<char>)
    ensures
        recent_only(m, cutoff).contains_key(k) <==> (m.contains_key(k) && m[k].last_seen >= cutoff),
        recent_only(m, cutoff).contains_key(k) ==> recent_only(m, cutoff)[k] == m[k],
{
}

/// A port counted in a window has an event inside it, and each counted port
/// counts once however often it was seen.
pub proof fn lemma_window_counts_recent_ports(events: Seq<(u16, u64)>, start: u64, p: u16)
    ensures
        ports_after(events, start).contains(p) <==> exists|i: int| 0 <= i < events.len() && events[i].0 == p && events[i].1 > start,
        ports_after(events, start).contains(p) ==> ports_after(events, start).insert(p) == ports_after(events, start),
{
    if ports_after(events, start).contains(p) {
        assert(ports_after(events, start).insert(p) =~= ports_after(events, start));
    }
}

/// How many alerts a tracked source with record `a` raises over the accesses
/// `steps` (port and time, in order), none of which evicts it.
pub open spec fn alerts_over(c: ScanDetectionConfig, a: ActivityView, steps: Seq<(u16, u64)>) -> nat
    decreases steps.len(),
{
    if steps.len() == 0 {
        0
    } else {
        let (port, now) = steps[0];
        let b = after_access(c, a, port, now);
        (if finding(c, b, now).is_some() { 1nat } else { 0nat }) + alerts_over(c, settled(c, b, now), steps.drop_first())
    }
}

/// A source already reported raises no alert, whatever accesses follow while
/// it stays tracked.
pub proof fn lemma_no_alert_after_report(c: ScanDetectionConfig, a: ActivityView, steps: Seq<(u16, u64)>)
    requires
        a.alert_emitted,
    ensures
        alerts_over(c, a, steps) == 0,
    decreases steps.len(),
{
    if steps.len() > 0 {
        let (port, now) = steps[0];
        let b = after_access(c, a, port, now);
        lemma_no_alert_after_report(c, settled(c, b, now), steps.drop_first());
    }
}

/// A tracked source raises at most one alert, whatever accesses follow while
/// it stays tracked.
pub proof fn lemma_at_most_one_alert(c: ScanDetectionConfig, a: ActivityView, steps: Seq<(u16, u64)>)
    ensures
        alerts_over(c, a, steps) <= 1,
    decreases steps.len(),
{
    if steps.len() > 0 {
        let (port, now) = steps[0];
        let b = after_access(c, a, port, now);
        if finding(c, b, now).is_some() {
            lemma_no_alert_after_report(c, settled(c, b, now), steps.drop_first());
        } else {
            lemma_at_most_one_alert(c, settled(c, b, now), steps.drop_first());
        }
    }
}

/// The rank of a rating, low to critical.
pub open spec fn rank(s: Severity) -> int {
    match s {
        Severity::Low => 0,
        Severity::Medium => 1,
        Severity::High => 2,
        Severity::Critical => 3,
    }
}

/// A rapid scan is rated at least as severe as a slow scan over the same
/// number of ports.
pub proof fn lemma_rapid_at_least_as_severe(c: ScanDetectionConfig, n: nat)
    ensures
        rank(rating(c, AlertKind::RapidScan, n)) >= rank(rating(c, AlertKind::SlowScan, n)),
{
}

/// The record of a source after the first `n` accesses of `steps`, starting
/// from `a`, none of which evicts it.
pub open spec fn state_after(c: ScanDetectionConfig, a: ActivityView, steps: Seq<(u16, u64)>, n: nat) -> ActivityView
    decreases n,
{
    if n == 0 || n > steps.len() {
        a
    } else {
        let prev = state_after(c, a, steps, (n - 1) as nat);
        let (port, now) = steps[n - 1];
        settled(c, after_access(c, prev, port, now), now)
    }
}

/// What the rules find on the `i`-th access of `steps`, starting from `a`.
pub open spec fn finding_at(c: ScanDetectionConfig, a: ActivityView, steps: Seq<(u16, u64)>, i: int) -> Option<(AlertKind, nat)> {
    let (port, now) = steps[i];
    finding(c, after_access(c, state_after(c, a, steps, i as nat), port, now), now)
}

/// The distinct ports among `s`.
pub open spec fn ports_seen(s: Seq<(u16, u64)>) -> Set<u16> {
    Set::new(|p: u16| exists|k: int| 0 <= k < s.len() && #[trigger] s[k].0 == p)
}

proof fn lemma_ports_seen_finite(s: Seq<(u16, u64)>)
    ensures
        ports_seen(s).finite(),
    decreases s.len(),
{
    if s.len() == 0 {
        assert(ports_seen(s) =~= Set::<u16>::empty());
    } else {
        let r = s.drop_last();
        lemma_ports_seen_finite(r);
        assert(ports_seen(s) =~= ports_seen(r).insert(s.last().0)) by {
            assert forall|p: u16| ports_seen(s).contains(p) implies ports_seen(r).insert(s.last().0).contains(p) by {
                let k = choose|k: int| 0 <= k < s.len() && #[trigger] s[k].0 == p;
                if k < s.len() - 1 {
                    assert(r[k].0 == p);
                }
            }
            assert forall|p: u16| ports_seen(r).insert(s.last().0).contains(p) implies ports_seen(s).contains(p) by {
                if p == s.last().0 {
                    assert(s[s.len() - 1].0 == p);
                } else {
                    let k = choose|k: int| 0 <= k < r.len() && #[trigger] r[k].0 == p;
                    assert(s[k].0 == p);
                }
            }
        }
    }
}

proof fn lemma_all_inside(s: Seq<(u16, u64)>, start: u64)
    requires
        forall|k: int| 0 <= k < s.len() ==> inside(#[trigger] s[k].1, start),
    ensures
        events_after(s, start) == s,
        ports_after(s, start) == ports_seen(s),
    decreases s.len(),
{
    if s.len() > 0 {
        lemma_all_inside(s.drop_last(), start);
        assert(s.drop_last().push(s.last()) =~= s);
    }
    assert(ports_after(s, start) =~= ports_seen(s));
}

proof fn lemma_window_counts_bounded(s: Seq<(u16, u64)>, start: u64)
    ensures
        ports_after(s, start).subset_of(ports_seen(s)),
        events_after(s, start).len() <= s.len(),
    decreases s.len(),
{
    if s.len() > 0 {
        lemma_window_counts_bounded(s.drop_last(), start);
    }
}

proof fn lemma_events_follow_steps(c: ScanDetectionConfig, a: ActivityView, steps: Seq<(u16, u64)>, n: nat)
    requires
        a.events.len() == 0,
        n <= steps.len(),
        forall|k: int, i: int| 0 <= k <= i < steps.len() ==> steps[k].1 > window_start(steps[i].1, c.rapid_scan_window),
    ensures
        state_after(c, a, steps, n).events == steps.take(n as int),
    decreases n,
{
    if n == 0 {
        assert(steps.take(0) =~= Seq::<(u16, u64)>::empty());
    } else {
        lemma_events_follow_steps(c, a, steps, (n - 1) as nat);
        let now = steps[n - 1].1;
        let pushed = steps.take(n - 1).push(steps[n - 1]);
        assert(pushed =~= steps.take(n as int));
        assert forall|k: int| 0 <= k < pushed.len() implies inside(#[trigger] pushed[k].1, window_start(now, longest_window(c))) by {
            assert(pushed[k] == steps[k]);
        }
        lemma_all_inside(pushed, window_start(now, longest_window(c)));
    }
}

proof fn lemma_flag_after_report(c: ScanDetectionConfig, a: ActivityView, steps: Seq<(u16, u64)>, j: int, n: nat)
    requires
        0 <= j < n <= steps.len(),
        finding_at(c, a, steps, j).is_some(),
    ensures
        state_after(c, a, steps, n).alert_emitted,
    decreases n,
{
    if n > j + 1 {
        lemma_flag_after_report(c, a, steps, j, (n - 1) as nat);
    }
}

/// A source first seen with an empty record, whose accesses all fall inside
/// the rapid window of each later access, with the slow threshold no lower
/// than the rapid one and fewer accesses than the burst threshold, gets
/// exactly one alert while tracked: a rapid scan, counting the distinct ports
/// so far, on the access `j` that first brings them to the rapid threshold.
pub proof fn lemma_rapid_scan_alerted_once(c: ScanDetectionConfig, a: ActivityView, steps: Seq<(u16, u64)>, j: int)
    requires
        a.events.len() == 0,
        !a.alert_emitted,
        c.rapid_scan_threshold <= c.slow_scan_threshold,
        steps.len() < c.burst_threshold,
        forall|k: int, i: int| 0 <= k <= i < steps.len() ==> steps[k].1 > window_start(steps[i].1, c.rapid_scan_window),
        0 <= j < steps.len(),
        ports_seen(steps.take(j + 1)).len() >= c.rapid_scan_threshold,
        forall|i: int| 0 <= i < j ==> #[trigger] ports_seen(steps.take(i + 1)).len() < c.rapid_scan_threshold,
    ensures
        finding_at(c, a, steps, j) == Some((AlertKind::RapidScan, ports_seen(steps.take(j + 1)).len())),
        forall|i: int| 0 <= i < steps.len() && i != j ==> (#[trigger] finding_at(c, a, steps, i)).is_none(),
{
    assert forall|i: int| 0 <= i <= j implies {
        &&& !(#[trigger] state_after(c, a, steps, i as nat)).alert_emitted
        &&& finding_at(c, a, steps, i) == if i == j { Some((AlertKind::RapidScan, ports_seen(steps.take(j + 1)).len())) } else { None }
    } by {
        lemma_quiet_until(c, a, steps, j, i);
    }
    assert forall|i: int| 0 <= i < steps.len() && i != j implies (#[trigger] finding_at(c, a, steps, i)).is_none() by {
        if i > j {
            lemma_flag_after_report(c, a, steps, j, i as nat);
        }
    }
}

proof fn lemma_quiet_until(c: ScanDetectionConfig, a: ActivityView, steps: Seq<(u16, u64)>, j: int, i: int)
    requires
        a.events.len() == 0,
        !a.alert_emitted,
        c.rapid_scan_threshold <= c.slow_scan_threshold,
        steps.len() < c.burst_threshold,
        forall|k: int, t: int| 0 <= k <= t < steps.len() ==> steps[k].1 > window_start(steps[t].1, c.rapid_scan_window),
        0 <= j < steps.len(),
        ports_seen(steps.take(j + 1)).len() >= c.rapid_scan_threshold,
        forall|t: int| 0 <= t < j ==> #[trigger] ports_seen(steps.take(t + 1)).len() < c.rapid_scan_threshold,
        0 <= i <= j,
    ensures
        !state_after(c, a, steps, i as nat).alert_emitted,
        finding_at(c, a, steps, i) == if i == j { Some((AlertKind::RapidScan, ports_seen(steps.take(j + 1)).len())) } else { None },
    decreases i,
{
    if i > 0 {
        lemma_quiet_until(c, a, steps, j, i - 1);
    }
    let (port, now) = steps[i];
    let prev = state_after(c, a, steps, i as nat);
    let b = after_access(c, prev, port, now);
    lemma_events_follow_steps(c, a, steps, (i + 1) as nat);
    assert(b.events == state_after(c, a, steps, (i + 1) as nat).events);
    let seen = steps.take(i + 1);
    assert forall|k: int| 0 <= k < seen.len() implies inside(#[trigger] seen[k].1, window_start(now, c.rapid_scan_window)) by {
        assert(seen[k] == steps[k]);
    }
    lemma_all_inside(seen, window_start(now, c.rapid_scan_window));
    assert(rapid_ports(c, b, now) == ports_seen(seen).len());
    lemma_ports_seen_finite(seen);
    lemma_window_counts_bounded(seen, window_start(now, c.slow_scan_window));
    vstd::set_lib::lemma_len_subset(ports_after(seen, window_start(now, c.slow_scan_window)), ports_seen(seen));
    lemma_window_counts_bounded(seen, window_start(now, c.burst_window));
    assert(burst_accesses(c, b, now) < c.burst_threshold);
    if i < j {
        assert(ports_seen(steps.take(i + 1)).len() < c.rapid_scan_threshold);
        assert(slow_ports(c, b, now) < c.slow_scan_threshold);
    }
}

} // verus!
