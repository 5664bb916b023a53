use vstd::prelude::*;

verus! {

/// The instant below which a recorded event falls outside a window of
/// `window` seconds ending at `now`; it never goes below zero.
pub open spec fn window_start(now: u64, window: u64) -> u64 {
    if now >= window {
        (now - window) as u64
    } else {
        0
    }
}

/// An event recorded at `at` lies inside the window that starts at `start`.
pub open spec fn inside(at: u64, start: u64) -> bool {
    at > start
}

/// The distinct ports among the events recorded after `start`.
pub open spec fn ports_after(events: Seq<(u16, u64)>, start: u64) -> Set<u16> {
    Set::new(|p: u16| exists|i: int| 0 <= i < events.len() && #[trigger] events[i].0 == p && inside(events[i].1, start))
}

/// The events recorded after `start`, in the order they were recorded.
pub open spec fn events_after(events: Seq<(u16, u64)>, start: u64) -> Seq<(u16, u64)>
    decreases events.len(),
{
    if events.len() == 0 {
        Seq::empty()
    } else {
        let rest = events_after(events.drop_last(), start);
        if inside(events.last().1, start) {
            rest.push(events.last())
        } else {
            rest
        }
    }
}

/// What a source has done so far, as plain values.
pub ghost struct ActivityView {
    pub events: Seq<(u16, u64)>,
    pub first_seen: u64,
    pub last_seen: u64,
    pub connection_count: u64,
    pub alert_emitted: bool,
}

/// The activity of a source first seen at `now`.
pub open spec fn fresh_activity(now: u64) -> ActivityView {
    ActivityView {
        events: Seq::empty(),
        first_seen: now,
        last_seen: now,
        connection_count: 0,
        alert_emitted: false,
    }
}

/// The activity after one more access of `port` at `now`.
pub open spec fn with_access(a: ActivityView, port: u16, now: u64) -> ActivityView {
    ActivityView {
        events: a.events.push((port, now)),
        last_seen: if now > a.last_seen { now } else { a.last_seen },
        connection_count: if a.connection_count < u64::MAX { (a.connection_count + 1) as u64 } else { u64::MAX },
        ..a
    }
}

/// The activity once events outside the window of `window` seconds ending at
/// `now` are dropped.
pub open spec fn trimmed(a: ActivityView, window: u64, now: u64) -> ActivityView {
    ActivityView { events: events_after(a.events, window_start(now, window)), ..a }
}

/// The record that the detection engine keeps of one source address.
#[derive(Clone, Debug)]
pub struct SourceActivity {
    /// Every access, in the order seen: destination port and time in seconds.
    pub port_events: Vec<(u16, u64)>,
    pub first_seen: u64,
    pub last_seen: u64,
    /// Number of accesses recorded since the record was made.
    pub connection_count: u64,
    /// Set once an alert was raised for this source.
    pub alert_emitted: bool,
}

impl View for SourceActivity {
    type V = ActivityView;

    open spec fn view(&self) -> ActivityView {
        ActivityView {
            events: self.port_events@,
            first_seen: self.first_seen,
            last_seen: self.last_seen,
            connection_count: self.connection_count,
            alert_emitted: self.alert_emitted,
        }
    }
}

/// The first `n` events after `start` keep their place when more follow.
pub proof fn lemma_events_after_prefix(events: Seq<(u16, u64)>, start: u64, n: int)
    requires
        0 <= n < events.len(),
    ensures
        events_after(events.take(n + 1), start) == if inside(events[n].1, start) {
            events_after(events.take(n), start).push(events[n])
        } else {
            events_after(events.take(n), start)
        },
{
    assert(events.take(n + 1).drop_last() =~= events.take(n));
}

/// Every event kept after `start` lies inside the window, and each event
/// inside the window is kept.
pub proof fn lemma_events_after_members(events: Seq<(u16, u64)>, start: u64)
    ensures
        forall|i: int| 0 <= i < events_after(events, start).len() ==> inside(#[trigger] events_after(events, start)[i].1, start),
        forall|i: int| 0 <= i < events.len() && inside(events[i].1, start) ==> events_after(events, start).contains(#[trigger] events[i]),
    decreases events.len(),
{
    if events.len() > 0 {
        let rest = events.drop_last();
        lemma_events_after_members(rest, start);
        assert forall|i: int| 0 <= i < events.len() && inside(events[i].1, start) implies events_after(events, start).contains(#[trigger] events[i]) by {
            if i < events.len() - 1 {
                assert(rest[i] == events[i]);
                let j = choose|j: int| 0 <= j < events_after(rest, start).len() && events_after(rest, start)[j] == rest[i];
                if inside(events.last().1, start) {
                    assert(events_after(events, start)[j] == events[i]);
                }
            } else {
                let k = events_after(rest, start).len() as int;
                assert(events_after(events, start)[k] == events[i]);
            }
        }
    }
}

impl SourceActivity {
    /// A record for a source first seen at `now`, with no access yet.
    pub fn new(now: u64) -> (r: SourceActivity)
        ensures
            r@ == fresh_activity(now),
    {
        SourceActivity {
            port_events: Vec::new(),
            first_seen: now,
            last_seen: now,
            connection_count: 0,
            alert_emitted: false,
        }
    }

    /// Records one access of `port` at `now`. The time last seen never goes back.
    pub fn add_port(&mut self, port: u16, now: u64)
        ensures
            final(self)@ == with_access(old(self)@, port, now),
    {
        self.port_events.push((port, now));
        if now > self.last_seen {
            self.last_seen = now;
        }
        if self.connection_count < u64::MAX {
            self.connection_count = self.connection_count + 1;
        }
    }

    /// Drops the events that lie outside the window of `window` seconds ending at `now`.
    pub fn cleanup(&mut self, window: u64, now: u64)
        ensures
            final(self)@ == trimmed(old(self)@, window, now),
    {
        let start = if now >= window { now - window } else { 0 };
        let mut kept: Vec<(u16, u64)> = Vec::new();
        let mut i: usize = 0;
        while i < self.port_events.len()
            invariant
                i <= self.port_events.len(),
                kept@ == events_after(self.port_events@.take(i as int), start),
            decreases self.port_events.len() - i,
        {
            let e = self.port_events[i];
            proof {
                lemma_events_after_prefix(self.port_events@, start, i as int);
            }
            if e.1 > start {
                kept.push(e);
            }
            i = i + 1;
        }
        assert(self.port_events@.take(i as int) =~= self.port_events@);
        self.port_events = kept;
    }

    /// The number of accesses, repeated ports included, inside the window of
    /// `window` seconds ending at `now`.
    pub fn accesses_in_window(&self, window: u64, now: u64) -> (r: usize)
        ensures
            r == events_after(self.port_events@, window_start(now, window)).len(),
    {
        let start = if now >= window { now - window } else { 0 };
        let mut n: usize = 0;
        let mut i: usize = 0;
        while i < self.port_events.len()
            invariant
                i <= self.port_events@.len(),
                n == events_after(self.port_events@.take(i as int), start).len(),
                n <= i,
            decreases self.port_events@.len() - i,
        {
            proof {
                lemma_events_after_prefix(self.port_events@, start, i as int);
            }
            if self.port_events[i].1 > start {
                n = n + 1;
            }
            i = i + 1;
        }
        assert(self.port_events@.take(i as int) =~= self.port_events@);
        n
    }

    /// The number of distinct ports accessed inside the window of `window`
    /// seconds ending at `now`; a port seen twice counts once.
    pub fn unique_ports_in_window(&self, window: u64, now: u64) -> (r: usize)
        ensures
            r == ports_after(self.port_events@, window_start(now, window)).len(),
    {
        let start = if now >= window { now - window } else { 0 };
        let ghost events = self.port_events@;
        let mut seen: Vec<u16> = Vec::new();
        let mut i: usize = 0;
        while i < self.port_events.len()
            invariant
                i <= events.len(),
                events == self.port_events@,
                seen@.no_duplicates(),
                seen@.to_set() == ports_after(events.take(i as int), start),
                seen@.len() <= i,
            decreases events.len() - i,
        {
            let (port, at) = self.port_events[i];
            let ghost old_seen = seen@;
            if at > start {
                let mut j: usize = 0;
                let mut found = false;
                while j < seen.len()
                    invariant
                        j <= seen@.len(),
                        i < events.len(),
                        events == self.port_events@,
                        seen@.no_duplicates(),
                        seen@.to_set() == ports_after(events.take(i as int), start),
                        seen@.len() <= i,
                        found <==> exists|k: int| 0 <= k < j && seen@[k] == port,
                    decreases seen@.len() - j,
                {
                    if seen[j] == port {
                        found = true;
                    }
                    j = j + 1;
                }
                if !found {
                    proof {
                        assert(!seen@.contains(port));
                    }
                    seen.push(port);
                    proof {
                        assert(seen@.last() == port);
                    }
                }
                assert(seen@.contains(port));
            }
            assert(seen@ == old_seen || (at > start && seen@ == old_seen.push(port)));
            proof {
                let before = events.take(i as int);
                let after = events.take(i + 1);
                assert forall|p: u16| seen@.to_set().contains(p) <==> ports_after(after, start).contains(p) by {
                    if ports_after(after, start).contains(p) {
                        let k = choose|k: int| 0 <= k < after.len() && #[trigger] after[k].0 == p && inside(after[k].1, start);
                        if k < i {
                            assert(before[k] == after[k]);
                            assert(before[k].0 == p && inside(before[k].1, start));
                            assert(ports_after(before, start).contains(p));
                            assert(old_seen.to_set().contains(p));
                            let m = choose|m: int| 0 <= m < old_seen.len() && old_seen[m] == p;
                            assert(seen@[m] == p);
                            assert(seen@.contains(p));
                        } else {
                            assert(after[k] == events[i as int]);
                            assert(seen@.contains(p));
                        }
                    }
                    if seen@.to_set().contains(p) {
                        if old_seen.contains(p) {
                            assert(old_seen.to_set().contains(p));
                            let k = choose|k: int| 0 <= k < before.len() && #[trigger] before[k].0 == p && inside(before[k].1, start);
                            assert(after[k] == before[k]);
                            assert(after[k].0 == p && inside(after[k].1, start));
                        } else {
                            assert(seen@ == old_seen.push(port));
                            assert(p == port);
                            assert(after[i as int] == events[i as int]);
                            assert(after[i as int].0 == p && inside(after[i as int].1, start));
                        }
                    }
                }
                assert(seen@.to_set() =~= ports_after(after, start));
            }
            i = i + 1;
        }
        assert(events.take(i as int) =~= events);
        proof {
            seen@.unique_seq_to_set();
        }
        seen.len()
    }
}

} // verus!
