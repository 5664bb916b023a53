use vstd::prelude::*;
use dashmap::DashMap;
use crate::activity::{ActivityView, SourceActivity};

verus! {

/// dashmap's sharded concurrent map, held opaque; what it holds is named by
/// `tracked_of`.
#[verifier::external_type_specification]
#[verifier::external_body]
#[verifier::reject_recursive_types(K)]
#[verifier::reject_recursive_types(V)]
#[verifier::reject_recursive_types(S)]
pub struct ExDashMap<K, V, S>(DashMap<K, V, S>);

/// What a concurrent activity map holds: source address to activity.
pub uninterp spec fn tracked_of(m: DashMap<String, SourceActivity>) -> Map<Seq<char>, ActivityView>;

/// Relies on DashMap::new: a new map is empty.
#[verifier::external_body]
fn map_new() -> (r: DashMap<String, SourceActivity>)
    ensures
        tracked_of(r).dom() == Set::<Seq<char>>::empty(),
        tracked_of(r).dom().finite(),
{
    DashMap::new()
}

/// Relies on DashMap::get: a copy of the entry stored under `key`, if any.
#[verifier::external_body]
fn map_get(m: &DashMap<String, SourceActivity>, key: &String) -> (r: Option<SourceActivity>)
    ensures
        r.is_some() == tracked_of(*m).contains_key(key@),
        r matches Some(a) ==> a@ == tracked_of(*m)[key@],
{
    m.get(key).map(|e| e.value().clone())
}

/// Relies on DashMap::insert: the entry under `key` is set to `value`, the others stay.
#[verifier::external_body]
fn map_insert(m: &mut DashMap<String, SourceActivity>, key: String, value: SourceActivity)
    ensures
        tracked_of(*final(m)) == tracked_of(*old(m)).insert(key@, value@),
        tracked_of(*old(m)).dom().finite() ==> tracked_of(*final(m)).dom().finite(),
{
    m.insert(key, value);
}

/// Relies on DashMap::len: the number of entries.
#[verifier::external_body]
fn map_len(m: &DashMap<String, SourceActivity>) -> (r: usize)
    ensures
        r == tracked_of(*m).len(),
{
    m.len()
}

/// Relies on DashMap::retain: keeps exactly the entries last seen at or after `cutoff`.
#[verifier::external_body]
fn map_retain_recent(m: &mut DashMap<String, SourceActivity>, cutoff: u64)
    ensures
        tracked_of(*final(m)) == recent_only(tracked_of(*old(m)), cutoff),
{
    m.retain(|_, a| a.is_recent(cutoff));
}

/// The entries of `m` last seen at or after `cutoff`.
pub open spec fn recent_only(m: Map<Seq<char>, ActivityView>, cutoff: u64) -> Map<Seq<char>, ActivityView> {
    m.restrict(m.dom().filter(|k: Seq<char>| m[k].last_seen >= cutoff))
}

impl SourceActivity {
    /// Whether this record was last seen at or after `cutoff`.
    pub fn is_recent(&self, cutoff: u64) -> (r: bool)
        ensures
            r == (self@.last_seen >= cutoff),
    {
        self.last_seen >= cutoff
    }
}

/// The activity of every tracked source, with a bound on how many are tracked.
pub struct ActivityStore {
    map: DashMap<String, SourceActivity>,
    capacity: usize,
    rejected: u64,
}

/// Outcome of asking the store for the record of a source.
pub enum Admission {
    /// The source is tracked already; here is its record.
    Known(SourceActivity),
    /// The source is new and there is room for it.
    Fresh,
    /// The source is new and the store is full.
    Saturated,
}

impl ActivityStore {
    /// The tracked sources and their activity.
    pub closed spec fn entries(&self) -> Map<Seq<char>, ActivityView> {
        tracked_of(self.map)
    }

    /// The store tracks finitely many sources.
    pub open spec fn wf(&self) -> bool {
        self.entries().dom().finite()
    }

    /// The most sources the store tracks at once.
    pub closed spec fn spec_capacity(&self) -> nat {
        self.capacity as nat
    }

    /// How many new sources were turned away because the store was full.
    pub closed spec fn spec_rejected(&self) -> u64 {
        self.rejected
    }

    /// An empty store that tracks at most `capacity` sources.
    pub fn new(capacity: usize) -> (r: ActivityStore)
        ensures
            r.entries().dom() == Set::<Seq<char>>::empty(),
            r.spec_capacity() == capacity,
            r.spec_rejected() == 0,
            r.wf(),
    {
        ActivityStore { map: map_new(), capacity, rejected: 0 }
    }

    /// The number of tracked sources.
    pub fn len(&self) -> (r: usize)
        ensures
            r == self.entries().len(),
    {
        map_len(&self.map)
    }

    /// The most sources the store tracks at once.
    pub fn capacity(&self) -> (r: usize)
        ensures
            r == self.spec_capacity(),
    {
        self.capacity
    }

    /// How many new sources were turned away because the store was full.
    pub fn rejected(&self) -> (r: u64)
        ensures
            r == self.spec_rejected(),
    {
        self.rejected
    }

    /// A copy of the record of `address`, if it is tracked.
    pub fn get(&self, address: &String) -> (r: Option<SourceActivity>)
        ensures
            r.is_some() == self.entries().contains_key(address@),
            r matches Some(a) ==> a@ == self.entries()[address@],
    {
        map_get(&self.map, address)
    }

    /// Looks up `address`. A source not yet tracked is admitted when there is
    /// room; otherwise it is refused and the rejection counter (which
    /// saturates) goes up by one. Nothing is created here.
    pub fn admission(&mut self, address: &String) -> (r: Admission)
        requires
            old(self).wf(),
        ensures
            final(self).wf(),
            final(self).entries() == old(self).entries(),
            final(self).spec_capacity() == old(self).spec_capacity(),
            old(self).entries().contains_key(address@) ==> (r matches Admission::Known(a) && a@ == old(self).entries()[address@]),
            !old(self).entries().contains_key(address@) && old(self).entries().len() < old(self).spec_capacity() ==> r is Fresh,
            !old(self).entries().contains_key(address@) && old(self).entries().len() >= old(self).spec_capacity() ==> r is Saturated,
            r is Saturated ==> final(self).spec_rejected() == if old(self).spec_rejected() < u64::MAX { (old(self).spec_rejected() + 1) as u64 } else { u64::MAX },
            !(r is Saturated) ==> final(self).spec_rejected() == old(self).spec_rejected(),
    {
        match map_get(&self.map, address) {
            Some(a) => Admission::Known(a),
            None => {
                if map_len(&self.map) < self.capacity {
                    Admission::Fresh
                } else {
                    if self.rejected < u64::MAX {
                        self.rejected = self.rejected + 1;
                    }
                    Admission::Saturated
                }
            },
        }
    }

    /// Stores `activity` as the record of `address`.
    pub fn put(&mut self, address: String, activity: SourceActivity)
        requires
            old(self).wf(),
        ensures
            final(self).wf(),
            final(self).entries() == old(self).entries().insert(address@, activity@),
            final(self).spec_capacity() == old(self).spec_capacity(),
            final(self).spec_rejected() == old(self).spec_rejected(),
    {
        map_insert(&mut self.map, address, activity);
    }

    /// Removes every record last seen before `cutoff` and keeps all others;
    /// returns how many were removed.
    pub fn evict_older_than(&mut self, cutoff: u64) -> (r: usize)
        requires
            old(self).wf(),
        ensures
            final(self).wf(),
            final(self).entries() == recent_only(old(self).entries(), cutoff),
            final(self).spec_capacity() == old(self).spec_capacity(),
            final(self).spec_rejected() == old(self).spec_rejected(),
            r == old(self).entries().len() - final(self).entries().len(),
    {
        let before = map_len(&self.map);
        map_retain_recent(&mut self.map, cutoff);
        let after = map_len(&self.map);
        proof {
            let m = old(self).entries();
            vstd::set_lib::lemma_len_subset(recent_only(m, cutoff).dom(), m.dom());
        }
        before - after
    }
}

} // verus!
