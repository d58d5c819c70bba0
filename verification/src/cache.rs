//! The discovery cache: poll lifecycle and the deduplicated device set.
//!
//! The cache is a plain value describing one named service's discovery
//! state: the accumulated set of devices (a sequence without structural
//! duplicates), the start and finish timestamps of the most recent poll in
//! milliseconds, and the timeout bound for the next poll. A poll is in
//! flight exactly when the most recent start is later than the most recent
//! finish. The caller that runs the actual poll drives the transitions:
//! [`DeviceDiscoveryCache::start_discovery`] before launching it,
//! [`DeviceDiscoveryCache::insert_device`] for every parsed record, and
//! [`DeviceDiscoveryCache::finish_discovery`] when it ends.

use vstd::prelude::*;

use crate::device::{DeviceRecord, DeviceRecordModel};

verus! {

/// Timeout bound of a poll, in milliseconds, for a newly built cache.
pub const DEFAULT_TIMEOUT_MS: u64 = 2000;

/// Process-local state coordinating one named service's discovery.
pub struct DeviceDiscoveryCache {
    /// The multicast service identifier to query.
    pub service_name: String,
    /// The devices discovered so far, deduplicated by structural equality.
    pub device_records: Vec<DeviceRecord>,
    /// When the most recent poll started, in milliseconds.
    pub poll_start_time: u64,
    /// When the most recent poll finished, in milliseconds.
    pub poll_finish_time: u64,
    /// Duration bound for the next poll, in milliseconds.
    pub timeout_ms: u64,
}

/// Set-insertion on a duplicate-free sequence: the sequence unchanged when
/// the value is already present, else the value appended.
pub open spec fn set_insert(s: Seq<DeviceRecordModel>, m: DeviceRecordModel) -> Seq<
    DeviceRecordModel,
> {
    if s.contains(m) {
        s
    } else {
        s.push(m)
    }
}

impl DeviceDiscoveryCache {
    /// The mathematical values of the discovered records, in insertion
    /// order.
    pub open spec fn models(&self) -> Seq<DeviceRecordModel> {
        self.device_records@.map_values(|r: DeviceRecord| r@)
    }

    /// Whether a poll is in flight: the most recent start is later than the
    /// most recent finish.
    pub open spec fn running(&self) -> bool {
        self.poll_start_time > self.poll_finish_time
    }

    /// The discovered records hold no structural duplicates.
    pub open spec fn wf(&self) -> bool {
        forall|p: int, q: int|
            0 <= p < q < self.models().len() ==> self.models()[p] != self.models()[q]
    }

    /// A fresh cache for one service: no devices, no poll in flight, the
    /// default timeout.
    pub fn new(service_name: String) -> (c: Self)
        ensures
            c.service_name@ == service_name@,
            c.models() == Seq::<DeviceRecordModel>::empty(),
            c.poll_start_time == 0,
            c.poll_finish_time == 0,
            !c.running(),
            c.timeout_ms == DEFAULT_TIMEOUT_MS,
            c.wf(),
    {
        let c = DeviceDiscoveryCache {
            service_name,
            device_records: Vec::new(),
            poll_start_time: 0,
            poll_finish_time: 0,
            timeout_ms: DEFAULT_TIMEOUT_MS,
        };
        proof {
            assert(c.models() =~= Seq::<DeviceRecordModel>::empty());
        }
        c
    }

    /// Whether a discovery poll is currently running.
    pub fn is_discovery_running(&self) -> (r: bool)
        ensures
            r == self.running(),
    {
        self.poll_start_time > self.poll_finish_time
    }

    /// Records that a poll starts now, unless one is already in flight, in
    /// which case nothing changes. Returns whether the caller should launch
    /// a poll: never two concurrent polls for one cache.
    pub fn start_discovery(&mut self, now_ms: u64) -> (started: bool)
        ensures
            started == !old(self).running(),
            old(self).running() ==> *final(self) == *old(self),
            !old(self).running() ==> *final(self) == (DeviceDiscoveryCache {
                poll_start_time: now_ms,
                ..*old(self)
            }),
    {
        if self.is_discovery_running() {
            false
        } else {
            self.poll_start_time = now_ms;
            true
        }
    }

    /// Records that the in-flight poll finished now.
    pub fn finish_discovery(&mut self, now_ms: u64)
        ensures
            *final(self) == (DeviceDiscoveryCache { poll_finish_time: now_ms, ..*old(self) }),
    {
        self.poll_finish_time = now_ms;
    }

    /// Inserts a parsed record into the discovered set. Insertion is
    /// idempotent under structural equality: a record equal to one already
    /// present leaves the set unchanged. Nothing else of the cache changes.
    pub fn insert_device(&mut self, record: DeviceRecord)
        ensures
            old(self).wf() ==> final(self).wf(),
            final(self).models() == set_insert(old(self).models(), record@),
            final(self).service_name == old(self).service_name,
            final(self).poll_start_time == old(self).poll_start_time,
            final(self).poll_finish_time == old(self).poll_finish_time,
            final(self).timeout_ms == old(self).timeout_ms,
    {
        let mut found = false;
        let n = self.device_records.len();
        let mut i: usize = 0;
        while i < n
            invariant
                i <= n,
                n == self.device_records@.len(),
                found == exists|t: int| 0 <= t < i && self.device_records@[t]@ == record@,
            decreases n - i,
        {
            if self.device_records[i].eq(&record) {
                found = true;
            }
            i = i + 1;
        }
        if found {
            proof {
                let t = choose|t: int|
                    0 <= t < self.device_records@.len() && self.device_records@[t]@ == record@;
                assert(self.models()[t] == record@);
                assert(self.models().contains(record@));
            }
        } else {
            proof {
                assert(forall|t: int|
                    0 <= t < self.models().len() ==> self.models()[t] != record@);
                assert(!self.models().contains(record@));
            }
            let ghost pre = self.models();
            self.device_records.push(record);
            proof {
                assert(self.models() =~= pre.push(record@));
            }
        }
    }

    /// A point-in-time structural copy of the discovered set, in insertion
    /// order.
    pub fn devices(&self) -> (r: Vec<DeviceRecord>)
        ensures
            r@.map_values(|x: DeviceRecord| x@) == self.models(),
    {
        let mut out: Vec<DeviceRecord> = Vec::new();
        let n = self.device_records.len();
        let mut i: usize = 0;
        while i < n
            invariant
                i <= n,
                n == self.device_records@.len(),
                out@.map_values(|x: DeviceRecord| x@) =~= self.models().take(i as int),
            decreases n - i,
        {
            let ghost pre = out@.map_values(|x: DeviceRecord| x@);
            out.push(self.device_records[i].clone());
            proof {
                assert(out@.map_values(|x: DeviceRecord| x@) =~= pre.push(
                    self.device_records@[i as int]@,
                ));
                assert(pre.push(self.device_records@[i as int]@) =~= self.models().take(
                    i as int + 1,
                ));
            }
            i = i + 1;
        }
        proof {
            assert(self.models().take(n as int) =~= self.models());
        }
        out
    }
}

} // verus!
