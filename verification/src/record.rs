//! The per-target aggregate: label, resolved address, bounded sample
//! history, running extrema and lifetime counters, with the operations that
//! fold one probe outcome at a time into it.

use vstd::prelude::*;
use crate::sample::Sample;

verus! {

/// The state kept for one probed target. Mutated only through
/// `record_reply` and `record_timeout`; every other use takes a snapshot.
#[derive(Debug)]
pub struct TargetRecord {
    /// The user-facing target label, immutable for the record's life.
    pub address: String,
    /// The concrete address this record's probes are sent to, set once.
    pub resolved_ip: String,
    /// Bounded history of outcomes, oldest first, in whole microseconds.
    pub rtt_samples: Vec<Sample>,
    /// Most recent successful round-trip time, 0 until one is measured.
    pub last_rtt: u64,
    /// Running minimum over successful samples, 0 until one is measured.
    pub min_rtt: u64,
    /// Running maximum over successful samples, 0 until one is measured.
    pub max_rtt: u64,
    /// Lifetime count of attempts that timed out.
    pub timeout_count: u64,
    /// Lifetime count of attempts that got a reply.
    pub received_count: u64,
    /// Number of samples evicted from the front of the history by the cap.
    pub evicted_count: u64,
    /// The history bound, configured once at creation.
    pub cap: usize,
}

/// A history after appending one sample under a cap: push, then evict the
/// oldest entry if the bound would be exceeded.
pub open spec fn push_capped(s: Seq<Sample>, x: Sample, cap: nat) -> Seq<Sample> {
    if s.len() + 1 <= cap {
        s.push(x)
    } else {
        s.drop_first().push(x)
    }
}

/// How many entries appending one sample evicts: one exactly when the
/// history already stands at its cap.
pub open spec fn evict_inc(s: Seq<Sample>, cap: nat) -> nat {
    if s.len() + 1 <= cap {
        0
    } else {
        1
    }
}

impl TargetRecord {
    /// Everything a record's fields promise each other: the history is
    /// bounded by the cap, the counters account exactly for the samples
    /// appended and evicted, the extrema bracket the last measurement and
    /// every successful sample still in the window, and all three report 0
    /// until the first reply arrives.
    pub open spec fn wf(self) -> bool {
        &&& self.cap >= 1
        &&& self.rtt_samples@.len() <= self.cap
        &&& self.received_count + self.timeout_count == self.rtt_samples@.len()
            + self.evicted_count
        &&& (self.received_count == 0 ==> self.last_rtt == 0 && self.min_rtt == 0
            && self.max_rtt == 0)
        &&& (self.received_count > 0 ==> self.min_rtt <= self.last_rtt
            && self.last_rtt <= self.max_rtt)
        &&& (forall|i: int|
            0 <= i < self.rtt_samples@.len() && (#[trigger] self.rtt_samples@[i]).is_rtt()
                ==> self.received_count > 0 && self.min_rtt <= self.rtt_samples@[i].rtt_us()
                && self.rtt_samples@[i].rtt_us() <= self.max_rtt)
    }

    /// True when two records carry the same observable state, field by
    /// field, strings and histories compared by contents.
    pub open spec fn same_state(self, other: TargetRecord) -> bool {
        &&& self.address@ == other.address@
        &&& self.resolved_ip@ == other.resolved_ip@
        &&& self.rtt_samples@ == other.rtt_samples@
        &&& self.last_rtt == other.last_rtt
        &&& self.min_rtt == other.min_rtt
        &&& self.max_rtt == other.max_rtt
        &&& self.timeout_count == other.timeout_count
        &&& self.received_count == other.received_count
        &&& self.evicted_count == other.evicted_count
        &&& self.cap == other.cap
    }

    /// True of a record as it stands when it is created, before any probe
    /// outcome has been folded in.
    pub open spec fn is_initial(self, address: Seq<char>, resolved_ip: Seq<char>, cap: nat) -> bool {
        &&& self.address@ == address
        &&& self.resolved_ip@ == resolved_ip
        &&& self.rtt_samples@ == Seq::<Sample>::empty()
        &&& self.last_rtt == 0
        &&& self.min_rtt == 0
        &&& self.max_rtt == 0
        &&& self.timeout_count == 0
        &&& self.received_count == 0
        &&& self.evicted_count == 0
        &&& self.cap == cap
    }

    /// A fresh, zero-valued record for one target, created before any
    /// probe loop starts so a first rendering always has a complete table.
    pub fn new(address: String, resolved_ip: String, cap: usize) -> (r: TargetRecord)
        requires
            cap >= 1,
        ensures
            r.is_initial(address@, resolved_ip@, cap as nat),
            r.wf(),
    {
        TargetRecord {
            address,
            resolved_ip,
            rtt_samples: Vec::new(),
            last_rtt: 0,
            min_rtt: 0,
            max_rtt: 0,
            timeout_count: 0,
            received_count: 0,
            evicted_count: 0,
            cap,
        }
    }

    /// Fold a successful probe into the record: append the measurement
    /// (evicting the oldest entry if the history is full), make it the last
    /// round-trip time, widen the extrema to cover it, and count it.
    pub fn record_reply(&mut self, rtt: u64)
        requires
            old(self).wf(),
            old(self).received_count + old(self).timeout_count < u64::MAX,
        ensures
            final(self).wf(),
            final(self).address@ == old(self).address@,
            final(self).resolved_ip@ == old(self).resolved_ip@,
            final(self).cap == old(self).cap,
            final(self).rtt_samples@ == push_capped(
                old(self).rtt_samples@,
                Sample::Rtt(rtt),
                old(self).cap as nat,
            ),
            final(self).evicted_count == old(self).evicted_count + evict_inc(
                old(self).rtt_samples@,
                old(self).cap as nat,
            ),
            final(self).received_count == old(self).received_count + 1,
            final(self).timeout_count == old(self).timeout_count,
            final(self).last_rtt == rtt,
            final(self).min_rtt == (if old(self).received_count == 0 || rtt < old(self).min_rtt {
                rtt
            } else {
                old(self).min_rtt
            }),
            final(self).max_rtt == (if old(self).received_count == 0 || rtt > old(self).max_rtt {
                rtt
            } else {
                old(self).max_rtt
            }),
    {
        self.rtt_samples.push(Sample::Rtt(rtt));
        if self.rtt_samples.len() > self.cap {
            self.rtt_samples.remove(0);
            self.evicted_count = self.evicted_count + 1;
            proof {
                assert(self.rtt_samples@ =~= push_capped(
                    old(self).rtt_samples@,
                    Sample::Rtt(rtt),
                    old(self).cap as nat,
                ));
            }
        }
        if self.received_count == 0 {
            self.min_rtt = rtt;
            self.max_rtt = rtt;
        } else {
            if rtt < self.min_rtt {
                self.min_rtt = rtt;
            }
            if rtt > self.max_rtt {
                self.max_rtt = rtt;
            }
        }
        self.last_rtt = rtt;
        self.received_count = self.received_count + 1;
    }

    /// Fold a timed-out probe into the record: append the sentinel
    /// (evicting the oldest entry if the history is full) and count the
    /// timeout; the last round-trip time and the extrema stay as they are.
    pub fn record_timeout(&mut self)
        requires
            old(self).wf(),
            old(self).received_count + old(self).timeout_count < u64::MAX,
        ensures
            final(self).wf(),
            final(self).address@ == old(self).address@,
            final(self).resolved_ip@ == old(self).resolved_ip@,
            final(self).cap == old(self).cap,
            final(self).rtt_samples@ == push_capped(
                old(self).rtt_samples@,
                Sample::Timeout,
                old(self).cap as nat,
            ),
            final(self).evicted_count == old(self).evicted_count + evict_inc(
                old(self).rtt_samples@,
                old(self).cap as nat,
            ),
            final(self).timeout_count == old(self).timeout_count + 1,
            final(self).received_count == old(self).received_count,
            final(self).last_rtt == old(self).last_rtt,
            final(self).min_rtt == old(self).min_rtt,
            final(self).max_rtt == old(self).max_rtt,
    {
        self.rtt_samples.push(Sample::Timeout);
        if self.rtt_samples.len() > self.cap {
            self.rtt_samples.remove(0);
            self.evicted_count = self.evicted_count + 1;
            proof {
                assert(self.rtt_samples@ =~= push_capped(
                    old(self).rtt_samples@,
                    Sample::Timeout,
                    old(self).cap as nat,
                ));
            }
        }
        self.timeout_count = self.timeout_count + 1;
    }

    /// A well-formed record's history never holds more samples than its
    /// cap, however many outcomes have been folded into it: every
    /// constructor and mutator of records keeps `wf`, and `wf` keeps this
    /// bound.
    pub proof fn lemma_history_bounded(self)
        requires
            self.wf(),
        ensures
            self.rtt_samples@.len() <= self.cap,
    {
    }

    /// A full copy of the record's observable state, for publishing to the
    /// table's consumer while the original keeps accumulating.
    pub fn snapshot(&self) -> (r: TargetRecord)
        ensures
            r.same_state(*self),
            self.wf() ==> r.wf(),
    {
        let mut samples: Vec<Sample> = Vec::new();
        let mut i: usize = 0;
        while i < self.rtt_samples.len()
            invariant
                i <= self.rtt_samples@.len(),
                samples@ == self.rtt_samples@.subrange(0, i as int),
            decreases self.rtt_samples@.len() - i,
        {
            samples.push(self.rtt_samples[i]);
            proof {
                assert(samples@ =~= self.rtt_samples@.subrange(0, i + 1));
            }
            i = i + 1;
        }
        proof {
            assert(samples@ =~= self.rtt_samples@);
        }
        TargetRecord {
            address: self.address.clone(),
            resolved_ip: self.resolved_ip.clone(),
            rtt_samples: samples,
            last_rtt: self.last_rtt,
            min_rtt: self.min_rtt,
            max_rtt: self.max_rtt,
            timeout_count: self.timeout_count,
            received_count: self.received_count,
            evicted_count: self.evicted_count,
            cap: self.cap,
        }
    }
}

} // verus!
