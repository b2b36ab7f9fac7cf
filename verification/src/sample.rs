//! The unit of a record's bounded history: one probe attempt's outcome,
//! either a measured round-trip time or the timeout sentinel, together with
//! the spec-level views of a history (its successful replies, their sum).

use vstd::prelude::*;

verus! {

/// One entry of a record's sample history. A timeout is kept as a
/// distinguished sentinel rather than omitted, so a history position still
/// reflects probe cadence.
#[derive(Clone, Copy, Debug, PartialEq, Eq, Structural)]
pub enum Sample {
    /// A successful probe's round-trip time, in whole microseconds.
    Rtt(u64),
    /// The sentinel recorded for an attempt that got no reply in time.
    Timeout,
}

impl Sample {
    /// True of a successful measurement, false of the timeout sentinel.
    pub open spec fn is_rtt(self) -> bool {
        matches!(self, Sample::Rtt(_))
    }

    /// The measured round-trip time; meaningful only when `is_rtt` holds.
    pub open spec fn rtt_us(self) -> u64 {
        match self {
            Sample::Rtt(v) => v,
            Sample::Timeout => 0,
        }
    }

    /// Executable test for a successful measurement.
    pub fn is_reply(&self) -> (b: bool)
        ensures
            b == self.is_rtt(),
    {
        match self {
            Sample::Rtt(_) => true,
            Sample::Timeout => false,
        }
    }
}

/// The successful replies of a history, in order, sentinels dropped.
pub open spec fn replies_of(s: Seq<Sample>) -> Seq<u64>
    decreases s.len(),
{
    if s.len() == 0 {
        Seq::empty()
    } else {
        let rest = replies_of(s.drop_last());
        if s.last().is_rtt() {
            rest.push(s.last().rtt_us())
        } else {
            rest
        }
    }
}

/// The sum of a sequence of round-trip times.
pub open spec fn sum_of(r: Seq<u64>) -> nat
    decreases r.len(),
{
    if r.len() == 0 {
        0
    } else {
        sum_of(r.drop_last()) + r.last() as nat
    }
}

/// A sum of round-trip times never exceeds one maximal value per entry.
pub proof fn lemma_sum_of_bound(r: Seq<u64>)
    ensures
        sum_of(r) <= r.len() * u64::MAX,
    decreases r.len(),
{
    if r.len() == 0 {
    } else {
        lemma_sum_of_bound(r.drop_last());
        assert((r.len() - 1) * u64::MAX + u64::MAX == r.len() * u64::MAX) by (nonlinear_arith);
    }
}

/// There are never more replies than samples.
pub proof fn lemma_replies_len(s: Seq<Sample>)
    ensures
        replies_of(s).len() <= s.len(),
    decreases s.len(),
{
    if s.len() > 0 {
        lemma_replies_len(s.drop_last());
    }
}

} // verus!
