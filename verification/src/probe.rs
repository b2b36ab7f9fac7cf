//! The decisions of one probe loop, separated from its timing and
//! transport: whether another probe may be issued, and how one attempt's
//! outcome folds into the target's record. The caller owns the sockets and
//! timers; it asks `should_probe` before every send, performs the attempt,
//! and hands the outcome back to `apply_outcome`, publishing a snapshot of
//! the record after each iteration.

use vstd::prelude::*;
use crate::record::{evict_inc, push_capped, TargetRecord};
use crate::sample::Sample;

verus! {

/// What one probe attempt came to, as the transport reports it.
#[derive(Debug)]
pub enum ProbeOutcome {
    /// A reply arrived within the window: its round-trip time in whole
    /// microseconds.
    Reply(u64),
    /// No reply arrived before the interval elapsed.
    Timeout,
    /// The transport failed outright; the message belongs in the error
    /// log, and the loop goes on to its next iteration.
    TransportError(String),
}

/// The state one probe loop decides from: its target's record, how many of
/// its bounded attempts it has completed, and the configured total.
pub struct ProbeLoopState {
    /// The record this loop alone produces updates for.
    pub record: TargetRecord,
    /// Attempts completed so far, reply, timeout and transport error alike.
    pub iterations_done: u64,
    /// The configured total number of attempts.
    pub count: u64,
}

impl ProbeLoopState {
    /// The record stays well formed, and the lifetime counters never
    /// outrun the attempts completed, which never outrun the configured
    /// total.
    pub open spec fn wf(self) -> bool {
        &&& self.record.wf()
        &&& self.record.received_count + self.record.timeout_count <= self.iterations_done
        &&& self.iterations_done <= self.count
    }

    /// A loop about to start: no attempt made yet, a fresh record.
    pub fn new(record: TargetRecord, count: u64) -> (s: ProbeLoopState)
        requires
            record.wf(),
            record.received_count == 0,
            record.timeout_count == 0,
        ensures
            s.wf(),
            s.record == record,
            s.iterations_done == 0,
            s.count == count,
    {
        ProbeLoopState { record, iterations_done: 0, count }
    }

    /// True while another probe may be sent: the shared flag still reads
    /// "running" and the attempt budget is not exhausted. Once the flag
    /// reads "stopped", no probe is ever issued again.
    pub open spec fn spec_should_probe(self, stopped: bool) -> bool {
        !stopped && self.iterations_done < self.count
    }

    /// Decide whether to issue the next probe, reading the cancellation
    /// flag's current value at the top of the iteration.
    pub fn should_probe(&self, stopped: bool) -> (b: bool)
        ensures
            b == self.spec_should_probe(stopped),
            stopped ==> !b,
    {
        !stopped && self.iterations_done < self.count
    }

    /// Fold one completed attempt into the loop's record and count the
    /// iteration. A reply appends its measurement and moves the extrema; a
    /// timeout appends the sentinel; a transport error touches the record
    /// not at all and hands its message back for the error log. Either
    /// way the two lifetime counters stay within the configured total.
    pub fn apply_outcome(&mut self, outcome: ProbeOutcome) -> (log_msg: Option<String>)
        requires
            old(self).wf(),
            old(self).iterations_done < old(self).count,
        ensures
            final(self).wf(),
            final(self).count == old(self).count,
            final(self).iterations_done == old(self).iterations_done + 1,
            final(self).record.address@ == old(self).record.address@,
            final(self).record.resolved_ip@ == old(self).record.resolved_ip@,
            final(self).record.cap == old(self).record.cap,
            final(self).record.received_count + final(self).record.timeout_count
                <= final(self).count,
            (match outcome {
                ProbeOutcome::Reply(rtt) => {
                    &&& log_msg is None
                    &&& final(self).record.rtt_samples@ == push_capped(
                        old(self).record.rtt_samples@,
                        Sample::Rtt(rtt),
                        old(self).record.cap as nat,
                    )
                    &&& final(self).record.evicted_count == old(self).record.evicted_count
                        + evict_inc(old(self).record.rtt_samples@, old(self).record.cap as nat)
                    &&& final(self).record.received_count == old(self).record.received_count + 1
                    &&& final(self).record.timeout_count == old(self).record.timeout_count
                    &&& final(self).record.last_rtt == rtt
                    &&& final(self).record.min_rtt == (if old(self).record.received_count == 0
                        || rtt < old(self).record.min_rtt {
                        rtt
                    } else {
                        old(self).record.min_rtt
                    })
                    &&& final(self).record.max_rtt == (if old(self).record.received_count == 0
                        || rtt > old(self).record.max_rtt {
                        rtt
                    } else {
                        old(self).record.max_rtt
                    })
                },
                ProbeOutcome::Timeout => {
                    &&& log_msg is None
                    &&& final(self).record.rtt_samples@ == push_capped(
                        old(self).record.rtt_samples@,
                        Sample::Timeout,
                        old(self).record.cap as nat,
                    )
                    &&& final(self).record.evicted_count == old(self).record.evicted_count
                        + evict_inc(old(self).record.rtt_samples@, old(self).record.cap as nat)
                    &&& final(self).record.timeout_count == old(self).record.timeout_count + 1
                    &&& final(self).record.received_count == old(self).record.received_count
                    &&& final(self).record.last_rtt == old(self).record.last_rtt
                    &&& final(self).record.min_rtt == old(self).record.min_rtt
                    &&& final(self).record.max_rtt == old(self).record.max_rtt
                },
                ProbeOutcome::TransportError(m) => {
                    &&& log_msg == Some(m)
                    &&& final(self).record.same_state(old(self).record)
                },
            }),
    {
        let msg: Option<String> = match outcome {
            ProbeOutcome::Reply(rtt) => {
                self.record.record_reply(rtt);
                None
            },
            ProbeOutcome::Timeout => {
                self.record.record_timeout();
                None
            },
            ProbeOutcome::TransportError(m) => Some(m),
        };
        self.iterations_done = self.iterations_done + 1;
        msg
    }
}

/// The wait between probe sends, in milliseconds: a configured value of 0
/// maps to the 500 ms default, any other value is taken as whole seconds.
pub fn effective_interval_ms(interval_s: u32) -> (r: u64)
    ensures
        r == (if interval_s == 0 {
            500
        } else {
            interval_s * 1000
        }),
        r >= 1,
{
    if interval_s == 0 {
        500
    } else {
        interval_s as u64 * 1000
    }
}

} // verus!
