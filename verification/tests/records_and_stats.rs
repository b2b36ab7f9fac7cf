use pingy::probe::{effective_interval_ms, ProbeLoopState, ProbeOutcome};
use pingy::record::TargetRecord;
use pingy::sample::Sample;
use pingy::stats::{abs_diff_us, average_rtt_us, jitter_us, loss_rate_bp};

fn fresh(addr: &str, ip: &str, cap: usize) -> TargetRecord {
    TargetRecord::new(addr.to_string(), ip.to_string(), cap)
}

#[test]
fn three_replies_scenario() {
    // Interval 500 ms (configured 0), count 3, three successful replies of
    // 10.0, 12.0 and 11.0 milliseconds.
    assert_eq!(effective_interval_ms(0), 500);
    let record = fresh("example.com", "10.0.0.1", 10);
    let mut state = ProbeLoopState::new(record, 3);
    for rtt in [10_000u64, 12_000, 11_000] {
        assert!(state.should_probe(false));
        let msg = state.apply_outcome(ProbeOutcome::Reply(rtt));
        assert!(msg.is_none());
    }
    assert!(!state.should_probe(false));
    let r = &state.record;
    assert_eq!(r.last_rtt, 11_000);
    assert_eq!(r.min_rtt, 10_000);
    assert_eq!(r.max_rtt, 12_000);
    assert_eq!(r.received_count, 3);
    assert_eq!(r.timeout_count, 0);
    assert_eq!(average_rtt_us(&r.rtt_samples), 11_000);
    assert_eq!(jitter_us(&r.rtt_samples), 1_000);
    assert_eq!(loss_rate_bp(r.timeout_count, r.received_count), 0);
}

#[test]
fn timeout_in_the_middle_scenario() {
    // Same setup, but the second probe times out.
    let record = fresh("example.com", "10.0.0.1", 10);
    let mut state = ProbeLoopState::new(record, 3);
    state.apply_outcome(ProbeOutcome::Reply(10_000));
    state.apply_outcome(ProbeOutcome::Timeout);
    state.apply_outcome(ProbeOutcome::Reply(11_000));
    let r = &state.record;
    assert_eq!(
        r.rtt_samples,
        vec![Sample::Rtt(10_000), Sample::Timeout, Sample::Rtt(11_000)]
    );
    assert_eq!(r.received_count, 2);
    assert_eq!(r.timeout_count, 1);
    assert_eq!(r.last_rtt, 11_000);
    // 1 timeout out of 3 attempts: 33.33%.
    assert_eq!(loss_rate_bp(r.timeout_count, r.received_count), 3_333);
}

#[test]
fn cap_evicts_oldest_scenario() {
    // Cap of 2, three successful samples in order: the oldest is evicted.
    let mut r = fresh("example.com", "10.0.0.1", 2);
    r.record_reply(5_000);
    r.record_reply(6_000);
    r.record_reply(7_000);
    assert_eq!(r.rtt_samples, vec![Sample::Rtt(6_000), Sample::Rtt(7_000)]);
    assert_eq!(r.evicted_count, 1);
    assert_eq!(r.received_count, 3);
    assert_eq!(r.min_rtt, 5_000);
    assert_eq!(r.max_rtt, 7_000);
}

#[test]
fn history_never_exceeds_cap() {
    let mut r = fresh("t", "1.1.1.1", 3);
    for i in 0..50u64 {
        if i % 4 == 0 {
            r.record_timeout();
        } else {
            r.record_reply(1_000 + i);
        }
        assert!(r.rtt_samples.len() <= 3);
    }
    assert_eq!(
        (r.received_count + r.timeout_count) as usize,
        r.rtt_samples.len() + r.evicted_count as usize
    );
}

#[test]
fn counters_stay_within_configured_count() {
    let mut state = ProbeLoopState::new(fresh("t", "1.1.1.1", 10), 5);
    let mut fed = 0u64;
    while state.should_probe(false) {
        state.apply_outcome(if fed % 2 == 0 {
            ProbeOutcome::Reply(2_000)
        } else {
            ProbeOutcome::Timeout
        });
        fed += 1;
    }
    assert_eq!(fed, 5);
    assert!(state.record.received_count + state.record.timeout_count <= 5);
}

#[test]
fn transport_error_only_logs() {
    let mut state = ProbeLoopState::new(fresh("t", "1.1.1.1", 10), 3);
    let before_samples = state.record.rtt_samples.clone();
    let msg = state.apply_outcome(ProbeOutcome::TransportError("send failed".to_string()));
    assert_eq!(msg, Some("send failed".to_string()));
    assert_eq!(state.record.rtt_samples, before_samples);
    assert_eq!(state.record.received_count, 0);
    assert_eq!(state.record.timeout_count, 0);
    assert_eq!(state.iterations_done, 1);
}

#[test]
fn cancellation_stops_probing() {
    let mut state = ProbeLoopState::new(fresh("t", "1.1.1.1", 10), 1_000);
    state.apply_outcome(ProbeOutcome::Reply(1_500));
    // Once the shared flag reads "stopped", no further probe is issued.
    assert!(!state.should_probe(true));
    assert!(state.should_probe(false));
}

#[test]
fn fresh_record_is_zeroed() {
    let r = fresh("host", "9.9.9.9", 10);
    assert_eq!(r.address, "host");
    assert_eq!(r.resolved_ip, "9.9.9.9");
    assert!(r.rtt_samples.is_empty());
    assert_eq!(r.last_rtt, 0);
    assert_eq!(r.min_rtt, 0);
    assert_eq!(r.max_rtt, 0);
    assert_eq!(r.received_count, 0);
    assert_eq!(r.timeout_count, 0);
    assert_eq!(r.evicted_count, 0);
}

#[test]
fn timeout_keeps_last_and_extrema() {
    let mut r = fresh("t", "1.1.1.1", 10);
    r.record_reply(8_000);
    r.record_timeout();
    assert_eq!(r.last_rtt, 8_000);
    assert_eq!(r.min_rtt, 8_000);
    assert_eq!(r.max_rtt, 8_000);
}

#[test]
fn snapshot_copies_state() {
    let mut r = fresh("t", "1.1.1.1", 4);
    r.record_reply(3_000);
    r.record_timeout();
    let s = r.snapshot();
    assert_eq!(s.address, r.address);
    assert_eq!(s.resolved_ip, r.resolved_ip);
    assert_eq!(s.rtt_samples, r.rtt_samples);
    assert_eq!(s.last_rtt, r.last_rtt);
    assert_eq!(s.received_count, r.received_count);
    assert_eq!(s.timeout_count, r.timeout_count);
    assert_eq!(s.evicted_count, r.evicted_count);
    assert_eq!(s.cap, r.cap);
}

#[test]
fn average_ignores_sentinels() {
    let samples = vec![Sample::Rtt(4_000), Sample::Timeout, Sample::Rtt(2_000)];
    assert_eq!(average_rtt_us(&samples), 3_000);
    assert_eq!(average_rtt_us(&Vec::new()), 0);
    assert_eq!(average_rtt_us(&vec![Sample::Timeout]), 0);
}

#[test]
fn average_rounds_down() {
    let samples = vec![Sample::Rtt(1), Sample::Rtt(2)];
    assert_eq!(average_rtt_us(&samples), 1);
}

#[test]
fn jitter_needs_two_replies() {
    // Fewer than two non-sentinel entries: jitter is 0.
    assert_eq!(jitter_us(&Vec::new()), 0);
    assert_eq!(jitter_us(&vec![Sample::Rtt(7_000)]), 0);
    assert_eq!(jitter_us(&vec![Sample::Rtt(7_000), Sample::Timeout]), 0);
}

#[test]
fn jitter_skips_sentinels() {
    // Replies 4.0 and 1.0 ms around a timeout: one gap of 3.0 ms over two
    // replies.
    let samples = vec![Sample::Rtt(4_000), Sample::Timeout, Sample::Rtt(1_000)];
    assert_eq!(jitter_us(&samples), 1_500);
}

#[test]
fn loss_rate_edges() {
    assert_eq!(loss_rate_bp(0, 0), 0);
    assert_eq!(loss_rate_bp(0, 7), 0);
    assert_eq!(loss_rate_bp(5, 0), 10_000);
    assert_eq!(loss_rate_bp(1, 1), 5_000);
    assert!(loss_rate_bp(123, 456) <= 10_000);
}

#[test]
fn abs_diff_both_orders() {
    assert_eq!(abs_diff_us(5, 9), 4);
    assert_eq!(abs_diff_us(9, 5), 4);
    assert_eq!(abs_diff_us(6, 6), 0);
}

#[test]
fn interval_default_and_scaling() {
    assert_eq!(effective_interval_ms(0), 500);
    assert_eq!(effective_interval_ms(1), 1_000);
    assert_eq!(effective_interval_ms(3), 3_000);
}
