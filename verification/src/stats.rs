//! The descriptive statistics a renderer derives from one record's
//! snapshot: mean round-trip time, jitter and loss rate. All are pure
//! functions of the snapshot and are recomputed at render time.

use vstd::prelude::*;
use crate::sample::{lemma_replies_len, lemma_sum_of_bound, replies_of, sum_of, Sample};
use vstd::arithmetic::div_mod::{lemma_div_is_ordered, lemma_div_multiples_vanish};

verus! {

/// The mean of the successful samples still in the history, rounded down;
/// 0 while none are in the window.
pub open spec fn spec_average(s: Seq<Sample>) -> nat {
    let r = replies_of(s);
    if r.len() == 0 {
        0
    } else {
        sum_of(r) / r.len()
    }
}

/// The distance between two round-trip times.
pub open spec fn abs_diff(a: u64, b: u64) -> nat {
    if a >= b {
        (a - b) as nat
    } else {
        (b - a) as nat
    }
}

/// The total movement of a reply sequence: the sum of the distances
/// between each pair of consecutive entries.
pub open spec fn jitter_sum(r: Seq<u64>) -> nat
    decreases r.len(),
{
    if r.len() < 2 {
        0
    } else {
        jitter_sum(r.drop_last()) + abs_diff(r[r.len() - 2], r.last())
    }
}

/// Jitter of a history: the total movement of its successful samples
/// divided by their number; 0 while fewer than two are in the window.
pub open spec fn spec_jitter(s: Seq<Sample>) -> nat {
    let r = replies_of(s);
    if r.len() < 2 {
        0
    } else {
        jitter_sum(r) / r.len()
    }
}

/// Loss rate in hundredths of a percent: timeouts over attempts, scaled to
/// the range 0 ..= 10000; 0 while nothing has been attempted.
pub open spec fn spec_loss_rate_bp(timeouts: nat, received: nat) -> nat {
    if timeouts + received == 0 {
        0
    } else {
        timeouts * 10000 / (timeouts + received)
    }
}

/// Appending one reply extends the total movement by the distance from the
/// previous last reply, if there was one.
proof fn lemma_jitter_sum_push(r: Seq<u64>, x: u64)
    ensures
        jitter_sum(r.push(x)) == jitter_sum(r) + if r.len() >= 1 {
            abs_diff(r.last(), x)
        } else {
            0
        },
{
    let p = r.push(x);
    assert(p.drop_last() =~= r);
    if r.len() >= 1 {
        assert(p[p.len() - 2] == r.last());
    }
}

/// The total movement never exceeds one maximal distance per entry.
proof fn lemma_jitter_sum_bound(r: Seq<u64>)
    ensures
        jitter_sum(r) <= r.len() * u64::MAX,
    decreases r.len(),
{
    if r.len() < 2 {
        assert(r.len() * u64::MAX >= 0) by (nonlinear_arith);
    } else {
        lemma_jitter_sum_bound(r.drop_last());
        assert((r.len() - 1) * u64::MAX + u64::MAX == r.len() * u64::MAX) by (nonlinear_arith);
    }
}

/// Mean of the successful samples in a history, in whole microseconds,
/// rounded down; 0 while the window holds none.
pub fn average_rtt_us(samples: &Vec<Sample>) -> (r: u64)
    ensures
        r as nat == spec_average(samples@),
        replies_of(samples@).len() == 0 ==> r == 0,
{
    let ghost all = samples@;
    let mut i: usize = 0;
    let mut count: u64 = 0;
    let mut sum: u128 = 0;
    while i < samples.len()
        invariant
            all == samples@,
            i <= all.len(),
            count as nat == replies_of(all.subrange(0, i as int)).len(),
            sum as nat == sum_of(replies_of(all.subrange(0, i as int))),
        decreases all.len() - i,
    {
        let ghost pre = all.subrange(0, i as int);
        let ghost ext = all.subrange(0, i + 1);
        proof {
            assert(ext.drop_last() =~= pre);
            lemma_replies_len(pre);
            lemma_sum_of_bound(replies_of(pre));
            assert(count as nat * (u64::MAX as nat) <= (u64::MAX as nat) * (u64::MAX as nat))
                by (nonlinear_arith)
                requires count as nat <= u64::MAX as nat;
        }
        match samples[i] {
            Sample::Rtt(v) => {
                proof {
                    assert(replies_of(ext) =~= replies_of(pre).push(v));
                    assert(replies_of(pre).push(v).drop_last() =~= replies_of(pre));
                }
                sum = sum + v as u128;
                count = count + 1;
            },
            Sample::Timeout => {
                proof {
                    assert(replies_of(ext) =~= replies_of(pre));
                }
            },
        }
        i = i + 1;
    }
    proof {
        assert(all.subrange(0, all.len() as int) =~= all);
    }
    if count == 0 {
        0
    } else {
        proof {
            lemma_sum_of_bound(replies_of(all));
            lemma_div_is_ordered(sum as int, count as int * u64::MAX as int, count as int);
            lemma_div_multiples_vanish(u64::MAX as int, count as int);
        }
        (sum / count as u128) as u64
    }
}

/// The distance between two round-trip times.
pub fn abs_diff_us(a: u64, b: u64) -> (r: u64)
    ensures
        r as nat == abs_diff(a, b),
{
    if a >= b {
        a - b
    } else {
        b - a
    }
}

/// Jitter of a history: mean movement between consecutive successful
/// samples, in whole microseconds, rounded down; 0 while the window holds
/// fewer than two.
pub fn jitter_us(samples: &Vec<Sample>) -> (r: u64)
    ensures
        r as nat == spec_jitter(samples@),
        replies_of(samples@).len() < 2 ==> r == 0,
{
    let ghost all = samples@;
    let mut i: usize = 0;
    let mut count: u64 = 0;
    let mut jsum: u128 = 0;
    let mut prev: u64 = 0;
    while i < samples.len()
        invariant
            all == samples@,
            i <= all.len(),
            count as nat == replies_of(all.subrange(0, i as int)).len(),
            jsum as nat == jitter_sum(replies_of(all.subrange(0, i as int))),
            count > 0 ==> prev == replies_of(all.subrange(0, i as int)).last(),
        decreases all.len() - i,
    {
        let ghost pre = all.subrange(0, i as int);
        let ghost ext = all.subrange(0, i + 1);
        proof {
            assert(ext.drop_last() =~= pre);
            lemma_replies_len(pre);
            lemma_jitter_sum_bound(replies_of(pre));
            assert(count as nat * (u64::MAX as nat) <= (u64::MAX as nat) * (u64::MAX as nat))
                by (nonlinear_arith)
                requires count as nat <= u64::MAX as nat;
        }
        match samples[i] {
            Sample::Rtt(v) => {
                proof {
                    assert(replies_of(ext) =~= replies_of(pre).push(v));
                    lemma_jitter_sum_push(replies_of(pre), v);
                }
                if count > 0 {
                    let d = abs_diff_us(prev, v);
                    jsum = jsum + d as u128;
                }
                prev = v;
                count = count + 1;
            },
            Sample::Timeout => {
                proof {
                    assert(replies_of(ext) =~= replies_of(pre));
                }
            },
        }
        i = i + 1;
    }
    proof {
        assert(all.subrange(0, all.len() as int) =~= all);
    }
    if count < 2 {
        0
    } else {
        proof {
            lemma_jitter_sum_bound(replies_of(all));
            lemma_div_is_ordered(jsum as int, count as int * u64::MAX as int, count as int);
            lemma_div_multiples_vanish(u64::MAX as int, count as int);
        }
        (jsum / count as u128) as u64
    }
}

/// Loss rate in hundredths of a percent, from the two lifetime counters.
/// Always within 0 ..= 10000, and 0 whenever no attempt has timed out.
pub fn loss_rate_bp(timeout_count: u64, received_count: u64) -> (r: u64)
    ensures
        r as nat == spec_loss_rate_bp(timeout_count as nat, received_count as nat),
        r <= 10000,
        timeout_count == 0 ==> r == 0,
{
    let total: u128 = timeout_count as u128 + received_count as u128;
    if total == 0 {
        0
    } else {
        let scaled: u128 = timeout_count as u128 * 10000;
        proof {
            lemma_div_is_ordered(scaled as int, total as int * 10000, total as int);
            lemma_div_multiples_vanish(10000, total as int);
        }
        (scaled / total) as u64
    }
}

} // verus!
