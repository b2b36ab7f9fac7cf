//! The shared metrics table: one record per probed target, keyed by the
//! pair of label and resolved address, updated only by replacing the
//! matching record wholesale with a published snapshot. Also the setup
//! steps that build it: label deduplication and record creation.

use vstd::prelude::*;
use crate::record::TargetRecord;
use vstd::pervasive::VecAdditionalExecFns;

verus! {

/// True when a record carries the given table key.
pub open spec fn key_matches(r: TargetRecord, address: Seq<char>, ip: Seq<char>) -> bool {
    r.address@ == address && r.resolved_ip@ == ip
}

/// Index of the first record carrying the given key, or -1 when none does.
pub open spec fn first_match(t: Seq<TargetRecord>, address: Seq<char>, ip: Seq<char>) -> int
    decreases t.len(),
{
    if t.len() == 0 {
        -1
    } else if key_matches(t[0], address, ip) {
        0
    } else {
        let rest = first_match(t.drop_first(), address, ip);
        if rest == -1 {
            -1
        } else {
            rest + 1
        }
    }
}

/// What applying one published update does to a table: the first record
/// with the update's key is replaced wholesale; a table holding no such
/// record is left as it is.
pub open spec fn spec_apply(t: Seq<TargetRecord>, rec: TargetRecord) -> Seq<TargetRecord> {
    let i = first_match(t, rec.address@, rec.resolved_ip@);
    if i == -1 {
        t
    } else {
        t.update(i, rec)
    }
}

/// What `first_match` finds: a position in range, carrying the key, with
/// no earlier record carrying it; or -1 exactly when no record does.
pub proof fn lemma_first_match(t: Seq<TargetRecord>, address: Seq<char>, ip: Seq<char>)
    ensures
        -1 <= first_match(t, address, ip) < t.len(),
        first_match(t, address, ip) >= 0 ==> key_matches(
            t[first_match(t, address, ip)],
            address,
            ip,
        ),
        forall|j: int|
            0 <= j < first_match(t, address, ip) ==> !key_matches(#[trigger] t[j], address, ip),
        first_match(t, address, ip) == -1 ==> forall|j: int|
            0 <= j < t.len() ==> !key_matches(#[trigger] t[j], address, ip),
    decreases t.len(),
{
    if t.len() > 0 && !key_matches(t[0], address, ip) {
        let rest = t.drop_first();
        lemma_first_match(rest, address, ip);
        assert forall|j: int|
            0 <= j < first_match(t, address, ip) implies !key_matches(
            #[trigger] t[j],
            address,
            ip,
        ) by {
            if j > 0 {
                assert(rest[j - 1] == t[j]);
            }
        }
        if first_match(t, address, ip) == -1 {
            assert forall|j: int| 0 <= j < t.len() implies !key_matches(
                #[trigger] t[j],
                address,
                ip,
            ) by {
                if j > 0 {
                    assert(rest[j - 1] == t[j]);
                }
            }
        }
    }
}

/// Replacing a record with one of the same key leaves `first_match` where
/// it was, so applying the same update twice in a row comes to the same
/// thing as applying it once.
pub proof fn lemma_apply_idempotent(t: Seq<TargetRecord>, rec: TargetRecord)
    ensures
        spec_apply(spec_apply(t, rec), rec) == spec_apply(t, rec),
{
    let a = rec.address@;
    let p = rec.resolved_ip@;
    let i = first_match(t, a, p);
    lemma_first_match(t, a, p);
    if i >= 0 {
        let t1 = t.update(i, rec);
        lemma_first_match(t1, a, p);
        let i1 = first_match(t1, a, p);
        assert(key_matches(t1[i], a, p));
        assert(i1 != -1);
        if i1 < i {
            assert(t1[i1] == t[i1]);
            assert(false);
        }
        if i1 > i {
            assert(!key_matches(t1[i], a, p));
            assert(false);
        }
        assert(t1.update(i, rec) =~= t1);
    }
}

/// The mutually-exclusive table of per-target records. All mutation goes
/// through `apply_update`; readers take it whole as a snapshot.
pub struct MetricsTable {
    /// The records, one per target, in creation order.
    pub records: Vec<TargetRecord>,
}

impl MetricsTable {
    /// Every record is well formed and no two share a key.
    pub open spec fn wf(self) -> bool {
        &&& forall|i: int| 0 <= i < self.records@.len() ==> (#[trigger] self.records@[i]).wf()
        &&& forall|i: int, j: int|
            0 <= i < j < self.records@.len() ==> !key_matches(
                #[trigger] self.records@[j],
                (#[trigger] self.records@[i]).address@,
                self.records@[i].resolved_ip@,
            )
    }

    /// Build the table from the records created at startup, refusing a set
    /// in which two records collide on the same key.
    pub fn new(records: Vec<TargetRecord>) -> (r: Option<MetricsTable>)
        requires
            forall|i: int| 0 <= i < records@.len() ==> (#[trigger] records@[i]).wf(),
        ensures
            r is Some <==> (forall|i: int, j: int|
                0 <= i < j < records@.len() ==> !key_matches(
                    #[trigger] records@[j],
                    (#[trigger] records@[i]).address@,
                    records@[i].resolved_ip@,
                )),
            r is Some ==> r.unwrap().records@ == records@ && r.unwrap().wf(),
    {
        let n = records.len();
        let mut i: usize = 0;
        while i < n
            invariant
                n == records@.len(),
                i <= n,
                forall|a: int, b: int|
                    0 <= a < b < records@.len() && a < i ==> !key_matches(
                        #[trigger] records@[b],
                        (#[trigger] records@[a]).address@,
                        records@[a].resolved_ip@,
                    ),
            decreases n - i,
        {
            let mut j: usize = i + 1;
            while j < n
                invariant
                    n == records@.len(),
                    i < n,
                    i + 1 <= j <= n,
                    forall|b: int|
                        i < b < j ==> !key_matches(
                            #[trigger] records@[b],
                            records@[i as int].address@,
                            records@[i as int].resolved_ip@,
                        ),
                decreases n - j,
            {
                let same = records[j].address.eq(&records[i].address) && records[j]
                    .resolved_ip
                    .eq(&records[i].resolved_ip);
                if same {
                    return None;
                }
                j = j + 1;
            }
            i = i + 1;
        }
        Some(MetricsTable { records })
    }

    /// Apply one published update: find the record with the update's key
    /// and replace it wholesale; leave the table unchanged when no record
    /// carries that key.
    pub fn apply_update(&mut self, rec: TargetRecord)
        requires
            old(self).wf(),
            rec.wf(),
        ensures
            final(self).wf(),
            final(self).records@ == spec_apply(old(self).records@, rec),
    {
        let ghost t = self.records@;
        let ghost a = rec.address@;
        let ghost p = rec.resolved_ip@;
        let n = self.records.len();
        let mut pos: usize = 0;
        while pos < n
            invariant
                self.records@ == t,
                old(self).records@ == t,
                n == t.len(),
                pos <= n,
                rec.wf(),
                old(self).wf(),
                self.wf(),
                a == rec.address@,
                p == rec.resolved_ip@,
                forall|j: int| 0 <= j < pos ==> !key_matches(#[trigger] t[j], a, p),
            decreases n - pos,
        {
            let hit = self.records[pos].address.eq(&rec.address) && self.records[pos]
                .resolved_ip
                .eq(&rec.resolved_ip);
            if hit {
                proof {
                    assert(key_matches(t[pos as int], a, p));
                    assert(first_match(t, a, p) == pos as int) by {
                        lemma_first_match(t, a, p);
                        let fm = first_match(t, a, p);
                        if fm == -1 {
                            assert(!key_matches(t[pos as int], a, p));
                        } else if fm < pos as int {
                            assert(key_matches(t[fm], a, p));
                            assert(!key_matches(t[fm], a, p));
                        } else if fm > pos as int {
                            assert(!key_matches(t[pos as int], a, p));
                        }
                    }
                }
                self.records.set(pos, rec);
                proof {
                    assert(self.records@ == t.update(pos as int, rec));
                    assert forall|i: int, j: int|
                        0 <= i < j < self.records@.len() implies !key_matches(
                        self.records@[j],
                        self.records@[i].address@,
                        self.records@[i].resolved_ip@,
                    ) by {
                        assert(key_matches(t[pos as int], a, p));
                        assert(!key_matches(
                            t[j],
                            t[i].address@,
                            t[i].resolved_ip@,
                        ) || i == pos || j == pos);
                    }
                }
                return ;
            }
            pos = pos + 1;
        }
        proof {
            lemma_first_match(t, a, p);
            if first_match(t, a, p) != -1 {
                assert(key_matches(t[first_match(t, a, p)], a, p));
                assert(false);
            }
        }
    }
}

/// In a well-formed table — as built at startup and as left by every
/// update — no record's history exceeds its cap, however many updates
/// have been applied.
pub proof fn lemma_table_histories_bounded(t: MetricsTable)
    requires
        t.wf(),
    ensures
        forall|i: int|
            0 <= i < t.records@.len() ==> (#[trigger] t.records@[i]).rtt_samples@.len()
                <= t.records@[i].cap,
{
}

/// A sequence of labels with later repetitions of any label removed: what
/// the operator's target list becomes before records are created.
pub open spec fn dedup_labels_spec(s: Seq<Seq<char>>) -> Seq<Seq<char>>
    decreases s.len(),
{
    if s.len() == 0 {
        Seq::empty()
    } else {
        let rest = dedup_labels_spec(s.drop_last());
        if rest.contains(s.last()) {
            rest
        } else {
            rest.push(s.last())
        }
    }
}

/// Deduplication keeps each label once: the result has no repeated entry
/// and holds exactly the labels of the input.
pub proof fn lemma_dedup_labels(s: Seq<Seq<char>>)
    ensures
        forall|i: int, j: int|
            0 <= i < j < dedup_labels_spec(s).len() ==> dedup_labels_spec(s)[i]
                != dedup_labels_spec(s)[j],
        forall|x: Seq<char>|
            #[trigger] dedup_labels_spec(s).contains(x) <==> s.contains(x),
    decreases s.len(),
{
    if s.len() > 0 {
        lemma_dedup_labels(s.drop_last());
        let rest = dedup_labels_spec(s.drop_last());
        assert forall|x: Seq<char>| #[trigger] dedup_labels_spec(s).contains(x) implies s.contains(
            x,
        ) by {
            if rest.contains(x) {
                assert(s.drop_last().contains(x));
                let k = choose|k: int| 0 <= k < s.drop_last().len() && s.drop_last()[k] == x;
                assert(s[k] == x);
            } else {
                assert(x == s.last());
                assert(s[s.len() - 1] == x);
            }
        }
        assert forall|x: Seq<char>| s.contains(x) implies #[trigger] dedup_labels_spec(
            s,
        ).contains(x) by {
            let k = choose|k: int| 0 <= k < s.len() && s[k] == x;
            if k < s.len() - 1 {
                assert(s.drop_last()[k] == x);
                assert(rest.contains(x));
                if !rest.contains(s.last()) {
                    let m = choose|m: int| 0 <= m < rest.len() && rest[m] == x;
                    assert(dedup_labels_spec(s)[m] == x);
                }
            } else {
                if rest.contains(s.last()) {
                    assert(rest.contains(x));
                } else {
                    assert(dedup_labels_spec(s).last() == x);
                }
            }
        }
    }
}

/// True when some entry of the vector spells the given string.
fn contains_string(v: &Vec<String>, x: &String) -> (b: bool)
    ensures
        b == v@.map_values(|t: String| t@).contains(x@),
{
    let ghost m = v@.map_values(|t: String| t@);
    let n = v.len();
    let mut i: usize = 0;
    while i < n
        invariant
            m == v@.map_values(|t: String| t@),
            n == v@.len(),
            i <= n,
            forall|j: int| 0 <= j < i ==> m[j] != x@,
        decreases n - i,
    {
        if v[i].eq(x) {
            proof {
                assert(m[i as int] == x@);
            }
            return true;
        }
        i = i + 1;
    }
    false
}

/// Drop repeated target labels, keeping the first occurrence of each in
/// the order supplied, so that exactly one record is created per unique
/// label.
pub fn dedup_targets(targets: &Vec<String>) -> (r: Vec<String>)
    ensures
        r@.map_values(|t: String| t@) == dedup_labels_spec(targets@.map_values(|t: String| t@)),
{
    let ghost all = targets@.map_values(|t: String| t@);
    let mut out: Vec<String> = Vec::new();
    let n = targets.len();
    let mut i: usize = 0;
    while i < n
        invariant
            all == targets@.map_values(|t: String| t@),
            n == targets@.len(),
            i <= n,
            out@.map_values(|t: String| t@) == dedup_labels_spec(all.subrange(0, i as int)),
        decreases n - i,
    {
        let ghost pre = all.subrange(0, i as int);
        proof {
            assert(all.subrange(0, i + 1).drop_last() =~= pre);
            assert(all.subrange(0, i + 1).last() == targets@[i as int]@);
        }
        let seen = contains_string(&out, &targets[i]);
        if !seen {
            out.push(targets[i].clone());
            proof {
                assert(out@.map_values(|t: String| t@) =~= dedup_labels_spec(pre).push(
                    targets@[i as int]@,
                ));
            }
        }
        i = i + 1;
    }
    proof {
        assert(all.subrange(0, all.len() as int) =~= all);
    }
    out
}

/// One fresh record per resolved address, labels and addresses paired up,
/// built synchronously before any probe loop starts.
pub fn make_records(labels: &Vec<String>, ips: &Vec<String>, cap: usize) -> (r: Vec<TargetRecord>)
    requires
        labels@.len() == ips@.len(),
        cap >= 1,
    ensures
        r@.len() == labels@.len(),
        forall|i: int|
            0 <= i < r@.len() ==> (#[trigger] r@[i]).is_initial(
                labels@[i]@,
                ips@[i]@,
                cap as nat,
            ) && r@[i].wf(),
{
    let n = labels.len();
    let mut out: Vec<TargetRecord> = Vec::new();
    let mut i: usize = 0;
    while i < n
        invariant
            n == labels@.len(),
            labels@.len() == ips@.len(),
            cap >= 1,
            i <= n,
            out@.len() == i,
            forall|k: int|
                0 <= k < i ==> (#[trigger] out@[k]).is_initial(
                    labels@[k]@,
                    ips@[k]@,
                    cap as nat,
                ) && out@[k].wf(),
        decreases n - i,
    {
        out.push(TargetRecord::new(labels[i].clone(), ips[i].clone(), cap));
        i = i + 1;
    }
    out
}

} // verus!
