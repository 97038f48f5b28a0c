use vstd::prelude::*;

use crate::decimal::{dec, dec2, push_decimal};

verus! {

/// The number of bucket edges; one more bucket, above the last edge, holds
/// everything larger.
pub const EDGE_COUNT: usize = 24;

/// The number of buckets, the overflow bucket included.
pub const BUCKET_COUNT: usize = 25;

/// The bucket edges `32 * sqrt(2)^k` microseconds for `k` in `0..24`, in
/// nanoseconds, rounded down.
pub open spec fn edges_ns() -> Seq<u64> {
    seq![
        32000, 45254, 64000, 90509, 128000, 181019, 256000, 362038,
        512000, 724077, 1024000, 1448154, 2048000, 2896309, 4096000, 5792618,
        8192000, 11585237, 16384000, 23170475, 32768000, 46340950, 65536000, 92681900,
    ]
}

/// Whether a sample of `us` whole microseconds lies at or under edge `k`.
/// For whole microseconds this agrees with the exact irrational edge.
pub open spec fn under_edge(us: u64, k: int) -> bool {
    us as int * 1000 <= edges_ns()[k] as int
}

/// The first bucket from `k` on whose edge is at or above `us`, or the
/// overflow bucket.
pub open spec fn bucket_from(us: u64, k: nat) -> nat
    decreases EDGE_COUNT - k,
{
    if k >= EDGE_COUNT {
        EDGE_COUNT as nat
    } else if under_edge(us, k as int) {
        k
    } else {
        bucket_from(us, k + 1)
    }
}

/// The bucket of a sample of `us` microseconds: the first edge at or above
/// it, or the overflow bucket.
pub open spec fn bucket_of(us: u64) -> nat {
    bucket_from(us, 0)
}

/// The sum of the first `n` entries of `s`.
pub open spec fn sum_to(s: Seq<nat>, n: int) -> nat
    decreases n,
{
    if n <= 0 {
        0
    } else {
        sum_to(s, n - 1) + s[n - 1]
    }
}

/// The per-bucket counts of a sequence of samples.
pub open spec fn counts_of(samples: Seq<u64>) -> Seq<nat>
    decreases samples.len(),
{
    if samples.len() == 0 {
        Seq::new(BUCKET_COUNT as nat, |i: int| 0nat)
    } else {
        let c = counts_of(samples.drop_last());
        let b = bucket_of(samples.last()) as int;
        c.update(b, c[b] + 1)
    }
}

/// The number of samples at or under edge `k`: the counts of buckets `0..=k`.
pub open spec fn cumulative(counts: Seq<nat>, k: int) -> nat {
    sum_to(counts, k + 1)
}

pub proof fn lemma_bucket_from_bound(us: u64, k: nat)
    ensures
        bucket_from(us, k) <= EDGE_COUNT,
        k <= EDGE_COUNT ==> k <= bucket_from(us, k),
    decreases EDGE_COUNT - k,
{
    if k < EDGE_COUNT && !under_edge(us, k as int) {
        lemma_bucket_from_bound(us, k + 1);
    }
}

pub proof fn lemma_sum_update(s: Seq<nat>, i: int, n: int)
    requires
        0 <= i < s.len(),
        n <= s.len(),
    ensures
        sum_to(s.update(i, s[i] + 1), n) == if n > i { sum_to(s, n) + 1 } else { sum_to(s, n) },
    decreases n,
{
    if n > 0 {
        lemma_sum_update(s, i, n - 1);
    }
}

pub proof fn lemma_sum_monotone(s: Seq<nat>, j: int, k: int)
    requires
        j <= k <= s.len(),
    ensures
        sum_to(s, j) <= sum_to(s, k),
    decreases k - j,
{
    if j < k {
        lemma_sum_monotone(s, j, k - 1);
    }
}

pub proof fn lemma_sum_ge_entry(s: Seq<nat>, i: int, n: int)
    requires
        0 <= i < n <= s.len(),
    ensures
        s[i] <= sum_to(s, n),
    decreases n,
{
    if i < n - 1 {
        lemma_sum_ge_entry(s, i, n - 1);
    }
}

pub proof fn lemma_sum_zeros(s: Seq<nat>, n: int)
    requires
        0 <= n <= s.len(),
        forall|i: int| 0 <= i < s.len() ==> s[i] == 0,
    ensures
        sum_to(s, n) == 0,
    decreases n,
{
    if n > 0 {
        lemma_sum_zeros(s, n - 1);
    }
}

pub proof fn lemma_counts_len(samples: Seq<u64>)
    ensures
        counts_of(samples).len() == BUCKET_COUNT,
    decreases samples.len(),
{
    if samples.len() > 0 {
        lemma_counts_len(samples.drop_last());
        lemma_bucket_from_bound(samples.last(), 0);
    }
}

/// Every recorded sample is counted in exactly one bucket: the per-bucket
/// counts, overflow included, add up to the number of samples, and the
/// cumulative counts never decrease from one edge to the next.
pub proof fn lemma_conservation(samples: Seq<u64>)
    ensures
        counts_of(samples).len() == BUCKET_COUNT,
        sum_to(counts_of(samples), BUCKET_COUNT as int) == samples.len(),
        forall|j: int, k: int|
            0 <= j <= k < BUCKET_COUNT ==> cumulative(counts_of(samples), j) <= cumulative(counts_of(samples), k),
    decreases samples.len(),
{
    lemma_counts_len(samples);
    if samples.len() == 0 {
        lemma_sum_zeros(counts_of(samples), BUCKET_COUNT as int);
    } else {
        let c = counts_of(samples.drop_last());
        lemma_conservation(samples.drop_last());
        lemma_bucket_from_bound(samples.last(), 0);
        lemma_sum_update(c, bucket_of(samples.last()) as int, BUCKET_COUNT as int);
    }
    assert forall|j: int, k: int| 0 <= j <= k < BUCKET_COUNT implies
        cumulative(counts_of(samples), j) <= cumulative(counts_of(samples), k) by {
        lemma_sum_monotone(counts_of(samples), j + 1, k + 1);
    }
}

/// The bucket edges in nanoseconds.
pub fn edges() -> (r: Vec<u64>)
    ensures
        r@ == edges_ns(),
{
    let r: Vec<u64> = vec![
        32000, 45254, 64000, 90509, 128000, 181019, 256000, 362038,
        512000, 724077, 1024000, 1448154, 2048000, 2896309, 4096000, 5792618,
        8192000, 11585237, 16384000, 23170475, 32768000, 46340950, 65536000, 92681900,
    ];
    assert(r@ =~= edges_ns());
    r
}

/// The bucket of a sample of `us` microseconds.
pub fn bucket_index(us: u64) -> (r: usize)
    ensures
        r as nat == bucket_of(us),
{
    let e = edges();
    let mut k: usize = 0;
    while k < EDGE_COUNT
        invariant
            e@ == edges_ns(),
            k <= EDGE_COUNT,
            bucket_from(us, k as nat) == bucket_of(us),
        decreases EDGE_COUNT - k,
    {
        if us <= e[k] / 1000 {
            return k;
        }
        k = k + 1;
    }
    k
}

/// Counts of latency samples, in microseconds, per logarithmic bucket.
pub struct LatencyHistogram {
    counts: Vec<u64>,
    total: u64,
}

impl LatencyHistogram {
    /// The count of each bucket, the overflow bucket last.
    pub closed spec fn view(&self) -> Seq<nat> {
        self.counts@.map_values(|c: u64| c as nat)
    }

    pub closed spec fn wf(&self) -> bool {
        &&& self.counts@.len() == BUCKET_COUNT
        &&& sum_to(self.view(), BUCKET_COUNT as int) == self.total as nat
    }

    /// A histogram with no sample.
    pub fn new() -> (r: LatencyHistogram)
        ensures
            r.wf(),
            r@ == counts_of(Seq::empty()),
            r.count_spec() == 0,
    {
        let mut counts: Vec<u64> = Vec::new();
        while counts.len() < BUCKET_COUNT
            invariant
                counts@.len() <= BUCKET_COUNT,
                forall|i: int| 0 <= i < counts@.len() ==> counts@[i] == 0,
            decreases BUCKET_COUNT - counts@.len(),
        {
            counts.push(0);
        }
        let r = LatencyHistogram { counts, total: 0 };
        assert(r@ =~= counts_of(Seq::empty()));
        proof {
            lemma_sum_zeros(r@, BUCKET_COUNT as int);
        }
        r
    }

    /// Records a sample of `us` microseconds.
    pub fn record(&mut self, us: u64)
        requires
            old(self).wf(),
            old(self).count_spec() < u64::MAX,
        ensures
            final(self).wf(),
            final(self)@ == old(self)@.update(bucket_of(us) as int, old(self)@[bucket_of(us) as int] + 1),
            final(self).count_spec() == old(self).count_spec() + 1,
    {
        let b = bucket_index(us);
        proof {
            lemma_bucket_from_bound(us, 0);
            lemma_sum_ge_entry(self@, b as int, BUCKET_COUNT as int);
            lemma_sum_update(self@, b as int, BUCKET_COUNT as int);
        }
        let c = self.counts[b];
        self.counts.set(b, c + 1);
        self.total = self.total + 1;
        assert(self@ =~= old(self)@.update(b as int, old(self)@[b as int] + 1));
    }

    /// A histogram of `samples`.
    pub fn from_samples(samples: &Vec<u64>) -> (r: LatencyHistogram)
        ensures
            r.wf(),
            r@ == counts_of(samples@),
            r.count_spec() == samples@.len(),
    {
        let mut h = LatencyHistogram::new();
        let mut i: usize = 0;
        while i < samples.len()
            invariant
                i <= samples@.len(),
                h.wf(),
                h@ == counts_of(samples@.subrange(0, i as int)),
                h.count_spec() == i,
            decreases samples@.len() - i,
        {
            assert(samples@.subrange(0, i as int + 1).drop_last() =~= samples@.subrange(0, i as int));
            h.record(samples[i]);
            i = i + 1;
        }
        assert(samples@.subrange(0, i as int) =~= samples@);
        h
    }

    pub closed spec fn count_spec(&self) -> nat {
        self.total as nat
    }

    /// The number of samples recorded.
    pub fn count(&self) -> (r: u64)
        requires
            self.wf(),
        ensures
            r as nat == self.count_spec(),
            r as nat == sum_to(self@, BUCKET_COUNT as int),
    {
        self.total
    }

    /// The number of samples in bucket `k`.
    pub fn bucket_count(&self, k: usize) -> (r: u64)
        requires
            self.wf(),
            k < BUCKET_COUNT,
        ensures
            r as nat == self@[k as int],
    {
        self.counts[k]
    }

    /// The number of samples at or under edge `k`.
    pub fn cumulative_count(&self, k: usize) -> (r: u64)
        requires
            self.wf(),
            k < BUCKET_COUNT,
        ensures
            r as nat == cumulative(self@, k as int),
    {
        let mut s: u64 = 0;
        let mut i: usize = 0;
        while i <= k
            invariant
                self.wf(),
                k < BUCKET_COUNT,
                i <= k + 1,
                s as nat == sum_to(self@, i as int),
            decreases k + 1 - i,
        {
            proof {
                lemma_sum_monotone(self@, i as int + 1, BUCKET_COUNT as int);
            }
            s = s + self.counts[i];
            i = i + 1;
        }
        s
    }
}

/// The share of `part` in `total`, in hundredths, rounded up; none of an
/// empty total.
pub open spec fn dots_for(part: nat, total: nat) -> nat {
    if total == 0 { 0 } else { ((part * 100 + total - 1) / total as int) as nat }
}

/// The share of `part` in `total`, in ten-thousandths, rounded up; none of an
/// empty total.
pub open spec fn height_for(part: nat, total: nat) -> nat {
    if total == 0 { 0 } else { ((part * 10000 + total - 1) / total as int) as nat }
}

/// A line of the text report: an edge, the samples above the edge shown
/// before it and at or under it, and that count's share of the whole.
pub struct TextRow {
    pub edge: usize,
    pub delta: u64,
    pub dots: u64,
}

/// The edge shown on the `i`-th line of the text report: every second one.
pub open spec fn text_edge(i: int) -> int {
    2 * i
}

/// The samples counted on the `i`-th line of the text report.
pub open spec fn text_delta(counts: Seq<nat>, i: int) -> nat {
    if i == 0 {
        cumulative(counts, 0)
    } else {
        (cumulative(counts, text_edge(i)) - cumulative(counts, text_edge(i - 1))) as nat
    }
}

/// The number of lines of the text report.
pub const TEXT_ROWS: usize = 12;

impl LatencyHistogram {
    /// The text report: one line for every second edge.
    pub fn text_rows(&self) -> (r: Vec<TextRow>)
        requires
            self.wf(),
        ensures
            r@.len() == TEXT_ROWS,
            forall|i: int| 0 <= i < TEXT_ROWS ==> {
                &&& r@[i].edge == text_edge(i)
                &&& r@[i].delta as nat == text_delta(self@, i)
                &&& r@[i].dots as nat == dots_for(text_delta(self@, i), self.count_spec())
            },
    {
        let total = self.total;
        let mut rows: Vec<TextRow> = Vec::new();
        let mut before: u64 = 0;
        let mut i: usize = 0;
        while i < TEXT_ROWS
            invariant
                self.wf(),
                total == self.total,
                i <= TEXT_ROWS,
                rows@.len() == i,
                before as nat == if i == 0 { 0 } else { cumulative(self@, text_edge(i - 1)) },
                forall|j: int| 0 <= j < i ==> {
                    &&& rows@[j].edge == text_edge(j)
                    &&& rows@[j].delta as nat == text_delta(self@, j)
                    &&& rows@[j].dots as nat == dots_for(text_delta(self@, j), self.count_spec())
                },
            decreases TEXT_ROWS - i,
        {
            let cum = self.cumulative_count(2 * i);
            proof {
                if i > 0 {
                    lemma_sum_monotone(self@, 2 * i - 1, 2 * i + 1);
                }
                lemma_sum_monotone(self@, 2 * i + 1, BUCKET_COUNT as int);
            }
            let delta = cum - before;
            let dots: u64 = if total == 0 {
                0
            } else {
                ((delta as u128 * 100 + total as u128 - 1) / total as u128) as u64
            };
            proof {
                if total > 0 {
                    assert(delta <= total);
                    assert((delta as int * 100 + total - 1) / total as int <= 100) by (nonlinear_arith)
                        requires delta <= total, total > 0;
                }
            }
            rows.push(TextRow { edge: 2 * i, delta, dots });
            before = cum;
            i = i + 1;
        }
        rows
    }

    /// The bars of the chart, one per edge: each bucket's share of the
    /// whole, in ten-thousandths rounded up, scaled so that the tallest bar
    /// is 8000 high. All bars are empty when no bucket under the last edge
    /// holds a sample.
    /// Also returns the tallest bar before scaling, which the axis labels
    /// need.
    pub fn chart_bars(&self) -> (r: (Vec<u64>, u64))
        requires
            self.wf(),
        ensures
            r.0@.len() == EDGE_COUNT,
            forall|k: int| 0 <= k < EDGE_COUNT ==>
                r.0@[k] as nat == scaled_bar(self@, self.count_spec(), k),
            r.1 as nat == max_height_to(self@, self.count_spec(), EDGE_COUNT as int),
    {
        let total = self.total;
        let mut heights: Vec<u64> = Vec::new();
        let mut k: usize = 0;
        let mut max_height: u64 = 0;
        while k < EDGE_COUNT
            invariant
                self.wf(),
                total == self.total,
                k <= EDGE_COUNT,
                heights@.len() == k,
                forall|j: int| 0 <= j < k ==> heights@[j] as nat == height_for(self@[j], total as nat),
                max_height as nat == max_height_to(self@, total as nat, k as int),
                max_height <= 10000,
            decreases EDGE_COUNT - k,
        {
            let c = self.counts[k];
            proof {
                lemma_sum_ge_entry(self@, k as int, BUCKET_COUNT as int);
            }
            let h: u64 = if total == 0 {
                0
            } else {
                ((c as u128 * 10000 + total as u128 - 1) / total as u128) as u64
            };
            proof {
                if total > 0 {
                    assert((c as int * 10000 + total - 1) / total as int <= 10000) by (nonlinear_arith)
                        requires c <= total, total > 0;
                }
            }
            heights.push(h);
            if h > max_height {
                max_height = h;
            }
            k = k + 1;
        }
        let mut bars: Vec<u64> = Vec::new();
        let mut k: usize = 0;
        while k < EDGE_COUNT
            invariant
                k <= EDGE_COUNT,
                heights@.len() == EDGE_COUNT,
                bars@.len() == k,
                forall|j: int| 0 <= j < EDGE_COUNT ==> heights@[j] as nat == height_for(self@[j], total as nat),
                max_height as nat == max_height_to(self@, total as nat, EDGE_COUNT as int),
                forall|j: int| 0 <= j < k ==> bars@[j] as nat == scaled_bar(self@, total as nat, j),
                total == self.total,
            decreases EDGE_COUNT - k,
        {
            proof {
                lemma_max_height_bound(self@, total as nat, k as int, EDGE_COUNT as int);
            }
            let b: u64 = if max_height == 0 {
                0
            } else {
                assert(heights@[k as int] <= max_height);
                assert(heights@[k as int] as int * 8000 / max_height as int <= 8000) by (nonlinear_arith)
                    requires heights@[k as int] <= max_height, max_height > 0;
                ((heights[k] as u128 * 8000) / max_height as u128) as u64
            };
            bars.push(b);
            k = k + 1;
        }
        (bars, max_height)
    }
}

/// The tallest unscaled bar among the first `n` edges.
pub open spec fn max_height_to(counts: Seq<nat>, total: nat, n: int) -> nat
    decreases n,
{
    if n <= 0 {
        0
    } else {
        let m = max_height_to(counts, total, n - 1);
        let h = height_for(counts[n - 1], total);
        if h > m { h } else { m }
    }
}

/// The scaled bar of edge `k`.
pub open spec fn scaled_bar(counts: Seq<nat>, total: nat, k: int) -> nat {
    let m = max_height_to(counts, total, EDGE_COUNT as int);
    if m == 0 { 0 } else { height_for(counts[k], total) * 8000 / m }
}

pub proof fn lemma_max_height_bound(counts: Seq<nat>, total: nat, k: int, n: int)
    requires
        0 <= k < n,
    ensures
        height_for(counts[k], total) <= max_height_to(counts, total, n),
    decreases n,
{
    if k < n - 1 {
        lemma_max_height_bound(counts, total, k, n - 1);
    }
}

/// The two-decimal form of `c` hundredths followed by `unit`.
pub open spec fn hundredths_label(c: nat, unit: Seq<char>) -> Seq<char> {
    dec(c / 100) + seq!['.'] + dec2(c % 100) + unit
}

/// The axis label of edge `idx`: the edge rounded to hundredths of a
/// microsecond below one millisecond, else to hundredths of a millisecond;
/// `+inf` past the last edge.
pub open spec fn bucket_label(idx: int) -> Seq<char> {
    if idx < 0 || idx >= EDGE_COUNT {
        seq!['+', 'i', 'n', 'f']
    } else if edges_ns()[idx] < 1_000_000 {
        hundredths_label(((edges_ns()[idx] + 5) / 10) as nat, seq!['\u{b5}', 's'])
    } else {
        hundredths_label(((edges_ns()[idx] + 5000) / 10000) as nat, seq!['m', 's'])
    }
}

fn push_hundredths(s: &mut String, c: u64)
    ensures
        final(s)@ == old(s)@ + dec((c / 100) as nat) + seq!['.'] + dec2((c % 100) as nat),
{
    push_decimal(s, c / 100);
    s.append(".");
    let frac = c % 100;
    if frac < 10 {
        s.append("0");
    }
    push_decimal(s, frac);
    proof {
        reveal_strlit(".");
        reveal_strlit("0");
    }
    assert(final(s)@ =~= old(s)@ + dec((c / 100) as nat) + seq!['.'] + dec2((c % 100) as nat));
}

/// The axis label of edge `idx`.
pub fn bucket_name(idx: i32) -> (r: String)
    ensures
        r@ == bucket_label(idx as int),
{
    proof {
        reveal_strlit("+inf");
        reveal_strlit("\u{b5}s");
        reveal_strlit("ms");
    }
    if idx < 0 || idx as usize >= EDGE_COUNT {
        let r = String::from_str("+inf");
        assert(r@ =~= bucket_label(idx as int));
        return r;
    }
    let e = edges()[idx as usize];
    let mut r = String::new();
    if e < 1_000_000 {
        push_hundredths(&mut r, (e + 5) / 10);
        r.append("\u{b5}s");
    } else {
        push_hundredths(&mut r, (e + 5000) / 10000);
        r.append("ms");
    }
    assert(r@ =~= bucket_label(idx as int));
    r
}

} // verus!
