use vstd::prelude::*;

verus! {

/// How many of the most recent temperature samples the median filter keeps.
pub const FILTER_WINDOW: usize = 13;

/// Whether `x` is counted against `v`: below it, or, when `inclusive`,
/// at or below it.
pub open spec fn counts_under(x: i64, v: i64, inclusive: bool) -> bool {
    x < v || (inclusive && x == v)
}

/// How many samples of `s` lie below `v` (at or below it when `inclusive`).
pub open spec fn count_under(s: Seq<i64>, v: i64, inclusive: bool) -> nat
    decreases s.len(),
{
    if s.len() == 0 {
        0
    } else {
        count_under(s.drop_last(), v, inclusive) + if counts_under(s.last(), v, inclusive) {
            1nat
        } else {
            0nat
        }
    }
}

/// `m` is the median of `s`: at most `len / 2` samples lie strictly below
/// it and more than `len / 2` lie at or below it. For an even number of
/// samples this is the upper of the two middle values.
pub open spec fn is_median(s: Seq<i64>, m: i64) -> bool {
    count_under(s, m, false) <= s.len() / 2 < count_under(s, m, true)
}

/// The samples the filter holds after `x` arrives: the most recent
/// `FILTER_WINDOW` of the held samples followed by `x`.
pub open spec fn window_after(w: Seq<i64>, x: i64) -> Seq<i64> {
    let p = w.push(x);
    if p.len() > FILTER_WINDOW {
        p.subrange(p.len() - FILTER_WINDOW, p.len() as int)
    } else {
        p
    }
}

spec fn is_sorted(s: Seq<i64>) -> bool {
    forall|i: int, j: int| 0 <= i <= j < s.len() ==> s[i] <= s[j]
}

proof fn lemma_count_concat(a: Seq<i64>, b: Seq<i64>, v: i64, inclusive: bool)
    ensures
        count_under(a + b, v, inclusive) == count_under(a, v, inclusive) + count_under(
            b,
            v,
            inclusive,
        ),
    decreases b.len(),
{
    if b.len() == 0 {
        assert(a + b =~= a);
    } else {
        lemma_count_concat(a, b.drop_last(), v, inclusive);
        assert((a + b).drop_last() =~= a + b.drop_last());
        assert((a + b).last() == b.last());
    }
}

proof fn lemma_count_bounded(s: Seq<i64>, v: i64, inclusive: bool)
    ensures
        count_under(s, v, inclusive) <= s.len(),
    decreases s.len(),
{
    if s.len() > 0 {
        lemma_count_bounded(s.drop_last(), v, inclusive);
    }
}

proof fn lemma_count_none(s: Seq<i64>, v: i64, inclusive: bool)
    requires
        forall|i: int| 0 <= i < s.len() ==> !counts_under(#[trigger] s[i], v, inclusive),
    ensures
        count_under(s, v, inclusive) == 0,
    decreases s.len(),
{
    if s.len() > 0 {
        lemma_count_none(s.drop_last(), v, inclusive);
    }
}

proof fn lemma_count_all(s: Seq<i64>, v: i64, inclusive: bool)
    requires
        forall|i: int| 0 <= i < s.len() ==> counts_under(#[trigger] s[i], v, inclusive),
    ensures
        count_under(s, v, inclusive) == s.len(),
    decreases s.len(),
{
    if s.len() > 0 {
        lemma_count_all(s.drop_last(), v, inclusive);
    }
}

/// Counting is monotone in what is counted: if every sample counted
/// against `v` is also counted against `w`, no fewer are counted against `w`.
proof fn lemma_count_monotone(s: Seq<i64>, v: i64, vi: bool, w: i64, wi: bool)
    requires
        forall|x: i64| counts_under(x, v, vi) ==> counts_under(x, w, wi),
    ensures
        count_under(s, v, vi) <= count_under(s, w, wi),
    decreases s.len(),
{
    if s.len() > 0 {
        lemma_count_monotone(s.drop_last(), v, vi, w, wi);
    }
}

/// Inserting `x` into `t` at `p` adds one to each count that `x` falls
/// under and leaves the others.
proof fn lemma_count_insert(t: Seq<i64>, p: int, x: i64, v: i64, inclusive: bool)
    requires
        0 <= p <= t.len(),
    ensures
        count_under(t.insert(p, x), v, inclusive) == count_under(t, v, inclusive) + if counts_under(
            x,
            v,
            inclusive,
        ) {
            1nat
        } else {
            0nat
        },
{
    let a = t.subrange(0, p);
    let b = t.subrange(p, t.len() as int);
    assert(t =~= a + b);
    assert(t.insert(p, x) =~= (a + seq![x]) + b);
    lemma_count_concat(a, b, v, inclusive);
    lemma_count_concat(a + seq![x], b, v, inclusive);
    lemma_count_concat(a, seq![x], v, inclusive);
    assert(seq![x].drop_last() =~= Seq::<i64>::empty());
    assert(count_under(Seq::<i64>::empty(), v, inclusive) == 0);
    assert(count_under(seq![x], v, inclusive) == if counts_under(x, v, inclusive) {
        1nat
    } else {
        0nat
    });
}

/// In a sorted sequence the element at `k` has at most `k` elements below
/// it and at least `k + 1` at or below it.
proof fn lemma_sorted_rank(t: Seq<i64>, k: int)
    requires
        is_sorted(t),
        0 <= k < t.len(),
    ensures
        count_under(t, t[k], false) <= k,
        count_under(t, t[k], true) >= k + 1,
{
    let lo = t.subrange(0, k);
    let hi = t.subrange(k, t.len() as int);
    assert(t =~= lo + hi);
    lemma_count_concat(lo, hi, t[k], false);
    lemma_count_bounded(lo, t[k], false);
    assert forall|i: int| 0 <= i < hi.len() implies !counts_under(#[trigger] hi[i], t[k], false) by {
        assert(hi[i] == t[k + i]);
    }
    lemma_count_none(hi, t[k], false);
    let lo2 = t.subrange(0, k + 1);
    let hi2 = t.subrange(k + 1, t.len() as int);
    assert(t =~= lo2 + hi2);
    lemma_count_concat(lo2, hi2, t[k], true);
    assert forall|i: int| 0 <= i < lo2.len() implies counts_under(#[trigger] lo2[i], t[k], true) by {
        assert(lo2[i] == t[i]);
    }
    lemma_count_all(lo2, t[k], true);
}

/// The median follows the majority of the samples: when more than half of
/// them lie at or below `level`, a minority of hotter samples (a transient
/// spike) cannot lift the median above `level`; when at most half lie below
/// `level`, a minority of cooler samples cannot pull it under `level`.
pub proof fn law_median_follows_majority(s: Seq<i64>, m: i64, level: i64)
    requires
        is_median(s, m),
    ensures
        count_under(s, level, true) > s.len() / 2 ==> m <= level,
        count_under(s, level, false) <= s.len() / 2 ==> m >= level,
{
    if m > level {
        lemma_count_monotone(s, level, true, m, false);
    }
    if m < level {
        lemma_count_monotone(s, m, true, level, false);
    }
}

/// The window after a reading holds the most recent samples, oldest first:
/// the last `min(n, 13)` of the `n` samples seen with the new reading, which
/// comes last.
pub proof fn law_window_keeps_most_recent(w: Seq<i64>, x: i64)
    ensures
        ({
            let r = window_after(w, x);
            let n = w.len() + 1;
            let keep = if n > 13 {
                13
            } else {
                n
            };
            &&& r.len() == keep
            &&& r[keep - 1] == x
            &&& forall|i: int| 0 <= i < keep ==> #[trigger] r[i] == w.push(x)[n - keep + i]
        }),
{
}

/// On samples in ascending order the median is the middle sample, the upper
/// of the two middle ones for an even count.
pub proof fn law_median_of_sorted(s: Seq<i64>, m: i64)
    requires
        s.len() > 0,
        forall|i: int, j: int| 0 <= i <= j < s.len() ==> s[i] <= s[j],
        is_median(s, m),
    ensures
        m == s[(s.len() / 2) as int],
{
    let k = s.len() / 2;
    let v = s[k as int];
    lemma_sorted_rank(s, k as int);
    if m < v {
        lemma_count_monotone(s, m, true, v, false);
    }
    if m > v {
        lemma_count_monotone(s, v, true, m, false);
    }
}

proof fn lemma_count_is_filter(s: Seq<i64>, v: i64)
    ensures
        count_under(s, v, false) == s.filter(|x: i64| x < v).len(),
        count_under(s, v, true) == s.filter(|x: i64| x <= v).len(),
    decreases s.len(),
{
    reveal(Seq::filter);
    if s.len() > 0 {
        lemma_count_is_filter(s.drop_last(), v);
    }
}

/// The median, counted over the samples themselves: `m` is the median of
/// `s` exactly when at most half of the samples (rounded down) are below
/// `m` and more than that many are at or below it.
pub proof fn law_median_counts(s: Seq<i64>, m: i64)
    ensures
        is_median(s, m) <==> (s.filter(|x: i64| x < m).len() <= s.len() / 2 && s.len() / 2 < s.filter(
            |x: i64| x <= m,
        ).len()),
{
    lemma_count_is_filter(s, m);
}

/// The median of the samples.
pub fn median(samples: &Vec<i64>) -> (m: i64)
    requires
        samples.len() > 0,
    ensures
        is_median(samples@, m),
        samples@.contains(m),
{
    let mut sorted: Vec<i64> = Vec::new();
    let mut k: usize = 0;
    while k < samples.len()
        invariant
            k <= samples.len(),
            sorted.len() == k,
            is_sorted(sorted@),
            forall|v: i64, inclusive: bool|
                #[trigger] count_under(sorted@, v, inclusive) == count_under(
                    samples@.take(k as int),
                    v,
                    inclusive,
                ),
            forall|i: int| 0 <= i < sorted.len() ==> samples@.take(k as int).contains(#[trigger] sorted@[i]),
        decreases samples.len() - k,
    {
        let x = samples[k];
        let mut p: usize = 0;
        while p < sorted.len() && sorted[p] <= x
            invariant
                p <= sorted.len(),
                forall|i: int| 0 <= i < p ==> sorted@[i] <= x,
            decreases sorted.len() - p,
        {
            p = p + 1;
        }
        let ghost old_sorted = sorted@;
        let ghost prefix = samples@.take(k as int);
        sorted.insert(p, x);
        assert(samples@.take(k + 1) =~= prefix.push(x));
        assert(samples@.take(k + 1).drop_last() =~= prefix);
        assert forall|i: int, j: int| 0 <= i <= j < sorted@.len() implies sorted@[i] <= sorted@[j] by {
            if p < old_sorted.len() {
                assert(old_sorted[p as int] > x);
            }
        }
        assert forall|v: i64, inclusive: bool|
            #[trigger] count_under(sorted@, v, inclusive) == count_under(
                samples@.take(k + 1),
                v,
                inclusive,
            ) by {
            lemma_count_insert(old_sorted, p as int, x, v, inclusive);
        }
        assert forall|i: int| 0 <= i < sorted.len() implies samples@.take(k + 1).contains(
            #[trigger] sorted@[i],
        ) by {
            if i < p {
                assert(old_sorted.contains(sorted@[i]));
                assert(old_sorted[i] == sorted@[i]);
                assert(prefix.contains(sorted@[i]));
            } else if i > p {
                assert(old_sorted[i - 1] == sorted@[i]);
                assert(prefix.contains(sorted@[i]));
            } else {
                assert(samples@.take(k + 1)[k as int] == x);
            }
        }
        k = k + 1;
    }
    assert(samples@.take(k as int) =~= samples@);
    let mid = sorted.len() / 2;
    proof {
        lemma_sorted_rank(sorted@, mid as int);
    }
    sorted[mid]
}

} // verus!
