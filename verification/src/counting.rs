//! Counting arguments shared by the degree statistics: how often a value
//! occurs in a sequence, and sums of such counts over a range of values.
use vstd::prelude::*;

verus! {

/// How many positions of `s` hold the value `v`.
pub open spec fn count_eq(s: Seq<int>, v: int) -> int
    decreases s.len(),
{
    if s.len() == 0 {
        0
    } else {
        count_eq(s.drop_last(), v) + if s.last() == v {
            1int
        } else {
            0int
        }
    }
}

/// The sum of `count_eq(s, v)` over all values `v` in `[0, b)`.
pub open spec fn bucket_sum(s: Seq<int>, b: int) -> int
    decreases b,
{
    if b <= 0 {
        0
    } else {
        bucket_sum(s, b - 1) + count_eq(s, b - 1)
    }
}

/// The sum of the values of `m` over all keys in `[0, b)`; keys absent
/// from `m` contribute nothing.
pub open spec fn map_sum_upto(m: Map<usize, usize>, b: int) -> int
    decreases b,
{
    if b <= 0 {
        0
    } else {
        map_sum_upto(m, b - 1) + if m.contains_key((b - 1) as usize) {
            m[(b - 1) as usize] as int
        } else {
            0int
        }
    }
}

pub proof fn lemma_count_eq_bounds(s: Seq<int>, v: int)
    ensures
        0 <= count_eq(s, v) <= s.len(),
    decreases s.len(),
{
    if s.len() > 0 {
        lemma_count_eq_bounds(s.drop_last(), v);
    }
}

pub proof fn lemma_count_eq_push(s: Seq<int>, x: int, v: int)
    ensures
        count_eq(s.push(x), v) == count_eq(s, v) + if x == v {
            1int
        } else {
            0int
        },
{
    assert(s.push(x).drop_last() =~= s);
    assert(s.push(x).last() == x);
}

pub proof fn lemma_bucket_sum_push(s: Seq<int>, x: int, b: int)
    ensures
        bucket_sum(s.push(x), b) == bucket_sum(s, b) + if 0 <= x < b {
            1int
        } else {
            0int
        },
    decreases b,
{
    if b <= 0 {
    } else {
        lemma_bucket_sum_push(s, x, b - 1);
        lemma_count_eq_push(s, x, b - 1);
    }
}

pub proof fn lemma_bucket_sum_empty(b: int)
    ensures
        bucket_sum(Seq::<int>::empty(), b) == 0,
    decreases b,
{
    if b > 0 {
        lemma_bucket_sum_empty(b - 1);
    }
}

/// When every element of `s` lies in `[0, b)`, each element is counted in
/// exactly one bucket, so the buckets sum to the length of `s`.
pub proof fn lemma_bucket_sum_total(s: Seq<int>, b: int)
    requires
        forall|i: int| 0 <= i < s.len() ==> 0 <= #[trigger] s[i] < b,
    ensures
        bucket_sum(s, b) == s.len(),
    decreases s.len(),
{
    if s.len() == 0 {
        assert(s =~= Seq::<int>::empty());
        lemma_bucket_sum_empty(b);
    } else {
        let t = s.drop_last();
        lemma_bucket_sum_total(t, b);
        lemma_bucket_sum_push(t, s.last(), b);
        assert(t.push(s.last()) =~= s);
    }
}

/// Each element falls into at most one bucket, so the buckets never sum
/// to more than the length of `s`.
pub proof fn lemma_bucket_sum_bounds(s: Seq<int>, b: int)
    ensures
        0 <= bucket_sum(s, b) <= s.len(),
    decreases s.len(),
{
    if s.len() == 0 {
        assert(s =~= Seq::<int>::empty());
        lemma_bucket_sum_empty(b);
    } else {
        let t = s.drop_last();
        lemma_bucket_sum_bounds(t, b);
        lemma_bucket_sum_push(t, s.last(), b);
        assert(t.push(s.last()) =~= s);
    }
}

/// A map whose entries match the occurrence counts of `s` on `[0, b)`
/// sums, over that range, to the bucket sum of `s`.
pub proof fn lemma_map_sum_matches_buckets(m: Map<usize, usize>, s: Seq<int>, b: int)
    requires
        forall|v: int|
            0 <= v < b ==> (if m.contains_key(v as usize) {
                m[v as usize] as int
            } else {
                0int
            }) == #[trigger] count_eq(s, v),
    ensures
        map_sum_upto(m, b) == bucket_sum(s, b),
    decreases b,
{
    if b > 0 {
        lemma_map_sum_matches_buckets(m, s, b - 1);
    }
}

} // verus!
