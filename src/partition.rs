//! Random partitions of an integer, and random vectors that sum to zero.
use crate::geometry::Vector;
use crate::scalar::{big_clone, big_from_usize, big_sub, big_value};
use num_bigint::BigInt;
use rand::rngs::StdRng;
use rand::Rng;
use vstd::prelude::*;

verus! {

#[verifier::external_type_specification]
#[verifier::external_body]
pub struct ExStdRng(StdRng);

/// Relies on rand's `Rng::gen_range`: a value of the half-open range
/// `lo..hi`, which must not be empty.
#[verifier::external_body]
fn draw(rng: &mut StdRng, lo: usize, hi: usize) -> (r: usize)
    requires
        lo < hi,
    ensures
        lo <= r < hi,
{
    rng.gen_range(lo..hi)
}

/// The sum of a sequence of integers.
pub open spec fn sum_of(s: Seq<int>) -> int
    decreases s.len(),
{
    if s.len() == 0 {
        0
    } else {
        sum_of(s.drop_last()) + s.last()
    }
}

/// The values of a sequence of `usize`, as integers.
pub open spec fn usizes(s: Seq<usize>) -> Seq<int> {
    s.map_values(|v: usize| v as int)
}

/// The values of a sequence of `BigInt`, as integers.
pub open spec fn bigs(s: Seq<BigInt>) -> Seq<int> {
    s.map_values(|b: BigInt| big_value(b))
}

/// The x components of a sequence of vectors.
pub open spec fn xs_of(s: Seq<Vector>) -> Seq<int> {
    s.map_values(|v: Vector| v@.0)
}

/// The y components of a sequence of vectors.
pub open spec fn ys_of(s: Seq<Vector>) -> Seq<int> {
    s.map_values(|v: Vector| v@.1)
}

/// Every element is smaller than the ones after it.
pub open spec fn strictly_increasing(s: Seq<usize>) -> bool {
    forall|i: int, j: int| 0 <= i < j < s.len() ==> s[i] < s[j]
}

/// The lengths of the pieces that cutting `0..max` at the breakpoints gives.
pub open spec fn gaps(breaks: Seq<usize>, max: int) -> Seq<int> {
    Seq::new(
        breaks.len() + 1,
        |i: int|
            (if i < breaks.len() {
                breaks[i] as int
            } else {
                max
            }) - (if i == 0 {
                0
            } else {
                breaks[i - 1] as int
            }),
    )
}

/// What a partition of `max` into `n` parts sums to: `max` where there is
/// room for `n` distinct positive parts, else `n` (all parts are then one).
pub open spec fn partition_total(n: int, max: int) -> int {
    if max >= n + 1 {
        max
    } else {
        n
    }
}

pub(crate) proof fn lemma_sum_push(s: Seq<int>, v: int)
    ensures
        sum_of(s.push(v)) == sum_of(s) + v,
{
    assert(s.push(v).drop_last() =~= s);
}

/// Cuts `0..max` at the given increasing breakpoints and returns the lengths
/// of the pieces, each positive, summing to `max`.
pub fn partition_from_breakpoints(breaks: &Vec<usize>, max: usize) -> (r: Vec<usize>)
    requires
        max >= 1,
        strictly_increasing(breaks@),
        forall|i: int| 0 <= i < breaks@.len() ==> 0 < #[trigger] breaks@[i] < max,
    ensures
        usizes(r@) == gaps(breaks@, max as int),
        sum_of(usizes(r@)) == max,
        forall|i: int| 0 <= i < r@.len() ==> r@[i] >= 1,
{
    let mut out: Vec<usize> = Vec::new();
    let mut from: usize = 0;
    let mut i: usize = 0;
    while i < breaks.len()
        invariant
            max >= 1,
            i <= breaks@.len(),
            strictly_increasing(breaks@),
            forall|k: int| 0 <= k < breaks@.len() ==> 0 < #[trigger] breaks@[k] < max,
            from == (if i == 0 { 0 } else { breaks@[i - 1] }),
            out@.len() == i,
            forall|k: int| 0 <= k < i ==> #[trigger] usizes(out@)[k] == gaps(breaks@, max as int)[k],
            forall|k: int| 0 <= k < i ==> out@[k] >= 1,
            sum_of(usizes(out@)) == from,
        decreases breaks@.len() - i,
    {
        let x = breaks[i];
        proof {
            if i > 0 {
                assert(breaks@[i - 1] < breaks@[i as int]);
            }
            lemma_sum_push(usizes(out@), (x - from) as int);
            assert(usizes(out@.push((x - from) as usize)) =~= usizes(out@).push((x - from) as int));
        }
        out.push(x - from);
        from = x;
        i = i + 1;
    }
    proof {
        if breaks@.len() > 0 {
            assert(breaks@[breaks@.len() - 1] < max);
        }
        lemma_sum_push(usizes(out@), (max - from) as int);
        assert(usizes(out@.push((max - from) as usize)) =~= usizes(out@).push((max - from) as int));
    }
    out.push(max - from);
    assert(usizes(out@) =~= gaps(breaks@, max as int));
    assert(forall|k: int| 0 <= k < out@.len() ==> out@[k] >= 1);
    out
}

/// Inserts `v` into an increasing vector unless it is there already; returns
/// whether it was inserted.
fn insert_sorted(s: &mut Vec<usize>, v: usize) -> (inserted: bool)
    requires
        strictly_increasing(old(s)@),
    ensures
        strictly_increasing(final(s)@),
        inserted == !old(s)@.contains(v),
        inserted ==> final(s)@.len() == old(s)@.len() + 1,
        !inserted ==> final(s)@ == old(s)@,
        forall|x: usize| #[trigger] final(s)@.contains(x) <==> (old(s)@.contains(x) || x == v),
{
    let mut pos: usize = 0;
    while pos < s.len() && s[pos] < v
        invariant
            pos <= s@.len(),
            forall|k: int| 0 <= k < pos ==> #[trigger] s@[k] < v,
        decreases s@.len() - pos,
    {
        pos = pos + 1;
    }
    if pos < s.len() && s[pos] == v {
        return false;
    }
    proof {
        assert forall|k: int| 0 <= k < s@.len() implies #[trigger] s@[k] != v by {
            if k >= pos {
                assert(s@[pos as int] > v);
                if k > pos {
                    assert(s@[pos as int] < s@[k]);
                }
            }
        }
    }
    let ghost before = s@;
    s.insert(pos, v);
    proof {
        assert forall|x: usize| #[trigger] s@.contains(x) <==> (before.contains(x) || x == v) by {
            if s@.contains(x) {
                let k = choose|k: int| 0 <= k < s@.len() && s@[k] == x;
                if k < pos {
                    assert(before[k] == x);
                } else if k > pos {
                    assert(before[k - 1] == x);
                }
            }
            if before.contains(x) {
                let k = choose|k: int| 0 <= k < before.len() && before[k] == x;
                if k < pos {
                    assert(s@[k] == x);
                } else {
                    assert(s@[k + 1] == x);
                }
            }
            if x == v {
                assert(s@[pos as int] == v);
            }
        }
    }
    true
}

/// `k` distinct values drawn from `1..max`, in increasing order (Floyd's
/// sampling: every subset of that size is equally likely).
fn sample_breakpoints(k: usize, max: usize, rng: &mut StdRng) -> (r: Vec<usize>)
    requires
        k < max,
    ensures
        r@.len() == k,
        strictly_increasing(r@),
        forall|i: int| 0 <= i < r@.len() ==> 0 < #[trigger] r@[i] < max,
{
    let mut s: Vec<usize> = Vec::new();
    let mut j: usize = max - k;
    while j < max
        invariant
            k < max,
            max - k <= j <= max,
            s@.len() == j - (max - k),
            strictly_increasing(s@),
            forall|i: int| 0 <= i < s@.len() ==> 0 < #[trigger] s@[i] < j,
        decreases max - j,
    {
        let t = draw(rng, 1, j + 1);
        let ghost before = s@;
        let inserted = insert_sorted(&mut s, t);
        if !inserted {
            let ghost mid = s@;
            proof {
                assert(!before.contains(j)) by {
                    if before.contains(j) {
                        let i = choose|i: int| 0 <= i < before.len() && before[i] == j;
                        assert(before[i] < j);
                    }
                }
            }
            insert_sorted(&mut s, j);
        }
        proof {
            assert forall|i: int| 0 <= i < s@.len() implies 0 < #[trigger] s@[i] < j + 1 by {
                assert(s@.contains(s@[i]));
                if before.contains(s@[i]) {
                    let m = choose|m: int| 0 <= m < before.len() && before[m] == s@[i];
                    assert(before[m] < j);
                }
            }
        }
        j = j + 1;
    }
    s
}

/// `n` positive integers: where `max >= n + 1` they are the pieces of `0..max`
/// cut at `n - 1` distinct random points and sum to `max`; otherwise they are
/// `n` ones (summing to `n`, not `max`).
pub fn random_between(n: usize, max: usize, rng: &mut StdRng) -> (r: Vec<usize>)
    requires
        n >= 1,
        n < usize::MAX,
    ensures
        r@.len() == n,
        forall|i: int| 0 <= i < r@.len() ==> r@[i] >= 1,
        sum_of(usizes(r@)) == partition_total(n as int, max as int),
        max < n + 1 ==> forall|i: int| 0 <= i < r@.len() ==> r@[i] == 1,
{
    if max < n + 1 {
        let mut out: Vec<usize> = Vec::new();
        while out.len() < n
            invariant
                out@.len() <= n,
                forall|i: int| 0 <= i < out@.len() ==> out@[i] == 1,
                sum_of(usizes(out@)) == out@.len(),
            decreases n - out@.len(),
        {
            proof {
                lemma_sum_push(usizes(out@), 1);
                assert(usizes(out@.push(1usize)) =~= usizes(out@).push(1));
            }
            out.push(1);
        }
        return out;
    }
    let breaks = sample_breakpoints(n - 1, max, rng);
    partition_from_breakpoints(&breaks, max)
}

/// The differences `a[i] - b[i]`, as exact integers.
pub fn pairwise_difference(a: &Vec<usize>, b: &Vec<usize>) -> (r: Vec<BigInt>)
    requires
        a@.len() == b@.len(),
    ensures
        r@.len() == a@.len(),
        forall|i: int| 0 <= i < r@.len() ==> #[trigger] bigs(r@)[i] == a@[i] - b@[i],
        sum_of(bigs(r@)) == sum_of(usizes(a@)) - sum_of(usizes(b@)),
{
    let mut out: Vec<BigInt> = Vec::new();
    let mut i: usize = 0;
    while i < a.len()
        invariant
            a@.len() == b@.len(),
            i <= a@.len(),
            out@.len() == i,
            forall|k: int| 0 <= k < i ==> #[trigger] bigs(out@)[k] == a@[k] - b@[k],
            sum_of(bigs(out@)) == sum_of(usizes(a@).take(i as int)) - sum_of(usizes(b@).take(i as int)),
        decreases a@.len() - i,
    {
        let x = big_from_usize(a[i]);
        let y = big_from_usize(b[i]);
        let d = big_sub(&x, &y);
        proof {
            lemma_sum_push(bigs(out@), big_value(d));
            assert(bigs(out@.push(d)) =~= bigs(out@).push(big_value(d)));
            assert(usizes(a@).take(i + 1).drop_last() =~= usizes(a@).take(i as int));
            assert(usizes(b@).take(i + 1).drop_last() =~= usizes(b@).take(i as int));
        }
        out.push(d);
        i = i + 1;
    }
    assert(usizes(a@).take(a@.len() as int) =~= usizes(a@));
    assert(usizes(b@).take(b@.len() as int) =~= usizes(b@));
    out
}

/// `n` integers that sum to zero: the differences of two independent
/// partitions of `max` into `n` parts.
pub fn random_between_zero(n: usize, max: usize, rng: &mut StdRng) -> (r: Vec<BigInt>)
    requires
        n >= 1,
        n < usize::MAX,
    ensures
        r@.len() == n,
        sum_of(bigs(r@)) == 0,
{
    let a = random_between(n, max, rng);
    let b = random_between(n, max, rng);
    pairwise_difference(&a, &b)
}

/// Pairs up x and y components into vectors.
pub fn zip_vectors(xs: &Vec<BigInt>, ys: &Vec<BigInt>) -> (r: Vec<Vector>)
    requires
        xs@.len() == ys@.len(),
    ensures
        xs_of(r@) == bigs(xs@),
        ys_of(r@) == bigs(ys@),
{
    let mut out: Vec<Vector> = Vec::new();
    let mut i: usize = 0;
    while i < xs.len()
        invariant
            xs@.len() == ys@.len(),
            i <= xs@.len(),
            out@.len() == i,
            xs_of(out@) == bigs(xs@).take(i as int),
            ys_of(out@) == bigs(ys@).take(i as int),
        decreases xs@.len() - i,
    {
        let v = Vector { x: big_clone(&xs[i]), y: big_clone(&ys[i]) };
        proof {
            let pushed = out@.push(v);
            assert forall|k: int| 0 <= k < i + 1 implies #[trigger] xs_of(pushed)[k] == bigs(xs@).take(i + 1)[k]
                && ys_of(pushed)[k] == bigs(ys@).take(i + 1)[k] by {
                if k < i {
                    assert(pushed[k] == out@[k]);
                    assert(xs_of(out@)[k] == bigs(xs@).take(i as int)[k]);
                    assert(ys_of(out@)[k] == bigs(ys@).take(i as int)[k]);
                }
            }
            assert(xs_of(pushed) =~= bigs(xs@).take(i + 1));
            assert(ys_of(pushed) =~= bigs(ys@).take(i + 1));
        }
        out.push(v);
        i = i + 1;
    }
    assert(bigs(xs@).take(i as int) =~= bigs(xs@));
    assert(bigs(ys@).take(i as int) =~= bigs(ys@));
    out
}

/// `n` random vectors with integer components that sum to the zero vector.
pub fn random_vectors(n: usize, max: usize, rng: &mut StdRng) -> (r: Vec<Vector>)
    requires
        n >= 1,
        n < usize::MAX,
    ensures
        r@.len() == n,
        sum_of(xs_of(r@)) == 0,
        sum_of(ys_of(r@)) == 0,
{
    let xs = random_between_zero(n, max, rng);
    let ys = random_between_zero(n, max, rng);
    zip_vectors(&xs, &ys)
}

} // verus!
