//! The six summation strategies and the mathematics they share.
use vstd::prelude::*;

verus! {

/// 2^32, the modulus of a wrapping `u32` sum.
pub open spec fn modulus() -> int {
    0x1_0000_0000
}

/// The exact sum of `s`, as an integer.
pub open spec fn seq_sum(s: Seq<u32>) -> int
    decreases s.len(),
{
    if s.len() == 0 {
        0
    } else {
        seq_sum(s.drop_last()) + s.last()
    }
}

/// The sum of `s` modulo 2^32.
pub open spec fn wrapping_sum(s: Seq<u32>) -> u32 {
    (seq_sum(s) % modulus()) as u32
}

/// The values of `xs` at the positions `indexes`, in order.
pub open spec fn gather(xs: Seq<u32>, indexes: Seq<usize>) -> Seq<u32> {
    indexes.map_values(|i: usize| xs[i as int])
}

/// Adding `x` to the wrapping sum of `s` gives the wrapping sum of `s.push(x)`.
proof fn lemma_wrapping_sum_push(s: Seq<u32>, x: u32)
    ensures
        wrapping_sum(s.push(x)) == vstd::wrapping::u32_specs::wrapping_add(wrapping_sum(s), x),
{
    assert(s.push(x).drop_last() =~= s);
    let t = seq_sum(s);
    let m = modulus();
    let a = t % m;
    assert(0 <= a < m && (t + x) % m == (a + x) % m) by (nonlinear_arith)
        requires
            m == 0x1_0000_0000,
            a == t % m,
    {
        vstd::arithmetic::div_mod::lemma_add_mod_noop(t, x as int, m);
        vstd::arithmetic::div_mod::lemma_mod_twice(x as int, m);
    }
    if a + x >= m {
        assert((a + x) % m == a + x - m) by (nonlinear_arith)
            requires
                m <= a + x < 2 * m,
        {
            vstd::arithmetic::div_mod::lemma_fundamental_div_mod(a + x, m);
        }
    } else {
        assert((a + x) % m == a + x) by (nonlinear_arith)
            requires
                0 <= a + x < m,
        {
        }
    }
}

/// Sums `xs` at each position listed in `indexes`, checking every position
/// on access.
#[inline(never)]
pub fn sum_indirectly(xs: &[u32], indexes: &[usize]) -> (r: u32)
    requires
        forall|k: int| 0 <= k < indexes@.len() ==> indexes@[k] < xs@.len(),
    ensures
        r == wrapping_sum(gather(xs@, indexes@)),
{
    let mut sum: u32 = 0;
    for k in 0..indexes.len()
        invariant
            forall|j: int| 0 <= j < indexes@.len() ==> indexes@[j] < xs@.len(),
            sum == wrapping_sum(gather(xs@, indexes@.subrange(0, k as int))),
    {
        let idx = indexes[k];
        let x = xs[idx];
        proof {
            lemma_wrapping_sum_push(gather(xs@, indexes@.subrange(0, k as int)), x);
            assert(gather(xs@, indexes@.subrange(0, k + 1)) =~= gather(
                xs@,
                indexes@.subrange(0, k as int),
            ).push(x));
        }
        sum = sum.wrapping_add(x);
    }
    assert(indexes@.subrange(0, indexes@.len() as int) =~= indexes@);
    sum
}

/// Sums `xs` at each position listed in `indexes`. That every position is in
/// range is the caller's proof obligation, discharged where it is called
/// rather than assumed of the data.
#[inline(never)]
pub fn sum_indirectly_unchecked(xs: &[u32], indexes: &[usize]) -> (r: u32)
    requires
        forall|k: int| 0 <= k < indexes@.len() ==> indexes@[k] < xs@.len(),
    ensures
        r == wrapping_sum(gather(xs@, indexes@)),
{
    let mut sum: u32 = 0;
    for idx in it: indexes.iter()
        invariant
            it.seq() == indexes@.map_values(|i: usize| &i),
            forall|j: int| 0 <= j < indexes@.len() ==> indexes@[j] < xs@.len(),
            sum == wrapping_sum(gather(xs@, indexes@.subrange(0, it.index()))),
    {
        let k = Ghost(it.index());
        let x = xs[*idx];
        proof {
            lemma_wrapping_sum_push(gather(xs@, indexes@.subrange(0, k@)), x);
            assert(gather(xs@, indexes@.subrange(0, k@ + 1)) =~= gather(
                xs@,
                indexes@.subrange(0, k@),
            ).push(x));
        }
        sum = sum.wrapping_add(x);
    }
    assert(indexes@.subrange(0, indexes@.len() as int) =~= indexes@);
    sum
}

/// Sums the positions `lo..hi` of `xs`, checking every position on access.
#[inline(never)]
pub fn sum(xs: &[u32], lo: usize, hi: usize) -> (r: u32)
    requires
        lo <= hi <= xs@.len(),
    ensures
        r == wrapping_sum(xs@.subrange(lo as int, hi as int)),
{
    let mut sum: u32 = 0;
    for idx in lo..hi
        invariant
            lo <= hi <= xs@.len(),
            sum == wrapping_sum(xs@.subrange(lo as int, idx as int)),
    {
        let x = xs[idx];
        proof {
            lemma_wrapping_sum_push(xs@.subrange(lo as int, idx as int), x);
            assert(xs@.subrange(lo as int, idx + 1) =~= xs@.subrange(lo as int, idx as int).push(x));
        }
        sum = sum.wrapping_add(x);
    }
    sum
}

/// Sums the positions `lo..hi` of `xs`. That the range lies inside `xs` is
/// the caller's proof obligation, discharged where it is called.
#[inline(never)]
pub fn sum_unchecked(xs: &[u32], lo: usize, hi: usize) -> (r: u32)
    requires
        lo <= hi <= xs@.len(),
    ensures
        r == wrapping_sum(xs@.subrange(lo as int, hi as int)),
{
    let mut sum: u32 = 0;
    let mut idx: usize = lo;
    while idx < hi
        invariant
            lo <= idx <= hi <= xs@.len(),
            sum == wrapping_sum(xs@.subrange(lo as int, idx as int)),
        decreases hi - idx,
    {
        let x = xs[idx];
        proof {
            lemma_wrapping_sum_push(xs@.subrange(lo as int, idx as int), x);
            assert(xs@.subrange(lo as int, idx + 1) =~= xs@.subrange(lo as int, idx as int).push(x));
        }
        sum = sum.wrapping_add(x);
        idx = idx + 1;
    }
    sum
}

/// Sums the positions `lo..hi` of `xs`: the range is checked once, when the
/// sub-slice is taken, and the sub-slice is then walked without checks.
#[inline(never)]
pub fn sum_hoisted_checks(xs: &[u32], lo: usize, hi: usize) -> (r: u32)
    requires
        lo <= hi <= xs@.len(),
    ensures
        r == wrapping_sum(xs@.subrange(lo as int, hi as int)),
{
    let part = &xs[lo..hi];
    let mut sum: u32 = 0;
    for x in it: part.iter()
        invariant
            it.seq() == part@.map_values(|v: u32| &v),
            part@ == xs@.subrange(lo as int, hi as int),
            sum == wrapping_sum(part@.subrange(0, it.index())),
    {
        let k = Ghost(it.index());
        proof {
            lemma_wrapping_sum_push(part@.subrange(0, k@), *x);
            assert(part@.subrange(0, k@ + 1) =~= part@.subrange(0, k@).push(*x));
        }
        sum = sum.wrapping_add(*x);
    }
    assert(part@.subrange(0, part@.len() as int) =~= part@);
    sum
}

/// The wrapping sum of `s` as a left fold of wrapping addition from zero.
pub open spec fn wrapping_fold(s: Seq<u32>) -> u32 {
    s.fold_left(0u32, |acc: u32, x: u32| vstd::wrapping::u32_specs::wrapping_add(acc, x))
}

/// Folding with wrapping addition computes the wrapping sum.
pub proof fn lemma_fold_is_wrapping_sum(s: Seq<u32>)
    ensures
        wrapping_fold(s) == wrapping_sum(s),
    decreases s.len(),
{
    if s.len() == 0 {
        assert(seq_sum(s) == 0);
        assert(0int % modulus() == 0);
    } else {
        lemma_fold_is_wrapping_sum(s.drop_last());
        lemma_wrapping_sum_push(s.drop_last(), s.last());
        assert(s.drop_last().push(s.last()) =~= s);
    }
}

/// Sums the positions `lo..hi` of `xs` as a fold over the sub-slice, taken
/// once with its range check.
#[inline(never)]
pub fn sum_iter_sum(xs: &[u32], lo: usize, hi: usize) -> (r: u32)
    requires
        lo <= hi <= xs@.len(),
    ensures
        r == wrapping_sum(xs@.subrange(lo as int, hi as int)),
{
    let part = &xs[lo..hi];
    let mut acc: u32 = 0;
    for x in it: part.iter()
        invariant
            it.seq() == part@.map_values(|v: u32| &v),
            acc == wrapping_fold(part@.subrange(0, it.index())),
    {
        let k = Ghost(it.index());
        proof {
            assert(part@.subrange(0, k@ + 1).drop_last() =~= part@.subrange(0, k@));
        }
        acc = acc.wrapping_add(*x);
    }
    proof {
        assert(part@.subrange(0, part@.len() as int) =~= part@);
        lemma_fold_is_wrapping_sum(part@);
    }
    acc
}

/// The positions `lo, lo + 1, ..., hi - 1`.
pub open spec fn positions(lo: usize, hi: usize) -> Seq<usize> {
    Seq::new((hi - lo) as nat, |i: int| (lo + i) as usize)
}

/// The index array `0, 1, ..., n - 1`.
pub fn index_array(n: usize) -> (v: Vec<usize>)
    ensures
        v@ == positions(0, n),
{
    let mut v: Vec<usize> = Vec::with_capacity(n);
    for i in 0..n
        invariant
            v@ == positions(0, i),
    {
        v.push(i);
        assert(v@ =~= positions(0, (i + 1) as usize));
    }
    v
}

/// Summing through the index array of a range and summing the range directly
/// agree: the indirect and the ranged strategies compute the same value.
pub proof fn lemma_indirect_agrees_with_range(xs: Seq<u32>, lo: usize, hi: usize)
    requires
        lo <= hi <= xs.len(),
    ensures
        forall|k: int| 0 <= k < positions(lo, hi).len() ==> positions(lo, hi)[k] < xs.len(),
        wrapping_sum(gather(xs, positions(lo, hi))) == wrapping_sum(xs.subrange(lo as int, hi as int)),
        wrapping_fold(xs.subrange(lo as int, hi as int)) == wrapping_sum(xs.subrange(lo as int, hi as int)),
{
    assert(gather(xs, positions(lo, hi)) =~= xs.subrange(lo as int, hi as int));
    lemma_fold_is_wrapping_sum(xs.subrange(lo as int, hi as int));
}

/// An empty range, or an empty index array, sums to zero.
pub proof fn lemma_empty_sums_to_zero(xs: Seq<u32>, lo: usize)
    requires
        lo <= xs.len(),
    ensures
        wrapping_sum(xs.subrange(lo as int, lo as int)) == 0,
        wrapping_sum(gather(xs, Seq::<usize>::empty())) == 0,
{
    assert(seq_sum(xs.subrange(lo as int, lo as int)) == 0);
    assert(seq_sum(gather(xs, Seq::<usize>::empty())) == 0);
    assert(0int % modulus() == 0);
}

/// The wrapping sum is the exact sum reduced modulo 2^32, so a sum that
/// exceeds `u32::MAX` wraps instead of saturating.
pub proof fn lemma_wrapping_sum_is_exact_sum_mod(s: Seq<u32>)
    ensures
        wrapping_sum(s) as int == seq_sum(s) % modulus(),
        seq_sum(s) < modulus() ==> wrapping_sum(s) as int == seq_sum(s),
{
    lemma_seq_sum_nonnegative(s);
    let t = seq_sum(s);
    assert(0 <= t % modulus() < modulus());
    if t < modulus() {
        vstd::arithmetic::div_mod::lemma_small_mod(t as nat, modulus() as nat);
    }
}

proof fn lemma_seq_sum_nonnegative(s: Seq<u32>)
    ensures
        seq_sum(s) >= 0,
    decreases s.len(),
{
    if s.len() > 0 {
        lemma_seq_sum_nonnegative(s.drop_last());
    }
}

} // verus!
