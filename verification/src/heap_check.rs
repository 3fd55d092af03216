//! The heap self-check run at boot: a vector grown well past its first
//! capacity, then summed.
use vstd::prelude::*;

verus! {

/// The sum of a sequence of integers.
pub open spec fn seq_sum(s: Seq<i32>) -> int
    decreases s.len(),
{
    if s.len() == 0 {
        0
    } else {
        seq_sum(s.drop_last()) + s.last()
    }
}

/// The vector `0, 1, ..., n - 1` (empty when `n <= 0`), pushed one element
/// at a time.
pub fn ascending(n: i32) -> (v: Vec<i32>)
    ensures
        v@ == Seq::new(if n > 0 { n as nat } else { 0 }, |i: int| i as i32),
{
    let mut v: Vec<i32> = Vec::new();
    let mut i: i32 = 0;
    while i < n
        invariant
            0 <= i,
            n > 0 ==> i <= n,
            n <= 0 ==> i == 0,
            v@ == Seq::new(i as nat, |k: int| k as i32),
        decreases n - i,
    {
        v.push(i);
        i = i + 1;
    }
    assert(v@ =~= Seq::new(if n > 0 { n as nat } else { 0 }, |k: int| k as i32));
    v
}

/// The sum of `v`, added left to right; every running total must fit in an
/// `i32` (the addition panics on overflow).
pub fn sum(v: &Vec<i32>) -> (total: i32)
    requires
        forall|k: int|
            0 <= k <= v@.len() ==> i32::MIN <= #[trigger] seq_sum(v@.take(k)) <= i32::MAX,
    ensures
        total == seq_sum(v@),
{
    let mut total: i32 = 0;
    let mut k: usize = 0;
    assert(v@.take(0) =~= Seq::<i32>::empty());
    while k < v.len()
        invariant
            k <= v@.len(),
            total == seq_sum(v@.take(k as int)),
            forall|j: int|
                0 <= j <= v@.len() ==> i32::MIN <= #[trigger] seq_sum(v@.take(j)) <= i32::MAX,
        decreases v@.len() - k,
    {
        assert(v@.take(k as int + 1).drop_last() =~= v@.take(k as int));
        assert(seq_sum(v@.take(k as int + 1)) == seq_sum(v@.take(k as int)) + v@[k as int]);
        total = total + v[k];
        k = k + 1;
    }
    assert(v@.take(v@.len() as int) =~= v@);
    total
}

/// The sum of one element is that element, whatever its sign.
pub proof fn lemma_sum_single(x: i32)
    ensures
        seq_sum(seq![x]) == x,
{
    let s = seq![x];
    assert(s.drop_last() =~= Seq::<i32>::empty());
    assert(seq_sum(s.drop_last()) == 0);
    assert(s.last() == x);
    assert(seq_sum(s) == seq_sum(s.drop_last()) + s.last());
}

/// Sums add up over concatenation: the sum of `a + b` is the sum of `a`
/// plus the sum of `b`. With the single-element law this fixes the sum of
/// every sequence as the plain total of its elements.
pub proof fn lemma_sum_concat(a: Seq<i32>, b: Seq<i32>)
    ensures
        seq_sum(a + b) == seq_sum(a) + seq_sum(b),
    decreases b.len(),
{
    if b.len() == 0 {
        assert(a + b =~= a);
    } else {
        lemma_sum_concat(a, b.drop_last());
        assert((a + b).drop_last() =~= a + b.drop_last());
        assert((a + b).last() == b.last());
    }
}

/// `0 + 1 + ... + (n - 1) == n * (n - 1) / 2`.
pub proof fn lemma_ascending_sum(n: nat)
    requires
        n <= i32::MAX,
    ensures
        seq_sum(Seq::new(n, |i: int| i as i32)) == n * (n - 1) / 2,
    decreases n,
{
    if n > 0 {
        let s = Seq::new(n, |i: int| i as i32);
        assert(s.drop_last() =~= Seq::new((n - 1) as nat, |i: int| i as i32));
        lemma_ascending_sum((n - 1) as nat);
        let m = (n - 1) as nat;
        assert(seq_sum(s.drop_last()) == m * (m - 1) / 2);
        assert(m * (m - 1) / 2 == (n - 1) * (n - 2) / 2);
        assert(s.last() == n - 1);
        assert(seq_sum(s) == seq_sum(s.drop_last()) + s.last());
        assert(n * (n - 1) / 2 == (n - 1) * (n - 2) / 2 + (n - 1)) by (nonlinear_arith)
            requires
                n > 0,
        ;
        assert(seq_sum(s) == n * (n - 1) / 2);
    } else {
        assert(seq_sum(Seq::new(n, |i: int| i as i32)) == 0);
        assert(n * (n - 1) / 2 == 0);
    }
}

} // verus!
