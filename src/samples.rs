//! Small computations on numbers.

use vstd::prelude::*;
use crate::decimal::{push_signed_decimal, signed_decimal};

verus! {

/// The sum of twice each positive element.
pub open spec fn doubled_positive_sum(s: Seq<i32>) -> int
    decreases s.len(),
{
    if s.len() == 0 {
        0
    } else {
        doubled_positive_sum(s.drop_last()) + if s.last() > 0 {
            2 * s.last()
        } else {
            0
        }
    }
}

proof fn lemma_prefix_sum_bounded(s: Seq<i32>, i: int)
    requires
        0 <= i <= s.len(),
    ensures
        0 <= doubled_positive_sum(s.subrange(0, i)) <= doubled_positive_sum(s),
    decreases s.len() - i,
{
    if i < s.len() {
        lemma_prefix_sum_bounded(s, i + 1);
        assert(s.subrange(0, i + 1).drop_last() =~= s.subrange(0, i));
        lemma_sum_nonnegative(s.subrange(0, i));
    } else {
        assert(s.subrange(0, i) =~= s);
        lemma_sum_nonnegative(s);
    }
}

proof fn lemma_sum_nonnegative(s: Seq<i32>)
    ensures
        doubled_positive_sum(s) >= 0,
    decreases s.len(),
{
    if s.len() > 0 {
        lemma_sum_nonnegative(s.drop_last());
    }
}

/// Sums twice each positive number; the others count for nothing.
pub fn process_numbers(numbers: &[i32]) -> (r: i32)
    requires
        doubled_positive_sum(numbers@) <= i32::MAX,
    ensures
        r == doubled_positive_sum(numbers@),
{
    let mut acc: i32 = 0;
    let mut i: usize = 0;
    while i < numbers.len()
        invariant
            0 <= i <= numbers@.len(),
            doubled_positive_sum(numbers@) <= i32::MAX,
            acc == doubled_positive_sum(numbers@.subrange(0, i as int)),
        decreases numbers@.len() - i,
    {
        let n = numbers[i];
        proof {
            lemma_prefix_sum_bounded(numbers@, i as int);
            lemma_prefix_sum_bounded(numbers@, i + 1);
            assert(numbers@.subrange(0, i + 1).drop_last() =~= numbers@.subrange(0, i as int));
        }
        if n > 0 {
            acc = acc + n * 2;
        }
        i = i + 1;
    }
    assert(numbers@.subrange(0, i as int) =~= numbers@);
    acc
}

/// The text `a < b` or `a >= b`, with both numbers in decimal.
pub fn compare_and_display(a: i64, b: i64) -> (r: String)
    ensures
        r@ == signed_decimal(a as int) + (if a < b {
            " < "@
        } else {
            " >= "@
        }) + signed_decimal(b as int),
{
    let mut s = String::new();
    push_signed_decimal(&mut s, a);
    if a < b {
        s.append(" < ");
    } else {
        s.append(" >= ");
    }
    push_signed_decimal(&mut s, b);
    s
}

} // verus!
