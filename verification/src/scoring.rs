//! Combining the results of several blueprints into one score.

use vstd::prelude::*;

verus! {

/// The sum of `identifier * maximum` over the entries.
pub open spec fn quality_sum(entries: Seq<(usize, usize)>) -> nat
    decreases entries.len(),
{
    if entries.len() == 0 {
        0
    } else {
        quality_sum(entries.drop_last()) + (entries.last().0 as nat) * (entries.last().1 as nat)
    }
}

proof fn lemma_quality_sum_grows(entries: Seq<(usize, usize)>, k: int)
    requires
        0 <= k <= entries.len(),
    ensures
        quality_sum(entries.take(k)) <= quality_sum(entries),
    decreases entries.len() - k,
{
    if k < entries.len() {
        assert(entries.take(k + 1).drop_last() =~= entries.take(k));
        assert((entries[k].0 as nat) * (entries[k].1 as nat) >= 0) by (nonlinear_arith);
        lemma_quality_sum_grows(entries, k + 1);
    } else {
        assert(entries.take(k) =~= entries);
    }
}

/// Adds up the quality levels of `(identifier, maximum)` pairs. Gives `None`
/// where the sum does not fit in a `usize`.
pub fn sum_quality_levels(entries: &Vec<(usize, usize)>) -> (total: Option<usize>)
    ensures
        match total {
            Some(t) => t == quality_sum(entries@),
            None => quality_sum(entries@) > usize::MAX,
        },
{
    let mut total: usize = 0;
    let mut i: usize = 0;
    assert(entries@.take(0) =~= Seq::<(usize, usize)>::empty());
    while i < entries.len()
        invariant
            0 <= i <= entries.len(),
            total == quality_sum(entries@.take(i as int)),
        decreases entries.len() - i,
    {
        let identifier = entries[i].0;
        let maximum = entries[i].1;
        proof {
            assert(entries@.take(i + 1).drop_last() =~= entries@.take(i as int));
            assert(entries@.take(i + 1).last() == entries@[i as int]);
            lemma_quality_sum_grows(entries@, i + 1);
        }
        let next = match identifier.checked_mul(maximum) {
            Some(level) => total.checked_add(level),
            None => None,
        };
        match next {
            Some(sum) => {
                total = sum;
            },
            None => {
                return None;
            },
        }
        i = i + 1;
    }
    proof {
        assert(entries@.take(i as int) =~= entries@);
    }
    Some(total)
}

} // verus!
