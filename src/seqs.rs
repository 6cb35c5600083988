use vstd::prelude::*;

verus! {

/// Sum of a sequence of small counters.
pub open spec fn sum_u8(s: Seq<u8>) -> int
    decreases s.len(),
{
    if s.len() == 0 {
        0
    } else {
        sum_u8(s.drop_last()) + s.last() as int
    }
}

pub proof fn lemma_sum_u8_update(s: Seq<u8>, i: int, v: u8)
    requires
        0 <= i < s.len(),
    ensures
        sum_u8(s.update(i, v)) == sum_u8(s) - s[i] as int + v as int,
    decreases s.len(),
{
    let t = s.update(i, v);
    if i == s.len() - 1 {
        assert(t.drop_last() =~= s.drop_last());
    } else {
        assert(t.drop_last() =~= s.drop_last().update(i, v));
        lemma_sum_u8_update(s.drop_last(), i, v);
    }
}

pub proof fn lemma_sum_u8_bounds(s: Seq<u8>, i: int)
    requires
        0 <= i < s.len(),
    ensures
        s[i] as int <= sum_u8(s),
        0 <= sum_u8(s),
    decreases s.len(),
{
    lemma_sum_u8_nonneg(s.drop_last());
    if i < s.len() - 1 {
        lemma_sum_u8_bounds(s.drop_last(), i);
    }
}

pub proof fn lemma_sum_u8_nonneg(s: Seq<u8>)
    ensures
        0 <= sum_u8(s),
    decreases s.len(),
{
    if s.len() > 0 {
        lemma_sum_u8_nonneg(s.drop_last());
    }
}

} // verus!
