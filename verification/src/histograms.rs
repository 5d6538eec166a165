//! Quantiles of sorted lists.
use vstd::prelude::*;
use crate::text;

verus! {

/// The place in a list of a quantile: quantiles are spread evenly from the first
/// item to the last.
pub open spec fn quantile_place(index: int, len: nat, limit: nat) -> int {
    index * (len - 1) / (limit - 1)
}

/// The quantiles of a list. A short list is all quantiles.
pub open spec fn quantiles(values: Seq<Seq<char>>, limit: nat) -> Seq<Seq<char>> {
    if values.len() <= limit {
        values
    } else if limit <= 1 {
        values.take(limit as int)
    } else {
        Seq::new(limit, |i: int| values[quantile_place(i, values.len(), limit)])
    }
}

proof fn lemma_quantile_place(index: int, len: nat, limit: nat)
    requires
        0 <= index < limit,
        2 <= limit < len,
    ensures
        0 <= quantile_place(index, len, limit) <= len - 1,
        0 <= index * (len - 1) <= (limit - 1) * (len - 1),
{
    let m = len - 1;
    let d = limit - 1;
    assert(0 <= index * m <= d * m) by (nonlinear_arith)
        requires
            0 <= index <= d,
            m >= 0,
    ;
    assert(0 <= (index * m) / d <= m) by (nonlinear_arith)
        requires
            0 <= index * m <= d * m,
            d >= 1,
            m >= 0,
    ;
}

/// The quantiles of a sorted list: at most so many, from the first item to the
/// last.
pub fn histogram_quantiles(values: &Vec<String>, limit: usize) -> (r: Vec<String>)
    requires
        limit * values@.len() <= usize::MAX,
    ensures
        text::views(r@) == quantiles(text::views(values@), limit as nat),
{
    let ghost all = text::views(values@);
    if values.len() <= limit {
        return text::copy_names(values);
    }
    let mut out: Vec<String> = Vec::new();
    if limit == 0 {
        assert(text::views(out@) =~= all.take(0));
        return out;
    }
    if limit == 1 {
        out.push(values[0].clone());
        assert(text::views(out@) =~= all.take(1));
        return out;
    }
    let mut i: usize = 0;
    while i < limit
        invariant
            i <= limit,
            2 <= limit < values@.len(),
            limit * values@.len() <= usize::MAX,
            all == text::views(values@),
            out@.len() == i,
            forall|k: int|
                0 <= k < i ==> (#[trigger] out@[k])@ == all[quantile_place(
                    k,
                    all.len(),
                    limit as nat,
                )],
        decreases limit - i,
    {
        proof {
            lemma_quantile_place(i as int, all.len(), limit as nat);
            let m = values@.len() - 1;
            assert((limit - 1) * m <= limit * values@.len()) by (nonlinear_arith)
                requires
                    limit >= 1,
                    m == values@.len() - 1,
                    m >= 0,
            ;
        }
        let source: usize = i * (values.len() - 1) / (limit - 1);
        assert(source == quantile_place(i as int, all.len(), limit as nat));
        assert(all[source as int] == values@[source as int]@);
        out.push(values[source].clone());
        i = i + 1;
    }
    assert(text::views(out@) =~= quantiles(all, limit as nat));
    out
}

/// The first and the last of the items are always quantiles.
pub proof fn law_quantile_ends(values: Seq<Seq<char>>, limit: nat)
    requires
        values.len() >= 2,
        limit >= 2,
    ensures
        quantiles(values, limit).len() >= 2,
        quantiles(values, limit)[0] == values[0],
        quantiles(values, limit).last() == values.last(),
{
    if values.len() > limit {
        let m = values.len() - 1;
        let d = limit - 1;
        assert((0 * m) / d == 0) by (nonlinear_arith)
            requires
                d >= 1,
        ;
        assert((d * m) / d == m) by (nonlinear_arith)
            requires
                d >= 1,
        ;
        assert(quantile_place(0, values.len(), limit) == 0);
        assert(quantile_place(limit - 1, values.len(), limit) == m);
    }
}

} // verus!
