//! Selecting rows of a table: those that meet a condition, each turned into
//! a value, in table order.
use vstd::prelude::*;

verus! {

/// The rows that meet `keep`, each mapped by `pick`, in order.
pub open spec fn select<T, U>(rows: Seq<T>, keep: spec_fn(T) -> bool, pick: spec_fn(T) -> U) -> Seq<U> {
    rows.filter(keep).map_values(pick)
}

/// Nothing is selected from no rows.
pub proof fn lemma_select_none<T, U>(rows: Seq<T>, keep: spec_fn(T) -> bool, pick: spec_fn(T) -> U)
    ensures
        select(rows.take(0), keep, pick) == Seq::<U>::empty(),
        rows.take(0).filter(keep) == Seq::<T>::empty(),
        rows.take(rows.len() as int) == rows,
{
    assert(rows.take(0) =~= Seq::empty());
    assert(rows.take(0).filter(keep) =~= Seq::empty());
    assert(select(rows.take(0), keep, pick) =~= Seq::empty());
    assert(rows.take(rows.len() as int) =~= rows);
}

/// One more row is selected from if it meets the condition, and only then.
pub proof fn lemma_select_step<T, U>(
    rows: Seq<T>,
    i: int,
    keep: spec_fn(T) -> bool,
    pick: spec_fn(T) -> U,
)
    requires
        0 <= i < rows.len(),
    ensures
        rows.take(i + 1).filter(keep) == if keep(rows[i]) {
            rows.take(i).filter(keep).push(rows[i])
        } else {
            rows.take(i).filter(keep)
        },
        select(rows.take(i + 1), keep, pick) == if keep(rows[i]) {
            select(rows.take(i), keep, pick).push(pick(rows[i]))
        } else {
            select(rows.take(i), keep, pick)
        },
{
    assert(rows.take(i + 1) =~= rows.take(i).push(rows[i]));
    rows.take(i).lemma_filter_push(rows[i], keep);
    if keep(rows[i]) {
        assert(rows.take(i).filter(keep).push(rows[i]).map_values(pick) =~= rows.take(i).filter(
            keep,
        ).map_values(pick).push(pick(rows[i])));
    }
}

/// Where the rows that meet the condition stand together, from `lo` up to
/// `hi`, the first `n` rows that meet it are those of them among the first
/// `n`.
pub proof fn lemma_filter_block_upto<T>(
    rows: Seq<T>,
    keep: spec_fn(T) -> bool,
    lo: int,
    hi: int,
    n: int,
)
    requires
        0 <= lo <= hi <= rows.len(),
        0 <= n <= rows.len(),
        forall|i: int| 0 <= i < rows.len() ==> (keep(#[trigger] rows[i]) <==> lo <= i < hi),
    ensures
        rows.take(n).filter(keep) == rows.subrange(
            if n < lo {
                n
            } else {
                lo
            },
            if n < lo {
                n
            } else if n < hi {
                n
            } else {
                hi
            },
        ),
    decreases n,
{
    if n == 0 {
        assert(rows.take(0) =~= Seq::empty());
        assert(rows.take(0).filter(keep) =~= Seq::empty());
        assert(rows.subrange(0, 0) =~= Seq::empty());
    } else {
        lemma_filter_block_upto(rows, keep, lo, hi, n - 1);
        assert(rows.take(n) =~= rows.take(n - 1).push(rows[n - 1]));
        rows.take(n - 1).lemma_filter_push(rows[n - 1], keep);
        if n - 1 < lo {
            assert(rows.subrange(n - 1, n - 1) =~= rows.subrange(
                if n < lo {
                    n
                } else {
                    lo
                },
                if n < lo {
                    n
                } else {
                    lo
                },
            ));
        } else if n - 1 < hi {
            assert(rows.subrange(lo, n - 1).push(rows[n - 1]) =~= rows.subrange(lo, n));
        }
    }
}

/// Where the rows that meet the condition stand together, from `lo` up to
/// `hi`, they are what the condition keeps.
pub proof fn lemma_filter_block<T>(rows: Seq<T>, keep: spec_fn(T) -> bool, lo: int, hi: int)
    requires
        0 <= lo <= hi <= rows.len(),
        forall|i: int| 0 <= i < rows.len() ==> (keep(#[trigger] rows[i]) <==> lo <= i < hi),
    ensures
        rows.filter(keep) == rows.subrange(lo, hi),
{
    lemma_filter_block_upto(rows, keep, lo, hi, rows.len() as int);
    assert(rows.take(rows.len() as int) =~= rows);
    if rows.len() < lo {
    } else if rows.len() == lo {
        assert(rows.subrange(lo, lo) =~= rows.subrange(lo, hi));
    }
}

} // verus!
