//! Facts about numbered rows on which the laws rest.
use vstd::prelude::*;
use vstd::relations::injective_on;
use vstd::set_lib::*;
use crate::tables::{group_of, in_group, numbering, within, Row};
use crate::value::{Cell, Column};

verus! {

/// The places of the rows that pass.
pub open spec fn places(rows: Seq<Row>, p: spec_fn(Row) -> bool) -> Set<int> {
    Set::new(|i: int| 0 <= i < rows.len() && p(rows[i]))
}

/// The places of the rows that pass and have a number of at most `keep`.
pub open spec fn low_places(
    rows: Seq<Row>,
    rn: Seq<int>,
    keep: int,
    p: spec_fn(Row) -> bool,
) -> Set<int> {
    Set::new(|i: int| 0 <= i < rows.len() && rn[i] <= keep && p(rows[i]))
}

/// As many rows pass as there are places.
pub(crate) proof fn lemma_places(rows: Seq<Row>, p: spec_fn(Row) -> bool)
    ensures
        places(rows, p).finite(),
        places(rows, p).len() == rows.filter(p).len(),
    decreases rows.len(),
{
    reveal(Seq::filter);
    if rows.len() == 0 {
        assert(places(rows, p) =~= Set::empty());
    } else {
        let rest = rows.drop_last();
        lemma_places(rest, p);
        if p(rows.last()) {
            assert(places(rows, p) =~= places(rest, p).insert(rows.len() - 1));
        } else {
            assert(places(rows, p) =~= places(rest, p));
        }
    }
}

/// As many of the rows with low numbers pass as there are places.
pub(crate) proof fn lemma_low_places(
    rows: Seq<Row>,
    rn: Seq<int>,
    keep: int,
    p: spec_fn(Row) -> bool,
)
    requires
        rn.len() == rows.len(),
    ensures
        low_places(rows, rn, keep, p).finite(),
        low_places(rows, rn, keep, p).len() == within(rows, rn, keep).filter(p).len(),
    decreases rows.len(),
{
    reveal(Seq::filter);
    if rows.len() == 0 {
        assert(low_places(rows, rn, keep, p) =~= Set::empty());
    } else {
        let rest = rows.drop_last();
        let rest_rn = rn.drop_last();
        let head = within(rest, rest_rn, keep);
        lemma_low_places(rest, rest_rn, keep, p);
        if rn.last() <= keep {
            assert(within(rows, rn, keep).drop_last() =~= head);
        }
        if rn.last() <= keep && p(rows.last()) {
            assert(low_places(rows, rn, keep, p) =~= low_places(rest, rest_rn, keep, p).insert(
                rows.len() - 1,
            ));
        } else {
            assert(low_places(rows, rn, keep, p) =~= low_places(rest, rest_rn, keep, p));
        }
    }
}

/// Of each group, the rows with low numbers are as many as the numbers.
pub(crate) proof fn lemma_group_within(
    rows: Seq<Row>,
    group: Column,
    newest_by: Column,
    rn: Seq<int>,
    keep: int,
    cell: Cell,
)
    requires
        numbering(rows, group, newest_by, rn),
    ensures
        group_of(within(rows, rn, keep), group, cell).len() == if keep <= 0 {
            0
        } else if keep <= group_of(rows, group, cell).len() {
            keep
        } else {
            group_of(rows, group, cell).len() as int
        },
{
    let p = in_group(group, cell);
    let n = group_of(rows, group, cell).len() as int;
    let f = |i: int| rn[i];
    let all = places(rows, p);
    let low = low_places(rows, rn, keep, p);
    lemma_places(rows, p);
    lemma_low_places(rows, rn, keep, p);
    lemma_int_range(1, n + 1);
    assert(injective_on(f, all)) by {
        assert forall|i: int, j: int|
            all.contains(i) && all.contains(j) && #[trigger] f(i) == #[trigger] f(j) implies i
            == j by {
            if i != j {
                assert(rn[i] != rn[j]);
            }
        }
    }
    // The numbers of the group are those from one up to its size.
    assert(all.map(f).subset_of(set_int_range(1, n + 1))) by {
        assert forall|k: int| all.map(f).contains(k) implies set_int_range(1, n + 1).contains(
            k,
        ) by {
            let i = choose|i: int| all.contains(i) && f(i) == k;
            assert(1 <= rn[i] <= n);
        }
    }
    lemma_map_size(all, all.map(f), f);
    lemma_subset_equality(all.map(f), set_int_range(1, n + 1));
    // The low numbers of the group are those from one up to the limit.
    let top = if keep <= 0 {
        0
    } else if keep <= n {
        keep
    } else {
        n
    };
    lemma_int_range(1, top + 1);
    assert(low.subset_of(all));
    vstd::relations::lemma_injective_on_subset(f, low, all);
    assert(low.map(f) =~= set_int_range(1, top + 1)) by {
        assert forall|k: int| low.map(f).contains(k) implies set_int_range(1, top + 1).contains(
            k,
        ) by {
            let i = choose|i: int| low.contains(i) && f(i) == k;
            assert(1 <= rn[i] <= n);
        }
        assert forall|k: int| set_int_range(1, top + 1).contains(k) implies low.map(f).contains(
            k,
        ) by {
            assert(set_int_range(1, n + 1).contains(k));
            assert(all.map(f).contains(k));
            let i = choose|i: int| all.contains(i) && f(i) == k;
            assert(low.contains(i));
            assert(f(i) == k);
        }
    }
    lemma_map_size(low, low.map(f), f);
}

/// The places, in order, of the rows with low numbers.
pub open spec fn kept_places(rn: Seq<int>, keep: int) -> Seq<int>
    decreases rn.len(),
{
    if rn.len() == 0 {
        Seq::empty()
    } else if rn.last() <= keep {
        kept_places(rn.drop_last(), keep).push(rn.len() - 1)
    } else {
        kept_places(rn.drop_last(), keep)
    }
}

/// The rows with low numbers stand at their places, in order.
pub(crate) proof fn lemma_kept_places(rows: Seq<Row>, rn: Seq<int>, keep: int)
    requires
        rn.len() == rows.len(),
    ensures
        ({
            let at = kept_places(rn, keep);
            let kept = within(rows, rn, keep);
            &&& at.len() == kept.len()
            &&& forall|i: int|
                0 <= i < at.len() ==> 0 <= #[trigger] at[i] < rows.len() && rn[at[i]] <= keep
                    && kept[i] == rows[at[i]]
            &&& forall|i: int, j: int| 0 <= i < j < at.len() ==> #[trigger] at[i] < #[trigger] at[j]
            &&& forall|k: int|
                0 <= k < rows.len() && rn[k] <= keep ==> #[trigger] at.contains(k)
        }),
    decreases rows.len(),
{
    if rows.len() > 0 {
        lemma_kept_places(rows.drop_last(), rn.drop_last(), keep);
        let at = kept_places(rn, keep);
        let head = kept_places(rn.drop_last(), keep);
        assert forall|k: int| 0 <= k < rows.len() && rn[k] <= keep implies #[trigger] at.contains(
            k,
        ) by {
            if k < rows.len() - 1 {
                assert(head.contains(k));
                let i = choose|i: int| 0 <= i < head.len() && head[i] == k;
                assert(at[i] == k);
            } else {
                assert(at[at.len() - 1] == k);
            }
        }
        assert forall|i: int| 0 <= i < at.len() implies 0 <= #[trigger] at[i] < rows.len()
            && rn[at[i]] <= keep && within(rows, rn, keep)[i] == rows[at[i]] by {
            if i < head.len() {
                assert(at[i] == head[i]);
            }
        }
    }
}

/// Where all numbers are low, all rows are kept.
pub(crate) proof fn lemma_within_all(rows: Seq<Row>, rn: Seq<int>, keep: int)
    requires
        rn.len() == rows.len(),
        forall|i: int| 0 <= i < rn.len() ==> #[trigger] rn[i] <= keep,
    ensures
        within(rows, rn, keep) == rows,
    decreases rows.len(),
{
    if rows.len() > 0 {
        lemma_within_all(rows.drop_last(), rn.drop_last(), keep);
        assert(rn[rn.len() - 1] <= keep);
        assert(rows.drop_last().push(rows.last()) =~= rows);
    }
}

/// Of a group whose numbers are all low, all rows are kept.
pub(crate) proof fn lemma_within_group(
    rows: Seq<Row>,
    rn: Seq<int>,
    keep: int,
    group: Column,
    cell: Cell,
)
    requires
        rn.len() == rows.len(),
        forall|i: int| 0 <= i < rn.len() && rows[i][group] == cell ==> #[trigger] rn[i] <= keep,
    ensures
        group_of(within(rows, rn, keep), group, cell) == group_of(rows, group, cell),
    decreases rows.len(),
{
    reveal(Seq::filter);
    if rows.len() > 0 {
        let rest = rows.drop_last();
        let head = within(rest, rn.drop_last(), keep);
        assert forall|i: int|
            0 <= i < rn.drop_last().len() && rest[i][group]
                == cell implies #[trigger] rn.drop_last()[i] <= keep by {
            assert(rn[i] <= keep);
        }
        lemma_within_group(rest, rn.drop_last(), keep, group, cell);
        if rows.last()[group] == cell {
            assert(rn[rn.len() - 1] <= keep);
        }
        if rn.last() <= keep {
            assert(within(rows, rn, keep).drop_last() =~= head);
        }
    }
}

} // verus!
