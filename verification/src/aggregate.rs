//! Putting the rows of a run in the order in which they are shown.

use crate::classify::{SiteResult, SiteRow};
use vstd::prelude::*;

verus! {

/// The content of each row, in the same order.
pub open spec fn rows_of(results: Seq<SiteResult>) -> Seq<SiteRow> {
    results.map_values(|result: SiteResult| result@)
}

/// Whether the day counts never fall from one row to a later one.
pub open spec fn ascending(rows: Seq<SiteRow>) -> bool {
    forall|i: int, j: int| 0 <= i <= j < rows.len() ==> rows[i].days_left <= rows[j].days_left
}

/// The rows with the given day count, in the order in which `rows` has them.
pub open spec fn with_days_left(rows: Seq<SiteRow>, days: int) -> Seq<SiteRow> {
    rows.filter(|row: SiteRow| row.days_left == days)
}

/// Whether `sorted` is `rows` put in ascending order of day count, rows with
/// equal counts keeping the order they had.
pub open spec fn is_stable_order(rows: Seq<SiteRow>, sorted: Seq<SiteRow>) -> bool {
    &&& ascending(sorted)
    &&& forall|days: int| #[trigger] with_days_left(sorted, days) == with_days_left(rows, days)
}

/// A row alone is kept or dropped by its day count.
proof fn lemma_single(row: SiteRow, days: int)
    ensures
        with_days_left(seq![row], days) == if row.days_left == days {
            seq![row]
        } else {
            Seq::<SiteRow>::empty()
        },
{
    reveal_with_fuel(Seq::filter, 2);
    let one = seq![row];
    assert(one.drop_last() =~= Seq::<SiteRow>::empty());
    assert(one.last() == row);
}

/// Rows that all have another day count leave nothing.
proof fn lemma_none(rows: Seq<SiteRow>, days: int)
    requires
        forall|i: int| 0 <= i < rows.len() ==> rows[i].days_left != days,
    ensures
        with_days_left(rows, days) == Seq::<SiteRow>::empty(),
{
    rows.lemma_all_neg_filter_empty(|row: SiteRow| row.days_left == days);
}

/// Selecting by day count goes through concatenation.
proof fn lemma_split(left: Seq<SiteRow>, right: Seq<SiteRow>, days: int)
    ensures
        with_days_left(left + right, days) == with_days_left(left, days) + with_days_left(
            right,
            days,
        ),
{
    Seq::filter_distributes_over_add(left, right, |row: SiteRow| row.days_left == days);
}

/// A row put in front of all rows that are not smaller becomes the first of
/// those with its day count and leaves the others as they were.
proof fn lemma_insert(rows: Seq<SiteRow>, at: int, row: SiteRow, days: int)
    requires
        0 <= at <= rows.len(),
        forall|i: int| 0 <= i < at ==> rows[i].days_left < row.days_left,
    ensures
        with_days_left(rows.insert(at, row), days) == with_days_left(seq![row], days)
            + with_days_left(rows, days),
{
    let left = rows.take(at);
    let right = rows.skip(at);
    assert(rows =~= left + right);
    assert(rows.insert(at, row) =~= (left + seq![row]) + right);
    lemma_split(left, right, days);
    lemma_split(left + seq![row], right, days);
    lemma_split(left, seq![row], days);
    lemma_single(row, days);
    if row.days_left == days {
        lemma_none(left, days);
    }
}

/// Where a row with the given day count goes: after every row with a smaller
/// count and before all others.
fn insertion_point(sorted: &Vec<SiteResult>, days: i64) -> (at: usize)
    ensures
        at <= sorted.len(),
        forall|i: int| 0 <= i < at ==> sorted[i].days_left < days,
        at < sorted.len() ==> days <= sorted[at as int].days_left,
{
    let mut at: usize = 0;
    while at < sorted.len() && sorted[at].days_left < days
        invariant
            at <= sorted.len(),
            forall|i: int| 0 <= i < at ==> sorted[i].days_left < days,
        decreases sorted.len() - at,
    {
        at = at + 1;
    }
    at
}

/// Sorts the rows of a run by the days their certificates have left, fewest
/// first. Rows with the same count keep their order; every row is kept and
/// none is added.
pub fn aggregate(results: Vec<SiteResult>) -> (sorted: Vec<SiteResult>)
    ensures
        is_stable_order(rows_of(results@), rows_of(sorted@)),
        rows_of(sorted@).to_multiset() == rows_of(results@).to_multiset(),
        sorted.len() == results.len(),
{
    let ghost all = rows_of(results@);
    let mut pending = results;
    let mut sorted: Vec<SiteResult> = Vec::new();
    proof {
        assert(all.skip(all.len() as int) =~= rows_of(sorted@));
    }
    while pending.len() > 0
        invariant
            all == rows_of(results@),
            pending@ == results@.take(pending.len() as int),
            pending.len() <= results.len(),
            ascending(rows_of(sorted@)),
            forall|days: int| #[trigger]
                with_days_left(rows_of(sorted@), days) == with_days_left(
                    all.skip(pending.len() as int),
                    days,
                ),
            rows_of(sorted@).to_multiset() == all.skip(pending.len() as int).to_multiset(),
            sorted.len() + pending.len() == results.len(),
        decreases pending.len(),
    {
        let ghost before = rows_of(sorted@);
        let ghost seen = all.skip(pending.len() as int);
        let result = pending.pop().unwrap();
        let ghost row = result@;
        let at = insertion_point(&sorted, result.days_left);
        sorted.insert(at, result);
        proof {
            let after = rows_of(sorted@);
            let now_seen = all.skip(pending.len() as int);
            assert(after =~= before.insert(at as int, row));
            assert(now_seen =~= seen.insert(0, row));
            assert(now_seen =~= seq![row] + seen);
            assert(pending@ =~= results@.take(pending.len() as int));
            vstd::seq_lib::to_multiset_insert(before, at as int, row);
            vstd::seq_lib::to_multiset_insert(seen, 0, row);
            assert forall|days: int| #[trigger]
                with_days_left(after, days) == with_days_left(now_seen, days) by {
                lemma_insert(before, at as int, row, days);
                lemma_split(seq![row], seen, days);
            }
            assert forall|i: int, j: int| 0 <= i <= j < after.len() implies after[i].days_left
                <= after[j].days_left by {
                // the rows before `at` are smaller than the new one, those after it are not
                if j < at {
                    assert(before[i].days_left <= before[j].days_left);
                }
            }
        }
    }
    proof {
        assert(all.skip(0) =~= all);
    }
    sorted
}

/// The last row is the last of those with its day count, and is missing
/// from the others.
proof fn lemma_last(rows: Seq<SiteRow>, days: int)
    requires
        rows.len() > 0,
    ensures
        with_days_left(rows, days) == if rows.last().days_left == days {
            with_days_left(rows.drop_last(), days).push(rows.last())
        } else {
            with_days_left(rows.drop_last(), days)
        },
{
    reveal(Seq::filter);
}

/// Two ascending sequences that agree on the rows of every day count, order
/// included, are the same sequence.
proof fn lemma_same_selections(a: Seq<SiteRow>, b: Seq<SiteRow>)
    requires
        ascending(a),
        ascending(b),
        forall|days: int| #[trigger] with_days_left(a, days) == with_days_left(b, days),
    ensures
        a == b,
    decreases a.len(),
{
    if a.len() == 0 || b.len() == 0 {
        // A row of either would be among the rows of its count in the other.
        if a.len() > 0 {
            lemma_last(a, a.last().days_left as int);
            lemma_none(b, a.last().days_left as int);
            assert(with_days_left(a, a.last().days_left as int) == with_days_left(
                b,
                a.last().days_left as int,
            ));
        }
        if b.len() > 0 {
            lemma_last(b, b.last().days_left as int);
            lemma_none(a, b.last().days_left as int);
            assert(with_days_left(a, b.last().days_left as int) == with_days_left(
                b,
                b.last().days_left as int,
            ));
        }
        assert(a =~= b);
    } else {
        let x = a.last();
        let y = b.last();
        let k = x.days_left as int;
        let l = y.days_left as int;
        lemma_last(a, k);
        lemma_last(b, l);
        // Each last row is among the rows of its count in the other sequence
        // too, so neither count is the larger: the two are one count.
        b.lemma_filter_contains_rev(|row: SiteRow| row.days_left == k, x);
        assert(with_days_left(a, l).contains(y));
        a.lemma_filter_contains_rev(|row: SiteRow| row.days_left == l, y);
        let i = choose|i: int| 0 <= i < b.len() && b[i] == x;
        assert(b[i].days_left <= b[b.len() - 1].days_left);
        // The rows of that count end with the same row in both, which is
        // therefore the last row of both.
        let short = with_days_left(b.drop_last(), k);
        assert(short.push(y).last() == y);
        assert(short.push(y).drop_last() =~= short);
        // Without their last row the two still agree on every count.
        assert forall|days: int| #[trigger]
            with_days_left(a.drop_last(), days) == with_days_left(b.drop_last(), days) by {
            lemma_last(a, days);
            lemma_last(b, days);
        }
        lemma_same_selections(a.drop_last(), b.drop_last());
        assert(b =~= b.drop_last().push(y));
    }
}

/// The order that [`aggregate`] promises is the only one: two sequences that
/// both are `rows` in stable ascending order are equal, row for row.
pub proof fn lemma_stable_order_is_unique(
    rows: Seq<SiteRow>,
    first: Seq<SiteRow>,
    second: Seq<SiteRow>,
)
    requires
        is_stable_order(rows, first),
        is_stable_order(rows, second),
    ensures
        first == second,
{
    lemma_same_selections(first, second);
}

/// In ascending order, hosts that could not be read come after all others:
/// once an error row is met, only error rows follow.
pub proof fn lemma_errors_come_last(sorted: Seq<SiteRow>, i: int, j: int)
    requires
        ascending(sorted),
        forall|k: int| 0 <= k < sorted.len() ==> (#[trigger] sorted[k]).well_formed(),
        0 <= i <= j < sorted.len(),
        sorted[i].status is Error,
    ensures
        sorted[j].status is Error,
{
}

} // verus!
