//! A whole run: from the ends of the units to the rows in display order.

use crate::aggregate::{aggregate, is_stable_order, lemma_errors_come_last, rows_of};
use crate::classify::{classified, classify, expiry_date, SiteResult, SiteRow};
use crate::outcome::FetchOutcome;
use crate::schedule::{Batch, BatchView};
use vstd::prelude::*;

verus! {

/// The row of each host of a finished run, in the order the hosts were
/// given: host number `unit` is classified by the outcome it ended with.
pub open spec fn rows_in_order(batch: BatchView, now: int) -> Seq<SiteRow> {
    Seq::new(
        batch.domains.len(),
        |unit: int|
            classified(
                batch.domains[unit],
                batch.outcome(unit),
                now,
                expiry_date(batch.outcome(unit)),
            ),
    )
}

/// The host of each row, in the same order.
pub open spec fn domains_of(rows: Seq<SiteRow>) -> Seq<Seq<char>> {
    rows.map_values(|row: SiteRow| row.domain)
}

/// Classifies every host of a finished run at the instant `now`, keeping the
/// order of the hosts.
pub fn classify_all(probed: Vec<(String, FetchOutcome)>, now: i64) -> (results: Vec<SiteResult>)
    ensures
        results.len() == probed.len(),
        forall|unit: int|
            0 <= unit < results.len() ==> (#[trigger] results[unit])@ == classified(
                probed[unit].0@,
                probed[unit].1@,
                now as int,
                expiry_date(probed[unit].1@),
            ),
        forall|unit: int| 0 <= unit < results.len() ==> (#[trigger] results[unit])@.well_formed(),
{
    let ghost all = probed@;
    let mut results: Vec<SiteResult> = Vec::new();
    for pair in it: probed
        invariant
            it.seq() == all,
            results.len() == it.index(),
            forall|unit: int|
                0 <= unit < results.len() ==> (#[trigger] results[unit])@ == classified(
                    all[unit].0@,
                    all[unit].1@,
                    now as int,
                    expiry_date(all[unit].1@),
                ),
            forall|unit: int|
                0 <= unit < results.len() ==> (#[trigger] results[unit])@.well_formed(),
    {
        let (domain, outcome) = pair;
        let result = classify(domain, &outcome, now);
        results.push(result);
    }
    results
}

/// Sequences with the same elements, each as often, have the same members.
proof fn lemma_same_members<A>(a: Seq<A>, b: Seq<A>, x: A)
    requires
        a.to_multiset() == b.to_multiset(),
    ensures
        a.contains(x) <==> b.contains(x),
{
    vstd::seq_lib::to_multiset_contains(a, x);
    vstd::seq_lib::to_multiset_contains(b, x);
}

/// Applying a function to every element keeps two sequences permutations of
/// each other.
proof fn lemma_map_keeps_multiset<A, B>(a: Seq<A>, b: Seq<A>, f: spec_fn(A) -> B)
    requires
        a.to_multiset() == b.to_multiset(),
    ensures
        a.map_values(f).to_multiset() == b.map_values(f).to_multiset(),
    decreases a.len(),
{
    vstd::seq_lib::to_multiset_len(a);
    vstd::seq_lib::to_multiset_len(b);
    if a.len() == 0 {
        assert(a.map_values(f) =~= b.map_values(f));
    } else {
        let x = a.last();
        let front = a.drop_last();
        assert(a =~= front.push(x));
        vstd::seq_lib::to_multiset_build(front, x);
        lemma_same_members(a, b, x);
        let j = choose|j: int| 0 <= j < b.len() && b[j] == x;
        let others = b.remove(j);
        vstd::seq_lib::to_multiset_remove(b, j);
        assert(others.to_multiset() =~= front.to_multiset());
        lemma_map_keeps_multiset(front, others, f);
        assert(a.map_values(f) =~= front.map_values(f).push(f(x)));
        vstd::seq_lib::to_multiset_build(front.map_values(f), f(x));
        assert(others.map_values(f) =~= b.map_values(f).remove(j));
        vstd::seq_lib::to_multiset_remove(b.map_values(f), j);
        vstd::seq_lib::to_multiset_contains(b.map_values(f), f(x));
    }
}

/// Ends a run at the instant `now` and returns its rows in display order:
/// one row for every host, the certificate with the fewest days left first,
/// hosts with equal counts in the order they were given, and hosts that
/// could not be read after all others.
pub fn report(batch: Batch, now: i64) -> (rows: Vec<SiteResult>)
    requires
        batch.well_formed(),
    ensures
        is_stable_order(rows_in_order(batch@, now as int), rows_of(rows@)),
        rows_of(rows@).to_multiset() == rows_in_order(batch@, now as int).to_multiset(),
        rows.len() == batch@.domains.len(),
        domains_of(rows_of(rows@)).to_multiset() == batch@.domains.to_multiset(),
        forall|k: int| 0 <= k < rows.len() ==> (#[trigger] rows[k])@.well_formed(),
        forall|i: int, j: int|
            0 <= i <= j < rows.len() && rows[i].status is Error ==> rows[j].status is Error,
{
    let ghost model = batch@;
    let probed = batch.finish();
    let results = classify_all(probed, now);
    proof {
        assert(rows_of(results@) =~= rows_in_order(model, now as int));
    }
    let rows = aggregate(results);
    proof {
        lemma_one_row_per_host(model, now as int, rows_of(rows@));
        assert forall|k: int| 0 <= k < rows.len() implies (#[trigger] rows[k])@.well_formed() by {
            // the row is one of those that were classified
            assert(rows_of(rows@)[k] == rows[k]@);
            lemma_same_members(rows_of(rows@), rows_of(results@), rows[k]@);
        }
        assert forall|i: int, j: int|
            0 <= i <= j < rows.len() && rows[i].status is Error implies rows[j].status is Error by {
            lemma_errors_come_last(rows_of(rows@), i, j);
        }
    }
    rows
}

/// A run yields exactly one row for every host it was given: as many rows as
/// hosts, and each host as often among the rows as among the hosts. This
/// holds of any arrangement of the rows, the displayed one included.
pub proof fn lemma_one_row_per_host(batch: BatchView, now: int, rows: Seq<SiteRow>)
    requires
        rows.to_multiset() == rows_in_order(batch, now).to_multiset(),
    ensures
        rows.len() == batch.domains.len(),
        domains_of(rows).to_multiset() == batch.domains.to_multiset(),
{
    let unsorted = rows_in_order(batch, now);
    vstd::seq_lib::to_multiset_len(rows);
    vstd::seq_lib::to_multiset_len(unsorted);
    lemma_map_keeps_multiset(rows, unsorted, |row: SiteRow| row.domain);
    assert(domains_of(unsorted) =~= batch.domains);
}

} // verus!
