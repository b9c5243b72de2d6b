//! Collecting exactly one outcome for every host of a run.
//!
//! Each host is probed by a unit of work of its own, raced against a timer.
//! The units run outside this crate; a [`Batch`] is where their ends are
//! written down. It keeps the first end reported for a unit, ignores what
//! arrives later for the same unit, and reads a unit that never reported as
//! timed out, so that a run always ends with one outcome per host.

use crate::outcome::{FetchOutcome, OutcomeView};
use vstd::prelude::*;

verus! {

/// How the unit of work for one host came to an end.
#[derive(Clone, Debug, PartialEq, Eq)]
pub enum UnitEnd {
    /// The fetch returned before the timer fired.
    Fetched(FetchOutcome),
    /// The timer fired first and the fetch was abandoned.
    Elapsed,
    /// The unit broke down by itself, whatever the host did.
    Crashed,
}

/// The outcome that an end stands for: a unit that gave no outcome of its
/// own leaves the host's state unknown.
pub open spec fn end_outcome(end: UnitEnd) -> OutcomeView {
    match end {
        UnitEnd::Fetched(outcome) => outcome@,
        UnitEnd::Elapsed => OutcomeView::TimedOut,
        UnitEnd::Crashed => OutcomeView::TimedOut,
    }
}

/// Turns the end of a unit into the outcome of its host.
pub fn outcome_of_end(end: UnitEnd) -> (outcome: FetchOutcome)
    ensures
        outcome@ == end_outcome(end),
{
    match end {
        UnitEnd::Fetched(outcome) => outcome,
        UnitEnd::Elapsed => FetchOutcome::TimedOut,
        UnitEnd::Crashed => FetchOutcome::TimedOut,
    }
}

/// The number of units that have not reported.
pub open spec fn count_waiting(outcomes: Seq<Option<OutcomeView>>) -> nat
    decreases outcomes.len(),
{
    if outcomes.len() == 0 {
        0
    } else {
        count_waiting(outcomes.drop_last()) + if outcomes.last() is None {
            1nat
        } else {
            0nat
        }
    }
}

/// The mathematical content of a [`Batch`]: the hosts in the order given, and
/// for each what its unit reported, if it did.
pub struct BatchView {
    pub domains: Seq<Seq<char>>,
    pub outcomes: Seq<Option<OutcomeView>>,
}

impl BatchView {
    /// The number of units that have not reported.
    pub open spec fn waiting(self) -> nat {
        count_waiting(self.outcomes)
    }

    /// Whether every unit has reported.
    pub open spec fn complete(self) -> bool {
        forall|unit: int| 0 <= unit < self.outcomes.len() ==> self.outcomes[unit] is Some
    }

    /// The outcome of a host when the run ends: what its unit reported, and
    /// timed out where it reported nothing.
    pub open spec fn outcome(self, unit: int) -> OutcomeView {
        match self.outcomes[unit] {
            Some(outcome) => outcome,
            None => OutcomeView::TimedOut,
        }
    }

    /// The batch after a unit reported: the first report of a unit is kept,
    /// a later one and one for a unit that does not exist change nothing.
    pub open spec fn recorded(self, unit: int, end: UnitEnd) -> BatchView {
        if 0 <= unit < self.outcomes.len() && self.outcomes[unit] is None {
            BatchView {
                domains: self.domains,
                outcomes: self.outcomes.update(unit, Some(end_outcome(end))),
            }
        } else {
            self
        }
    }
}

/// No unit waits exactly when all have reported.
pub proof fn lemma_waiting_none(outcomes: Seq<Option<OutcomeView>>)
    ensures
        count_waiting(outcomes) == 0 <==> forall|unit: int|
            0 <= unit < outcomes.len() ==> outcomes[unit] is Some,
    decreases outcomes.len(),
{
    if outcomes.len() > 0 {
        let front = outcomes.drop_last();
        lemma_waiting_none(front);
        if count_waiting(outcomes) == 0 {
            assert forall|unit: int| 0 <= unit < outcomes.len() implies outcomes[unit] is Some by {
                if unit < front.len() {
                    assert(front[unit] == outcomes[unit]);
                }
            }
        }
    }
}

/// A first report makes one unit less wait.
proof fn lemma_waiting_update(outcomes: Seq<Option<OutcomeView>>, unit: int, outcome: OutcomeView)
    requires
        0 <= unit < outcomes.len(),
        outcomes[unit] is None,
    ensures
        count_waiting(outcomes.update(unit, Some(outcome))) + 1 == count_waiting(outcomes),
    decreases outcomes.len(),
{
    let after = outcomes.update(unit, Some(outcome));
    if unit == outcomes.len() - 1 {
        assert(after.drop_last() =~= outcomes.drop_last());
    } else {
        lemma_waiting_update(outcomes.drop_last(), unit, outcome);
        assert(after.drop_last() =~= outcomes.drop_last().update(unit, Some(outcome)));
    }
}

/// The ends of the units of one run, as far as they are known.
pub struct Batch {
    domains: Vec<String>,
    outcomes: Vec<Option<FetchOutcome>>,
    waiting: usize,
}

impl View for Batch {
    type V = BatchView;

    closed spec fn view(&self) -> BatchView {
        BatchView {
            domains: self.domains.deep_view(),
            outcomes: Seq::new(
                self.outcomes.len() as nat,
                |unit: int|
                    match self.outcomes[unit] {
                        Some(outcome) => Some(outcome@),
                        None => None,
                    },
            ),
        }
    }
}

impl Batch {
    /// Whether the batch holds one slot per host and knows how many of them
    /// are empty.
    pub closed spec fn well_formed(&self) -> bool {
        &&& self.domains.len() == self.outcomes.len()
        &&& self.waiting == count_waiting(self@.outcomes)
    }

    /// Starts a run over `domains`: no unit has reported.
    pub fn new(domains: Vec<String>) -> (batch: Batch)
        ensures
            batch.well_formed(),
            batch@.domains == domains.deep_view(),
            batch@.outcomes.len() == domains.len(),
            forall|unit: int| 0 <= unit < domains.len() ==> batch@.outcomes[unit] is None,
            batch@.waiting() == domains.len(),
    {
        let mut outcomes: Vec<Option<FetchOutcome>> = Vec::new();
        let ghost mut slots: Seq<Option<OutcomeView>> = Seq::empty();
        while outcomes.len() < domains.len()
            invariant
                outcomes.len() <= domains.len(),
                slots.len() == outcomes.len(),
                forall|unit: int| 0 <= unit < outcomes.len() ==> outcomes[unit] is None,
                forall|unit: int| 0 <= unit < slots.len() ==> slots[unit] is None,
                count_waiting(slots) == slots.len(),
            decreases domains.len() - outcomes.len(),
        {
            outcomes.push(None);
            proof {
                assert(slots.push(None).drop_last() =~= slots);
                slots = slots.push(None);
            }
        }
        let waiting: usize = outcomes.len();
        let batch = Batch { domains, outcomes, waiting };
        proof {
            assert(batch@.outcomes =~= slots);
        }
        batch
    }

    /// The hosts of the run, in the order given.
    pub fn domains(&self) -> (domains: &Vec<String>)
        ensures
            domains.deep_view() == self@.domains,
    {
        &self.domains
    }

    /// The number of hosts of the run.
    pub fn len(&self) -> (hosts: usize)
        ensures
            hosts == self@.domains.len(),
    {
        self.domains.len()
    }

    /// The number of units that have not reported.
    pub fn waiting(&self) -> (units: usize)
        requires
            self.well_formed(),
        ensures
            units == self@.waiting(),
    {
        self.waiting
    }

    /// Whether every unit has reported.
    pub fn is_complete(&self) -> (done: bool)
        requires
            self.well_formed(),
        ensures
            done == self@.complete(),
    {
        proof {
            lemma_waiting_none(self@.outcomes);
        }
        self.waiting == 0
    }

    /// Writes down how the unit for host number `unit` ended and says
    /// whether this was the first word of that unit. What a unit reports
    /// after its first end is discarded, and so is a report for a unit that
    /// the run does not have.
    pub fn record(&mut self, unit: usize, end: UnitEnd) -> (first: bool)
        requires
            old(self).well_formed(),
        ensures
            final(self).well_formed(),
            final(self)@ == old(self)@.recorded(unit as int, end),
            first == (unit < old(self)@.outcomes.len() && old(self)@.outcomes[unit as int] is None),
            final(self)@.waiting() + (if first { 1nat } else { 0nat }) == old(self)@.waiting(),
    {
        if unit < self.outcomes.len() && self.outcomes[unit].is_none() {
            let ghost before = self@.outcomes;
            let outcome = outcome_of_end(end);
            proof {
                lemma_waiting_update(before, unit as int, outcome@);
            }
            self.outcomes.set(unit, Some(outcome));
            self.waiting = self.waiting - 1;
            proof {
                assert(self@.outcomes =~= before.update(unit as int, Some(end_outcome(end))));
            }
            true
        } else {
            false
        }
    }

    /// Ends the run: every host with its outcome, in the order the hosts
    /// were given. A host whose unit never reported is timed out.
    pub fn finish(self) -> (probed: Vec<(String, FetchOutcome)>)
        requires
            self.well_formed(),
        ensures
            probed.len() == self@.domains.len(),
            forall|unit: int|
                0 <= unit < probed.len() ==> (#[trigger] probed[unit]).0@ == self@.domains[unit]
                    && probed[unit].1@ == self@.outcome(unit),
    {
        let ghost model = self@;
        let mut domains = self.domains;
        let mut outcomes = self.outcomes;
        let hosts: usize = domains.len();
        let mut probed: Vec<(String, FetchOutcome)> = Vec::new();
        let mut unit: usize = 0;
        while unit < hosts
            invariant
                unit <= hosts,
                hosts == domains.len(),
                hosts == outcomes.len(),
                hosts == model.domains.len(),
                hosts == model.outcomes.len(),
                probed.len() == unit,
                forall|later: int|
                    unit <= later < hosts ==> domains[later]@ == model.domains[later],
                forall|later: int|
                    unit <= later < hosts ==> model.outcomes[later] == match outcomes[later] {
                        Some(outcome) => Some(outcome@),
                        None => None,
                    },
                forall|done: int|
                    0 <= done < unit ==> (#[trigger] probed[done]).0@ == model.domains[done]
                        && probed[done].1@ == model.outcome(done),
            decreases hosts - unit,
        {
            let mut domain = String::new();
            domains.set_and_swap(unit, &mut domain);
            let mut slot: Option<FetchOutcome> = None;
            outcomes.set_and_swap(unit, &mut slot);
            let outcome = match slot {
                Some(outcome) => outcome,
                None => FetchOutcome::TimedOut,
            };
            probed.push((domain, outcome));
            unit = unit + 1;
        }
        probed
    }
}

} // verus!
