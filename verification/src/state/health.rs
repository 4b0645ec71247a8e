//! What a task card says about itself in one line.
//!
//! The ladder is a precedence order, not a tally: a run that is going comes first, then anything
//! that needs the user, then anything failing, then anything that is only behind.

use crate::model::{Destination, DestinationSyncStatus, SyncOutcome, SyncTask};
use crate::text;
use crate::text::{concat2, concat3, decimal_text, owned, signed_decimal_text};
use std::collections::HashMap;
use vstd::prelude::*;

verus! {

/// The card's one-line summary.
#[derive(Debug, PartialEq, Eq)]
pub struct Health {
    /// Which colour and glyph the row takes.
    pub outcome: SyncOutcome,
    /// The sentence, already assembled.
    pub text: String,
}

/// How a destination's last run ended; one that has no status has not run.
pub open spec fn outcome_of(
    statuses: Map<u128, DestinationSyncStatus>,
    id: u128,
) -> SyncOutcome {
    if statuses.contains_key(id) {
        statuses[id].outcome
    } else {
        SyncOutcome::Never
    }
}

/// The outcomes of the destinations, in order.
pub open spec fn outcomes(
    destinations: Seq<Destination>,
    statuses: Map<u128, DestinationSyncStatus>,
) -> Seq<SyncOutcome> {
    Seq::new(destinations.len(), |i: int| outcome_of(statuses, destinations[i].id))
}

/// How often an outcome occurs.
pub open spec fn tally(outcomes: Seq<SyncOutcome>, wanted: SyncOutcome) -> nat
    decreases outcomes.len(),
{
    if outcomes.len() == 0 {
        0
    } else {
        tally(outcomes.drop_last(), wanted) + if outcomes.last() == wanted {
            1nat
        } else {
            0nat
        }
    }
}

/// The files in use, over every destination that has a status.
pub open spec fn in_use(
    destinations: Seq<Destination>,
    statuses: Map<u128, DestinationSyncStatus>,
) -> int
    decreases destinations.len(),
{
    if destinations.len() == 0 {
        0
    } else {
        in_use(destinations.drop_last(), statuses) + if statuses.contains_key(
            destinations.last().id,
        ) {
            statuses[destinations.last().id].files_deferred as int
        } else {
            0
        }
    }
}

/// The outcome the card takes: the first rung of the ladder that applies.
pub open spec fn card_outcome(outcomes: Seq<SyncOutcome>) -> SyncOutcome {
    if tally(outcomes, SyncOutcome::Running) > 0 {
        SyncOutcome::Running
    } else if tally(outcomes, SyncOutcome::NeedsConfirmation) > 0 {
        SyncOutcome::NeedsConfirmation
    } else if tally(outcomes, SyncOutcome::Failed) > 0 {
        SyncOutcome::Failed
    } else if tally(outcomes, SyncOutcome::Incomplete) > 0 {
        SyncOutcome::Incomplete
    } else if tally(outcomes, SyncOutcome::Success) > 0 {
        SyncOutcome::Success
    } else {
        SyncOutcome::Never
    }
}

/// The sentence the card says.
pub open spec fn card_text(
    destinations: Seq<Destination>,
    statuses: Map<u128, DestinationSyncStatus>,
) -> Seq<char> {
    let all = outcomes(destinations, statuses);
    if destinations.len() == 0 {
        "No destinations"@
    } else {
        match card_outcome(all) {
            SyncOutcome::Running => "Syncing…"@,
            SyncOutcome::NeedsConfirmation => "Needs confirmation"@,
            SyncOutcome::Failed => text::decimal(tally(all, SyncOutcome::Failed)) + " of "@
                + text::decimal(all.len()) + " failed"@,
            SyncOutcome::Incomplete => text::signed_decimal(in_use(destinations, statuses))
                + " in use"@,
            SyncOutcome::Success => if tally(all, SyncOutcome::Success) == all.len() {
                "All synced"@
            } else {
                "Partly synced"@
            },
            SyncOutcome::Never => "Never run"@,
        }
    }
}

/// An outcome occurs exactly when it is tallied.
pub proof fn lemma_tally(outcomes: Seq<SyncOutcome>, wanted: SyncOutcome)
    ensures
        tally(outcomes, wanted) <= outcomes.len(),
        tally(outcomes, wanted) > 0 <==> exists|i: int|
            0 <= i < outcomes.len() && #[trigger] outcomes[i] == wanted,
    decreases outcomes.len(),
{
    if outcomes.len() > 0 {
        let front = outcomes.drop_last();
        lemma_tally(front, wanted);
        assert(outcomes.last() == outcomes[outcomes.len() - 1]);
        if tally(outcomes, wanted) > 0 && outcomes.last() != wanted {
            let i = choose|i: int| 0 <= i < front.len() && #[trigger] front[i] == wanted;
            assert(outcomes[i] == wanted);
        }
        if exists|i: int| 0 <= i < outcomes.len() && #[trigger] outcomes[i] == wanted {
            let i = choose|i: int| 0 <= i < outcomes.len() && #[trigger] outcomes[i] == wanted;
            if i < front.len() {
                assert(front[i] == wanted);
            }
        }
    }
}

/// How much an outcome asks for the user's attention. The higher wins the card.
pub open spec fn urgency(outcome: SyncOutcome) -> int {
    match outcome {
        SyncOutcome::Never => 0,
        SyncOutcome::Success => 1,
        SyncOutcome::Incomplete => 2,
        SyncOutcome::Failed => 3,
        SyncOutcome::NeedsConfirmation => 4,
        SyncOutcome::Running => 5,
    }
}

/// A card takes the outcome of one of the destinations, and no destination's is more urgent.
pub proof fn law_the_most_urgent_outcome_wins_the_card(outcomes: Seq<SyncOutcome>)
    requires
        outcomes.len() > 0,
    ensures
        exists|i: int| 0 <= i < outcomes.len() && #[trigger] outcomes[i] == card_outcome(outcomes),
        forall|i: int|
            0 <= i < outcomes.len() ==> urgency(#[trigger] outcomes[i]) <= urgency(
                card_outcome(outcomes),
            ),
{
    lemma_tally(outcomes, SyncOutcome::Running);
    lemma_tally(outcomes, SyncOutcome::NeedsConfirmation);
    lemma_tally(outcomes, SyncOutcome::Failed);
    lemma_tally(outcomes, SyncOutcome::Incomplete);
    lemma_tally(outcomes, SyncOutcome::Success);
    if card_outcome(outcomes) is Never {
        assert(outcomes[0] == SyncOutcome::Never);
    }
}

/// How often an outcome occurs.
fn count_of(all: &Vec<SyncOutcome>, wanted: SyncOutcome) -> (r: usize)
    ensures
        r == tally(all@, wanted),
{
    let mut n: usize = 0;
    let mut i: usize = 0;
    proof {
        assert(all@.take(0) =~= Seq::empty());
    }
    while i < all.len()
        invariant
            i <= all@.len(),
            n <= i,
            n == tally(all@.take(i as int), wanted),
        decreases all@.len() - i,
    {
        proof {
            assert(all@.take(i + 1).drop_last() =~= all@.take(i as int));
        }
        if all[i] == wanted {
            n = n + 1;
        }
        i = i + 1;
    }
    proof {
        assert(all@.take(all@.len() as int) =~= all@);
    }
    n
}

/// The files in use, over every destination that has a status.
fn sum_in_use(
    destinations: &Vec<Destination>,
    statuses: &HashMap<u128, DestinationSyncStatus>,
) -> (r: i128)
    ensures
        r == in_use(destinations@, statuses@),
{
    broadcast use vstd::std_specs::hash::group_hash_axioms;

    let n: usize = destinations.len();
    let mut sum: i128 = 0;
    let mut i: usize = 0;
    proof {
        assert(destinations@.take(0) =~= Seq::empty());
    }
    while i < n
        invariant
            i <= n,
            n == destinations@.len(),
            sum == in_use(destinations@.take(i as int), statuses@),
            -0x8000_0000 * i <= sum <= 0x7fff_ffff * i,
        decreases destinations@.len() - i,
    {
        proof {
            assert(destinations@.take(i + 1).drop_last() =~= destinations@.take(i as int));
        }
        match statuses.get(&destinations[i].id) {
            Some(status) => {
                sum = sum + status.files_deferred as i128;
            },
            None => {},
        }
        i = i + 1;
    }
    proof {
        assert(destinations@.take(destinations@.len() as int) =~= destinations@);
    }
    sum
}

/// Summarises a task from its destinations' last outcomes.
pub fn health_of(
    task: &SyncTask,
    statuses: &HashMap<u128, DestinationSyncStatus>,
) -> (r: Health)
    ensures
        r.outcome == card_outcome(outcomes(task.destinations@, statuses@)),
        r.text@ == card_text(task.destinations@, statuses@),
{
    broadcast use vstd::std_specs::hash::group_hash_axioms;

    let ghost all_outcomes = outcomes(task.destinations@, statuses@);
    let mut all: Vec<SyncOutcome> = Vec::new();
    let mut i: usize = 0;
    while i < task.destinations.len()
        invariant
            i <= task.destinations@.len(),
            all_outcomes == outcomes(task.destinations@, statuses@),
            all@ == all_outcomes.take(i as int),
        decreases task.destinations@.len() - i,
    {
        let outcome = match statuses.get(&task.destinations[i].id) {
            Some(status) => status.outcome,
            None => SyncOutcome::Never,
        };
        proof {
            assert(all_outcomes.take(i + 1) =~= all_outcomes.take(i as int).push(outcome));
        }
        all.push(outcome);
        i = i + 1;
    }
    proof {
        assert(all_outcomes.take(task.destinations@.len() as int) =~= all_outcomes);
    }
    if task.destinations.len() == 0 {
        return Health { outcome: SyncOutcome::Never, text: owned("No destinations") };
    }
    let total: usize = all.len();
    // The ladder, worst first.
    if count_of(&all, SyncOutcome::Running) > 0 {
        return Health { outcome: SyncOutcome::Running, text: owned("Syncing…") };
    }
    if count_of(&all, SyncOutcome::NeedsConfirmation) > 0 {
        return Health {
            outcome: SyncOutcome::NeedsConfirmation,
            text: owned("Needs confirmation"),
        };
    }
    let failed: usize = count_of(&all, SyncOutcome::Failed);
    if failed > 0 {
        let front = concat3(
            decimal_text(failed as u128).as_str(),
            " of ",
            decimal_text(total as u128).as_str(),
        );
        return Health {
            outcome: SyncOutcome::Failed,
            text: concat2(front.as_str(), " failed"),
        };
    }
    if count_of(&all, SyncOutcome::Incomplete) > 0 {
        let sum = signed_decimal_text(sum_in_use(&task.destinations, statuses));
        return Health {
            outcome: SyncOutcome::Incomplete,
            text: concat2(sum.as_str(), " in use"),
        };
    }
    let synced: usize = count_of(&all, SyncOutcome::Success);
    if synced == total {
        return Health { outcome: SyncOutcome::Success, text: owned("All synced") };
    }
    if synced > 0 {
        // Some destinations have run and some have not: synced, but not all the way.
        return Health { outcome: SyncOutcome::Success, text: owned("Partly synced") };
    }
    Health { outcome: SyncOutcome::Never, text: owned("Never run") }
}

} // verus!
