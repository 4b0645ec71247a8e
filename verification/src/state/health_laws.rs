//! What a card's sentence says of the destinations behind it.

use crate::model::{Destination, DestinationSyncStatus, SyncOutcome};
use crate::state::health;
use crate::text;
use vstd::prelude::*;

verus! {

/// A destination's outcome is that of its status; without one it has not run.
pub proof fn law_a_destination_without_a_status_has_not_run(
    destinations: Seq<Destination>,
    statuses: Map<u128, DestinationSyncStatus>,
    i: int,
)
    requires
        0 <= i < destinations.len(),
    ensures
        health::outcomes(destinations, statuses).len() == destinations.len(),
        statuses.contains_key(destinations[i].id) ==> health::outcomes(destinations, statuses)[i]
            == statuses[destinations[i].id].outcome,
        !statuses.contains_key(destinations[i].id) ==> health::outcomes(destinations, statuses)[i]
            is Never,
{
}

/// Tallying counts one for each occurrence, and nothing for anything else.
pub proof fn law_a_tally_counts_each_occurrence(
    outcomes: Seq<SyncOutcome>,
    next: SyncOutcome,
    wanted: SyncOutcome,
)
    ensures
        health::tally(Seq::empty(), wanted) == 0,
        health::tally(outcomes.push(next), wanted) == health::tally(outcomes, wanted) + if next
            == wanted {
            1int
        } else {
            0int
        },
{
    assert(outcomes.push(next).drop_last() =~= outcomes);
}

/// Files in use add up over the destinations that have a status.
pub proof fn law_files_in_use_add_up(
    destinations: Seq<Destination>,
    next: Destination,
    statuses: Map<u128, DestinationSyncStatus>,
)
    ensures
        health::in_use(Seq::empty(), statuses) == 0,
        health::in_use(destinations.push(next), statuses) == health::in_use(destinations, statuses)
            + if statuses.contains_key(next.id) {
            statuses[next.id].files_deferred as int
        } else {
            0
        },
{
    assert(destinations.push(next).drop_last() =~= destinations);
}

/// All outcomes are counted only where all are the one counted.
proof fn lemma_full_tally(outcomes: Seq<SyncOutcome>, wanted: SyncOutcome)
    ensures
        health::tally(outcomes, wanted) == outcomes.len() <==> forall|i: int|
            0 <= i < outcomes.len() ==> #[trigger] outcomes[i] == wanted,
    decreases outcomes.len(),
{
    if outcomes.len() > 0 {
        let front = outcomes.drop_last();
        lemma_full_tally(front, wanted);
        health::lemma_tally(front, wanted);
        assert(outcomes.last() == outcomes[outcomes.len() - 1]);
        assert forall|i: int| 0 <= i < front.len() implies front[i] == #[trigger] outcomes[i] by {}
        if forall|i: int| 0 <= i < outcomes.len() ==> #[trigger] outcomes[i] == wanted {
            assert forall|i: int| 0 <= i < front.len() implies #[trigger] front[i] == wanted by {
                assert(outcomes[i] == wanted);
            }
        }
    }
}

/// A destination's run ended so.
pub open spec fn some(outcomes: Seq<SyncOutcome>, wanted: SyncOutcome) -> bool {
    exists|i: int| 0 <= i < outcomes.len() && #[trigger] outcomes[i] == wanted
}

/// The card's sentence, rung by rung: nothing to sync to; a run under way; something to confirm;
/// how many of how many failed; how many files are in use; all, or part, synced; never run.
pub proof fn law_the_card_says_the_worst_first(
    destinations: Seq<Destination>,
    statuses: Map<u128, DestinationSyncStatus>,
)
    ensures
        ({
            let all = health::outcomes(destinations, statuses);
            let said = health::card_text(destinations, statuses);
            if destinations.len() == 0 {
                said == "No destinations"@
            } else if some(all, SyncOutcome::Running) {
                said == "Syncing…"@
            } else if some(all, SyncOutcome::NeedsConfirmation) {
                said == "Needs confirmation"@
            } else if some(all, SyncOutcome::Failed) {
                said == text::decimal(health::tally(all, SyncOutcome::Failed)) + " of "@
                    + text::decimal(destinations.len()) + " failed"@
            } else if some(all, SyncOutcome::Incomplete) {
                said == text::signed_decimal(health::in_use(destinations, statuses)) + " in use"@
            } else if forall|i: int|
                0 <= i < all.len() ==> #[trigger] all[i] == SyncOutcome::Success {
                said == "All synced"@
            } else if some(all, SyncOutcome::Success) {
                said == "Partly synced"@
            } else {
                said == "Never run"@
            }
        }),
{
    let all = health::outcomes(destinations, statuses);
    health::lemma_tally(all, SyncOutcome::Running);
    health::lemma_tally(all, SyncOutcome::NeedsConfirmation);
    health::lemma_tally(all, SyncOutcome::Failed);
    health::lemma_tally(all, SyncOutcome::Incomplete);
    health::lemma_tally(all, SyncOutcome::Success);
    lemma_full_tally(all, SyncOutcome::Success);
    if destinations.len() > 0 && (forall|i: int|
        0 <= i < all.len() ==> #[trigger] all[i] == SyncOutcome::Success) {
        assert(all[0] == SyncOutcome::Success);
    }
}

/// A card with no destinations has not run.
pub proof fn law_a_card_without_destinations_has_not_run()
    ensures
        health::card_outcome(Seq::empty()) is Never,
{
}

} // verus!
