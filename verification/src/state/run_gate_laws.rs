//! What each request is answered, and what it leaves behind.

use crate::state::run_gate::{GateView, StartView};
use vstd::prelude::*;

verus! {

/// Two runs never overlap: a run starts on request exactly when none is in flight and requests are
/// not being refused; from then on one is in flight. It answers to the cancellation it was given
/// and carries the approvals it was asked with.
pub proof fn law_a_run_starts_exactly_when_none_is_in_flight(
    gate: GateView,
    approved: Set<u128>,
    cancellation: u64,
)
    requires
        gate.wf(),
    ensures
        gate.answer(approved, cancellation) is Some <==> !gate.active && !gate.refusing,
        gate.answer(approved, cancellation) is Some ==> {
            let after = gate.requested(approved, cancellation);
            &&& gate.answer(approved, cancellation) == Some(
                StartView { cancellation, confirmed: approved },
            )
            &&& after.active
            &&& !after.pending
            &&& !after.cancelled
            &&& !after.refusing
            &&& after.cancellation == Some(cancellation)
            &&& after.wf()
        },
{
    assert(Set::<u128>::empty().union(approved) =~= approved);
}

/// A request that lands mid-run is remembered with its approvals, and changes nothing else: the
/// run in flight, its cancellation and whether it was cancelled stay as they are.
pub proof fn law_a_request_mid_run_is_remembered(
    gate: GateView,
    approved: Set<u128>,
    cancellation: u64,
)
    requires
        gate.wf(),
        gate.active,
        !gate.refusing,
    ensures
        ({
            let after = gate.requested(approved, cancellation);
            &&& after.pending
            &&& after.active
            &&& !after.refusing
            &&& after.cancelled == gate.cancelled
            &&& after.cancellation == gate.cancellation
            &&& forall|id: u128| #[trigger]
                after.approvals.contains(id) <==> gate.approvals.contains(id) || approved.contains(
                    id,
                )
            &&& after.wf()
        }),
{
}

/// A refused request changes nothing.
pub proof fn law_a_refused_request_changes_nothing(
    gate: GateView,
    approved: Set<u128>,
    cancellation: u64,
)
    requires
        gate.refusing,
    ensures
        gate.requested(approved, cancellation) == gate,
        gate.answer(approved, cancellation) is None,
{
}

/// A finished run is followed by another exactly when one was asked for meanwhile and nobody
/// cancelled; it answers to the same cancellation and carries the approvals that were waiting.
/// Otherwise a new run can start. Either way no request and no approval is left over.
pub proof fn law_a_finished_run_is_followed_only_by_what_was_asked_for(gate: GateView)
    requires
        gate.wf(),
    ensures
        gate.follow_up() is Some <==> gate.pending && !gate.cancelled,
        gate.follow_up() matches Some(start) ==> {
            &&& Some(start.cancellation) == gate.cancellation
            &&& start.confirmed == gate.approvals
            &&& gate.finished().active
            &&& gate.finished().cancellation == gate.cancellation
        },
        gate.follow_up() is None ==> !gate.finished().active
            && gate.finished().cancellation is None,
        !gate.finished().pending,
        forall|id: u128| !(#[trigger] gate.finished().approvals.contains(id)),
        gate.finished().refusing == gate.refusing,
        gate.finished().cancelled == gate.cancelled,
        gate.finished().wf(),
{
}

/// A cancel marks the drain and touches nothing else; refusing does the same, for good.
pub proof fn law_a_cancel_only_marks_the_drain(gate: GateView)
    requires
        gate.wf(),
    ensures
        gate.stopped().cancelled,
        gate.closed_for_good().cancelled,
        gate.closed_for_good().refusing,
        gate.stopped().refusing == gate.refusing,
        gate.stopped().active == gate.active,
        gate.stopped().pending == gate.pending,
        gate.stopped().approvals == gate.approvals,
        gate.stopped().cancellation == gate.cancellation,
        gate.closed_for_good().active == gate.active,
        gate.closed_for_good().cancellation == gate.cancellation,
        gate.stopped().wf(),
        gate.closed_for_good().wf(),
{
}

/// A gate nothing was asked of is free, and forgets nothing because it holds nothing.
pub proof fn law_a_new_gate_is_free()
    ensures
        GateView::idle().wf(),
        !GateView::idle().active,
        !GateView::idle().pending,
        !GateView::idle().refusing,
        !GateView::idle().cancelled,
{
}

} // verus!
