//! Serializes a task's runs and coalesces bursts of trigger requests.
//!
//! Two runs of one task must never overlap. Requests do arrive in bursts, so one that lands
//! mid-run is absorbed into a single follow-up rather than queued one for one.
//!
//! It is also why a task can trigger itself without cascading: a run that wakes its own
//! watcher costs one extra run, and no more.

use crate::ids::put_all;
use std::collections::HashSet;
use vstd::prelude::*;

verus! {

/// What a run needs to start.
#[derive(Debug)]
pub struct RunStart {
    /// Which cancellation the run answers to. Shared across a whole drain, so cancelling once
    /// stops the follow-ups too.
    pub cancellation: u64,
    /// The mass deletions the user approved, over every request this run absorbed.
    ///
    /// One-shot: never persisted, and cleared once handed out.
    pub confirmed_mass_deletes: HashSet<u128>,
}

/// What a [`RunStart`] says.
pub struct StartView {
    pub cancellation: u64,
    pub confirmed: Set<u128>,
}

impl View for RunStart {
    type V = StartView;

    open spec fn view(&self) -> StartView {
        StartView { cancellation: self.cancellation, confirmed: self.confirmed_mass_deletes@ }
    }
}

/// The view of an answer.
pub open spec fn start_view(start: Option<RunStart>) -> Option<StartView> {
    match start {
        Some(s) => Some(s@),
        None => None,
    }
}

/// See the module docs.
#[derive(Debug)]
pub struct RunGate {
    run_active: bool,
    has_pending_run: bool,
    /// Set when the task is being deleted or the app is shutting down.
    refusing: bool,
    /// Set by a cancel, so the drain stops instead of picking up the follow-up.
    cancelled_until_idle: bool,
    pending_confirmed_mass_deletes: HashSet<u128>,
    cancellation: Option<u64>,
}

/// The state of a [`RunGate`].
#[verifier::ext_equal]
pub struct GateView {
    /// A run is in flight.
    pub active: bool,
    /// A follow-up is waiting.
    pub pending: bool,
    /// Nothing more will be started.
    pub refusing: bool,
    /// The follow-up is to be dropped.
    pub cancelled: bool,
    /// Approvals that no run has been given yet.
    pub approvals: Set<u128>,
    /// The cancellation of the drain.
    pub cancellation: Option<u64>,
}

impl View for RunGate {
    type V = GateView;

    closed spec fn view(&self) -> GateView {
        GateView {
            active: self.run_active,
            pending: self.has_pending_run,
            refusing: self.refusing,
            cancelled: self.cancelled_until_idle,
            approvals: self.pending_confirmed_mass_deletes@,
            cancellation: self.cancellation,
        }
    }
}

impl GateView {
    /// A drain has a cancellation, and a follow-up waits only behind a run.
    pub open spec fn wf(self) -> bool {
        &&& self.active <==> self.cancellation is Some
        &&& self.pending ==> self.active
        &&& !self.active ==> self.approvals == Set::<u128>::empty()
    }

    /// A gate nothing has asked anything of.
    pub open spec fn idle() -> GateView {
        GateView {
            active: false,
            pending: false,
            refusing: false,
            cancelled: false,
            approvals: Set::empty(),
            cancellation: None,
        }
    }

    /// The state after a request.
    pub open spec fn requested(self, approved: Set<u128>, cancellation: u64) -> GateView {
        if self.refusing {
            self
        } else if self.active {
            GateView { pending: true, approvals: self.approvals.union(approved), ..self }
        } else {
            GateView {
                active: true,
                cancelled: false,
                approvals: Set::empty(),
                cancellation: Some(cancellation),
                ..self
            }
        }
    }

    /// What a request is answered.
    pub open spec fn answer(self, approved: Set<u128>, cancellation: u64) -> Option<StartView> {
        if self.refusing || self.active {
            None
        } else {
            Some(StartView { cancellation, confirmed: self.approvals.union(approved) })
        }
    }

    /// A finished run is followed by another.
    pub open spec fn follows_up(self) -> bool {
        self.pending && !self.cancelled
    }

    /// The state after a run has finished.
    pub open spec fn finished(self) -> GateView {
        if self.follows_up() {
            GateView { pending: false, approvals: Set::empty(), ..self }
        } else {
            GateView {
                active: false,
                pending: false,
                approvals: Set::empty(),
                cancellation: None,
                ..self
            }
        }
    }

    /// The run that follows a finished one.
    pub open spec fn follow_up(self) -> Option<StartView> {
        if self.follows_up() {
            Some(StartView { cancellation: self.cancellation->0, confirmed: self.approvals })
        } else {
            None
        }
    }

    /// The state after a cancel.
    pub open spec fn stopped(self) -> GateView {
        GateView { cancelled: true, ..self }
    }

    /// The state after it was told to refuse.
    pub open spec fn closed_for_good(self) -> GateView {
        GateView { refusing: true, cancelled: true, ..self }
    }

    /// The state after a burst of requests.
    pub open spec fn burst(self, approved: Seq<Set<u128>>, cancellations: Seq<u64>) -> GateView
        decreases approved.len(),
    {
        if approved.len() == 0 {
            self
        } else {
            self.burst(approved.drop_last(), cancellations.drop_last()).requested(
                approved.last(),
                cancellations.last(),
            )
        }
    }
}

/// Everything that was approved in a burst.
pub open spec fn all_approved(approved: Seq<Set<u128>>) -> Set<u128>
    decreases approved.len(),
{
    if approved.len() == 0 {
        Set::empty()
    } else {
        all_approved(approved.drop_last()).union(approved.last())
    }
}

impl Default for RunGate {
    fn default() -> (r: Self)
        ensures
            r@ == GateView::idle(),
            r@.wf(),
    {
        RunGate::new()
    }
}

impl RunGate {
    /// A gate that is free.
    pub fn new() -> (r: Self)
        ensures
            r@ == GateView::idle(),
            r@.wf(),
    {
        RunGate {
            run_active: false,
            has_pending_run: false,
            refusing: false,
            cancelled_until_idle: false,
            pending_confirmed_mass_deletes: HashSet::new(),
            cancellation: None,
        }
    }

    /// Asks for a run. `cancellation` names a fresh cancellation, used if a drain begins here.
    ///
    /// `Some` means the caller owns the drain loop and must keep calling [`RunGate::next`] until
    /// it returns `None`. `None` means an active run absorbed the request, or requests are
    /// being refused.
    pub fn request(
        &mut self,
        confirmed_mass_deletes: HashSet<u128>,
        cancellation: u64,
    ) -> (r: Option<RunStart>)
        requires
            old(self)@.wf(),
        ensures
            final(self)@.wf(),
            final(self)@ == old(self)@.requested(confirmed_mass_deletes@, cancellation),
            start_view(r) == old(self)@.answer(confirmed_mass_deletes@, cancellation),
    {
        if self.refusing {
            return None;
        }
        // Union rather than replace: an approval given for one request must survive being folded
        // into the run that actually performs it.
        put_all(&mut self.pending_confirmed_mass_deletes, &confirmed_mass_deletes);
        if self.run_active {
            self.has_pending_run = true;
            return None;
        }
        self.run_active = true;
        self.cancelled_until_idle = false;
        self.cancellation = Some(cancellation);
        let mut approved: HashSet<u128> = HashSet::new();
        std::mem::swap(&mut approved, &mut self.pending_confirmed_mass_deletes);
        Some(RunStart { cancellation, confirmed_mass_deletes: approved })
    }

    /// Called once a run finishes. `Some` when a coalesced request is waiting.
    pub fn next(&mut self) -> (r: Option<RunStart>)
        requires
            old(self)@.wf(),
        ensures
            final(self)@.wf(),
            final(self)@ == old(self)@.finished(),
            start_view(r) == old(self)@.follow_up(),
    {
        if self.has_pending_run && !self.cancelled_until_idle {
            // The same cancellation: cancelling once has to stop the follow-ups as well.
            if let Some(cancellation) = self.cancellation {
                self.has_pending_run = false;
                let mut approved: HashSet<u128> = HashSet::new();
                std::mem::swap(&mut approved, &mut self.pending_confirmed_mass_deletes);
                return Some(RunStart { cancellation, confirmed_mass_deletes: approved });
            }
        }
        self.run_active = false;
        self.has_pending_run = false;
        self.cancellation = None;
        self.pending_confirmed_mass_deletes.clear();
        None
    }

    /// Stops the current run and any follow-up it had absorbed. Returns the cancellation to set
    /// off, if a run is in flight.
    pub fn cancel(&mut self) -> (r: Option<u64>)
        requires
            old(self)@.wf(),
        ensures
            final(self)@.wf(),
            final(self)@ == old(self)@.stopped(),
            r == old(self)@.cancellation,
    {
        self.cancelled_until_idle = true;
        self.cancellation
    }

    /// True while a run is in flight.
    pub fn is_running(&self) -> (r: bool)
        ensures
            r == self@.active,
    {
        self.run_active
    }

    /// Refuses further requests: the task is being deleted, or the app is closing. Returns the
    /// cancellation to set off, if a run is in flight.
    pub fn refuse_further_requests(&mut self) -> (r: Option<u64>)
        requires
            old(self)@.wf(),
        ensures
            final(self)@.wf(),
            final(self)@ == old(self)@.closed_for_good(),
            r == old(self)@.cancellation,
    {
        self.refusing = true;
        self.cancelled_until_idle = true;
        self.cancellation
    }
}

/// What a burst does to an active gate.
proof fn lemma_burst(gate: GateView, approved: Seq<Set<u128>>, cancellations: Seq<u64>)
    requires
        gate.wf(),
        gate.active,
        !gate.refusing,
        approved.len() == cancellations.len(),
    ensures
        gate.burst(approved, cancellations) == (GateView {
            pending: gate.pending || approved.len() > 0,
            approvals: gate.approvals.union(all_approved(approved)),
            ..gate
        }),
    decreases approved.len(),
{
    if approved.len() > 0 {
        lemma_burst(gate, approved.drop_last(), cancellations.drop_last());
        assert(gate.approvals.union(all_approved(approved.drop_last())).union(approved.last())
            =~= gate.approvals.union(all_approved(approved)));
    } else {
        assert(gate.approvals.union(Set::<u128>::empty()) =~= gate.approvals);
    }
}

/// However many requests land while a run is in flight, each is absorbed, and all of them
/// together cost exactly one follow-up.
pub proof fn law_a_burst_costs_exactly_one_follow_up(
    gate: GateView,
    approved: Seq<Set<u128>>,
    cancellations: Seq<u64>,
)
    requires
        gate.wf(),
        gate.active,
        !gate.refusing,
        !gate.cancelled,
        approved.len() == cancellations.len(),
        approved.len() > 0,
    ensures
        forall|i: int|
            0 <= i < approved.len() ==> (#[trigger] gate.burst(
                approved.take(i),
                cancellations.take(i),
            )).answer(approved[i], cancellations[i]) is None,
        gate.burst(approved, cancellations).follow_up() is Some,
        gate.burst(approved, cancellations).finished().follow_up() is None,
{
    assert forall|i: int| 0 <= i < approved.len() implies (#[trigger] gate.burst(
        approved.take(i),
        cancellations.take(i),
    )).answer(approved[i], cancellations[i]) is None by {
        lemma_burst(gate, approved.take(i), cancellations.take(i));
    }
    lemma_burst(gate, approved, cancellations);
}

/// The run that a burst costs is given every approval of the burst, besides those already
/// waiting: none is dropped and none is added.
pub proof fn law_approvals_are_unioned(
    gate: GateView,
    approved: Seq<Set<u128>>,
    cancellations: Seq<u64>,
)
    requires
        gate.wf(),
        gate.active,
        !gate.refusing,
        !gate.cancelled,
        approved.len() == cancellations.len(),
        approved.len() > 0,
    ensures
        (gate.burst(approved, cancellations).follow_up()->0).confirmed == gate.approvals.union(
            all_approved(approved),
        ),
{
    lemma_burst(gate, approved, cancellations);
}

/// An approval covers the run it was given for and no other: once a run has started, or a drain
/// has ended, nothing of it is left.
pub proof fn law_an_approval_is_one_shot(gate: GateView, approved: Set<u128>, cancellation: u64)
    requires
        gate.wf(),
    ensures
        gate.answer(approved, cancellation) is Some ==> gate.requested(
            approved,
            cancellation,
        ).approvals == Set::<u128>::empty(),
        gate.finished().approvals == Set::<u128>::empty(),
        !gate.active ==> forall|other: Set<u128>, token: u64|
            (#[trigger] gate.answer(other, token)) matches Some(start) ==> start.confirmed
                == other,
{
    if !gate.active {
        assert forall|other: Set<u128>, token: u64|
            (#[trigger] gate.answer(other, token)) is Some implies (gate.answer(
            other,
            token,
        )->0).confirmed == other by {
            assert(Set::<u128>::empty().union(other) =~= other);
        }
    }
}

/// Cancelling stops the follow-up as well as the run, whatever is asked for meanwhile.
pub proof fn law_a_cancel_drops_the_follow_up(
    gate: GateView,
    approved: Seq<Set<u128>>,
    cancellations: Seq<u64>,
)
    requires
        gate.wf(),
        gate.active,
        approved.len() == cancellations.len(),
    ensures
        gate.stopped().burst(approved, cancellations).follow_up() is None,
        !gate.stopped().burst(approved, cancellations).finished().active,
    decreases approved.len(),
{
    let stopped = gate.stopped();
    if gate.refusing {
        lemma_refusing_burst(stopped, approved, cancellations);
    } else {
        lemma_burst(stopped, approved, cancellations);
    }
}

/// A refusing gate is not changed by requests.
proof fn lemma_refusing_burst(gate: GateView, approved: Seq<Set<u128>>, cancellations: Seq<u64>)
    requires
        gate.refusing,
        approved.len() == cancellations.len(),
    ensures
        gate.burst(approved, cancellations) == gate,
    decreases approved.len(),
{
    if approved.len() > 0 {
        lemma_refusing_burst(gate, approved.drop_last(), cancellations.drop_last());
    }
}

/// Every run of a drain answers to the cancellation the drain began with.
pub proof fn law_a_drain_shares_one_cancellation(
    gate: GateView,
    approved: Set<u128>,
    cancellation: u64,
    later: Seq<Set<u128>>,
    cancellations: Seq<u64>,
)
    requires
        gate.wf(),
        gate.answer(approved, cancellation) is Some,
        later.len() == cancellations.len(),
    ensures
        (gate.answer(approved, cancellation)->0).cancellation == cancellation,
        gate.requested(approved, cancellation).burst(later, cancellations).follow_up() matches Some(
            start,
        ) ==> start.cancellation == cancellation,
        gate.requested(approved, cancellation).burst(later, cancellations).follow_up() is Some
            ==> gate.requested(approved, cancellation).burst(
            later,
            cancellations,
        ).finished().cancellation == Some(cancellation),
{
    lemma_burst(gate.requested(approved, cancellation), later, cancellations);
}

/// A cancel is not a permanent refusal: once the drain has ended runs start again, and
/// they answer to a cancellation of their own.
pub proof fn law_the_gate_is_reusable_after_a_cancel(
    gate: GateView,
    approved: Set<u128>,
    cancellation: u64,
)
    requires
        gate.wf(),
        !gate.refusing,
    ensures
        gate.stopped().finished().answer(approved, cancellation) is Some,
        (gate.stopped().finished().answer(approved, cancellation)->0).cancellation == cancellation,
        !gate.stopped().finished().requested(approved, cancellation).cancelled,
{
}

/// A refusing gate starts nothing, ever again, and drops what it had absorbed.
pub proof fn law_a_refusing_gate_starts_nothing(
    gate: GateView,
    approved: Seq<Set<u128>>,
    cancellations: Seq<u64>,
)
    requires
        gate.wf(),
        approved.len() == cancellations.len(),
    ensures
        gate.closed_for_good().burst(approved, cancellations) == gate.closed_for_good(),
        forall|a: Set<u128>, c: u64|
            (#[trigger] gate.closed_for_good().answer(a, c)) is None,
        gate.closed_for_good().follow_up() is None,
        gate.closed_for_good().finished().refusing,
{
    lemma_refusing_burst(gate.closed_for_good(), approved, cancellations);
}

/// A run that is asked for once, with nothing landing meanwhile, is one run: a task whose run
/// wakes its own trigger once pays one follow-up, and the follow-up pays nothing.
pub proof fn law_a_self_trigger_does_not_cascade(
    gate: GateView,
    cancellation: u64,
    approved: Set<u128>,
    token: u64,
)
    requires
        gate.wf(),
        !gate.active,
        !gate.refusing,
    ensures
        gate.requested(Set::empty(), cancellation).follow_up() is None,
        gate.requested(Set::empty(), cancellation).requested(approved, token).follow_up() is Some,
        gate.requested(Set::empty(), cancellation).requested(
            approved,
            token,
        ).finished().follow_up() is None,
{
}

} // verus!
