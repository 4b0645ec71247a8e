//! Serializing a task's runs.

use std::collections::HashSet;

use syncmaid::state::run_gate::{RunGate, RunStart};

/// Cancellations by number, as the window keeps them.
#[derive(Default)]
struct Cancellations {
    made: u64,
    set_off: HashSet<u64>,
}

impl Cancellations {
    fn make(&mut self) -> u64 {
        self.made += 1;
        self.made
    }

    fn cancel(&mut self, which: Option<u64>) {
        if let Some(which) = which {
            self.set_off.insert(which);
        }
    }

    fn is_cancelled(&self, start: &RunStart) -> bool {
        self.set_off.contains(&start.cancellation)
    }
}

/// Drives the loop the way a caller does, counting how many runs actually happen.
fn drain(
    gate: &mut RunGate,
    cancellations: &mut Cancellations,
    mut during_run: impl FnMut(usize, &mut RunGate, &mut Cancellations),
) -> Vec<RunStart> {
    let made = cancellations.make();
    let Some(mut start) = gate.request(HashSet::new(), made) else {
        return Vec::new();
    };
    let mut runs = Vec::new();
    loop {
        during_run(runs.len(), gate, cancellations);
        runs.push(start);
        match gate.next() {
            Some(next) => start = next,
            None => break,
        }
    }
    runs
}

#[test]
fn a_single_request_runs_once() {
    let mut gate = RunGate::new();

    let runs = drain(&mut gate, &mut Cancellations::default(), |_, _, _| {});

    assert_eq!(1, runs.len());
    assert!(!gate.is_running(), "the way is free again once the drain ends");
}

#[test]
fn a_request_that_lands_mid_run_is_absorbed_rather_than_refused() {
    let mut gate = RunGate::new();
    let start = gate.request(HashSet::new(), 1).expect("the first request drives the drain");

    assert!(gate.request(HashSet::new(), 2).is_none(), "the active run takes it");
    assert!(gate.is_running());

    drop(start);
    assert!(gate.next().is_some(), "and the drain picks it up");
    assert!(gate.next().is_none());
}

#[test]
fn a_burst_of_requests_costs_exactly_one_follow_up() {
    let mut gate = RunGate::new();

    let runs = drain(&mut gate, &mut Cancellations::default(), |index, gate, cancellations| {
        if index == 0 {
            // A watcher firing repeatedly while the first run is still going.
            for _ in 0..10 {
                let made = cancellations.make();
                assert!(gate.request(HashSet::new(), made).is_none());
            }
        }
    });

    assert_eq!(
        2,
        runs.len(),
        "ten requests during a run are one follow-up, not ten: otherwise a busy folder queues runs \
         faster than they finish"
    );
}

#[test]
fn an_approval_given_mid_run_survives_into_the_run_that_performs_it() {
    let mut gate = RunGate::new();
    let (first, second) = (11, 12);

    let runs = drain(&mut gate, &mut Cancellations::default(), |index, gate, cancellations| {
        if index == 0 {
            let made = cancellations.make();
            gate.request(HashSet::from([first]), made);
            let made = cancellations.make();
            gate.request(HashSet::from([second]), made);
        }
    });

    assert_eq!(2, runs.len());
    assert!(runs[0].confirmed_mass_deletes.is_empty());
    assert_eq!(
        HashSet::from([first, second]),
        runs[1].confirmed_mass_deletes,
        "approvals are unioned, so neither confirmation is silently dropped"
    );
}

#[test]
fn an_approval_is_one_shot() {
    let mut gate = RunGate::new();
    let approved = 42;

    let start = gate.request(HashSet::from([approved]), 1).unwrap();
    assert_eq!(HashSet::from([approved]), start.confirmed_mass_deletes);
    assert!(gate.next().is_none());

    let again = gate.request(HashSet::new(), 2).unwrap();
    assert!(
        again.confirmed_mass_deletes.is_empty(),
        "a confirmation covers the run it was given for and no other"
    );
}

#[test]
fn cancelling_stops_the_follow_up_as_well_as_the_run() {
    let mut gate = RunGate::new();
    let mut cancellations = Cancellations::default();

    let runs = drain(&mut gate, &mut cancellations, |index, gate, cancellations| {
        if index == 0 {
            let made = cancellations.make();
            gate.request(HashSet::new(), made);
            let set_off = gate.cancel();
            cancellations.cancel(set_off);
        }
    });

    assert_eq!(1, runs.len(), "the absorbed request is dropped, not run after a stop");
    assert!(cancellations.is_cancelled(&runs[0]));
    assert!(!gate.is_running());
}

#[test]
fn every_run_in_a_drain_shares_one_cancellation() {
    let mut gate = RunGate::new();
    let mut cancellations = Cancellations::default();

    let runs = drain(&mut gate, &mut cancellations, |index, gate, cancellations| {
        if index == 0 {
            let made = cancellations.make();
            gate.request(HashSet::new(), made);
        }
    });

    assert_eq!(2, runs.len());
    cancellations.cancel(Some(runs[0].cancellation));
    assert!(
        cancellations.is_cancelled(&runs[1]),
        "otherwise stopping a task would only stop the run you happened to catch"
    );
}

#[test]
fn a_refusing_gate_starts_nothing() {
    let mut gate = RunGate::new();
    gate.refuse_further_requests();

    assert!(gate.request(HashSet::new(), 1).is_none());
}

#[test]
fn refusing_mid_run_cancels_it_and_drops_the_follow_up() {
    let mut gate = RunGate::new();
    let mut cancellations = Cancellations::default();

    let runs = drain(&mut gate, &mut cancellations, |index, gate, cancellations| {
        if index == 0 {
            let made = cancellations.make();
            gate.request(HashSet::new(), made);
            let set_off = gate.refuse_further_requests();
            cancellations.cancel(set_off);
        }
    });

    assert_eq!(1, runs.len());
    assert!(cancellations.is_cancelled(&runs[0]));
}

#[test]
fn the_gate_is_reusable_after_a_cancelled_drain() {
    let mut gate = RunGate::new();
    let mut cancellations = Cancellations::default();
    drain(&mut gate, &mut cancellations, |index, gate, cancellations| {
        if index == 0 {
            let set_off = gate.cancel();
            cancellations.cancel(set_off);
        }
    });

    let made = cancellations.make();
    let restarted =
        gate.request(HashSet::new(), made).expect("a cancel is not a permanent refusal");
    assert!(!cancellations.is_cancelled(&restarted));
}

#[test]
fn an_approval_for_a_waiting_run_reaches_it_and_is_spent() {
    let mut gate = RunGate::new();
    let first = gate.request(HashSet::new(), 1).expect("the way was free");
    assert!(first.confirmed_mass_deletes.is_empty());
    assert!(gate.request(HashSet::from([7]), 2).is_none(), "absorbed into the follow-up");

    let follow_up = gate.next().expect("a coalesced request is waiting");
    assert_eq!(HashSet::from([7]), follow_up.confirmed_mass_deletes);
    assert_eq!(1, follow_up.cancellation);
    assert!(gate.next().is_none());
    let later = gate.request(HashSet::new(), 3).expect("the way is free again");
    assert!(later.confirmed_mass_deletes.is_empty());
    assert_eq!(3, later.cancellation);
}

#[test]
fn nothing_to_cancel_is_said_so() {
    let mut gate = RunGate::new();
    assert_eq!(None, gate.cancel());
    assert!(gate.request(HashSet::new(), 9).is_some(), "an idle cancel is forgotten");
    assert_eq!(Some(9), gate.refuse_further_requests());
}
