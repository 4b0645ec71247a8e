//! Which triggers run, and which are left alone.

use syncmaid::model::{
    DeleteMode, Destination, DestinationDefaults, FileNameCollisionPolicy, SyncStrategy, SyncTask,
    SyncTaskKind, Trigger,
};
use syncmaid::rules::FilterRule;
use syncmaid::state::triggers::{TriggerHost, TriggerStart};

/// Carries a plan out the way the window does, and counts what it did.
#[derive(Default)]
struct Runners {
    built: Vec<Trigger>,
    stopped: Vec<u128>,
    running: Vec<u128>,
    refuse: bool,
}

impl Runners {
    fn reconcile(&mut self, host: &mut TriggerHost, tasks: &Vec<SyncTask>) -> Vec<TriggerStart> {
        let plan = host.plan(tasks);
        for id in &plan.stopping {
            self.stop(*id);
        }
        let mut failures = Vec::new();
        for index in &plan.restarting {
            let task = &tasks[*index];
            if self.running.contains(&task.id) {
                self.stop(task.id);
            }
            if self.refuse {
                failures.push(Some("no such folder".to_owned()));
            } else {
                self.built.push(task.trigger.copy());
                self.running.push(task.id);
                failures.push(None);
            }
        }
        host.reconcile(tasks, &failures)
    }

    fn stop(&mut self, id: u128) {
        self.stopped.push(id);
        self.running.retain(|running| *running != id);
    }
}

fn watch() -> Trigger {
    Trigger::Watch { settle_seconds: 10 }
}

fn scheduled(cron: &str) -> Trigger {
    Trigger::Scheduled { cron_expression: cron.to_owned() }
}

fn task(id: u128, name: &str, trigger: Trigger) -> SyncTask {
    SyncTask {
        id,
        name: name.to_owned(),
        source_path: r"C:\src".to_owned(),
        trigger,
        destinations: vec![],
        kind: SyncTaskKind::Sync,
    }
}

#[test]
fn every_task_gets_its_trigger_and_notifications_carry_its_id() {
    let mut host = TriggerHost::new();
    let tasks = vec![task(1, "Photos", watch()), task(2, "Nightly", Trigger::Manual)];

    let started = Runners::default().reconcile(&mut host, &tasks);

    assert_eq!(2, started.len());
    assert!(started.iter().all(|start| start.error.is_none()));

    let seen: Vec<u128> = started.iter().map(|start| start.task_id).collect();
    assert_eq!(vec![tasks[0].id, tasks[1].id], seen);
}

#[test]
fn a_trigger_that_will_not_start_is_reported_rather_than_thrown() {
    // The task degrades to manual-only. Silently never running is the worst outcome of the three,
    // so the failure comes back for the card to show.
    let mut runners = Runners { refuse: true, ..Default::default() };
    let mut host = TriggerHost::new();
    let tasks = vec![task(1, "Photos", watch())];

    let started = runners.reconcile(&mut host, &tasks);

    assert_eq!(
        vec![Some("no such folder".to_owned())],
        started.into_iter().map(|start| start.error).collect::<Vec<_>>()
    );
    assert!(host.needs_restart(&tasks[0]), "what did not start is tried again");
}

#[test]
fn a_task_whose_trigger_did_not_change_keeps_the_runner_it_has() {
    // Restarting a watcher throws away the quiet period it has accumulated, so an edit that touched
    // neither the trigger nor the source must not touch the watcher either.
    let mut runners = Runners::default();
    let mut host = TriggerHost::new();
    let mut tasks = vec![task(1, "Photos", watch())];

    runners.reconcile(&mut host, &tasks);
    // A destination was added: nothing the trigger cares about.
    let defaults = DestinationDefaults {
        verify_contents: false,
        delete_mode: DeleteMode::Recycle,
        flatten_structure: false,
        collision_policy: FileNameCollisionPolicy::Skip,
        mass_delete_threshold: 0,
    };
    tasks[0].destinations.push(Destination::new(
        9,
        "D",
        r"D:\d",
        vec![FilterRule::AllFiles],
        SyncStrategy::Mirror,
        &defaults,
    ));
    let second = runners.reconcile(&mut host, &tasks);

    assert!(second.is_empty(), "nothing was restarted");
    assert_eq!(1, runners.built.len());
}

#[test]
fn changing_the_trigger_or_the_source_rebuilds_the_runner() {
    let mut runners = Runners::default();
    let mut host = TriggerHost::new();
    let mut tasks = vec![task(1, "Photos", watch())];

    runners.reconcile(&mut host, &tasks);
    tasks[0].trigger = scheduled("0 2 * * *");
    runners.reconcile(&mut host, &tasks);
    tasks[0].source_path = r"C:\elsewhere".into();
    runners.reconcile(&mut host, &tasks);

    assert_eq!(
        vec![watch(), scheduled("0 2 * * *"), scheduled("0 2 * * *")],
        runners.built
    );
}

#[test]
fn a_task_that_is_gone_has_its_trigger_stopped() {
    let mut runners = Runners::default();
    let mut host = TriggerHost::new();
    let tasks = vec![task(1, "Photos", watch())];

    runners.reconcile(&mut host, &tasks);
    runners.reconcile(&mut host, &vec![]);

    assert_eq!(1, runners.stopped.len());
}

#[test]
fn dropping_the_host_stops_everything() {
    // Nothing may fire into a window that is being torn down.
    let mut runners = Runners::default();
    let mut host = TriggerHost::new();
    runners.reconcile(&mut host, &vec![task(1, "A", watch()), task(2, "B", watch())]);

    for id in host.stop_all() {
        runners.stop(id);
    }

    assert_eq!(2, runners.stopped.len());
    assert!(runners.running.is_empty());
}

#[test]
fn one_task_can_be_stopped_alone() {
    let mut runners = Runners::default();
    let mut host = TriggerHost::new();
    let tasks = vec![task(1, "A", watch()), task(2, "B", watch())];
    runners.reconcile(&mut host, &tasks);

    assert!(host.stop(1));
    assert!(!host.stop(1));
    assert!(host.needs_restart(&tasks[0]));
    assert!(!host.needs_restart(&tasks[1]));
}
