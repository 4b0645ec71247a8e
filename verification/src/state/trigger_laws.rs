//! What a reconcile is for: afterwards every task's runner is the one its task asks for.

use crate::model::{SyncTask, Trigger, TriggerView};
use crate::state::triggers;
use crate::state::triggers::RunningView;
use vstd::prelude::*;

verus! {

/// The runner works by exactly what the task says now: the kind of trigger, the cron expression or
/// the quiet period that goes with it, and the folder it is about.
pub open spec fn works_by(runner: RunningView, task: SyncTask) -> bool {
    &&& runner.source_path == task.source_path@
    &&& match task.trigger {
        Trigger::Manual => runner.trigger is Manual,
        Trigger::Scheduled { cron_expression } => runner.trigger matches TriggerView::Scheduled(
            expression,
        ) && expression == cron_expression@,
        Trigger::Watch { settle_seconds } => runner.trigger matches TriggerView::Watch(seconds)
            && seconds == settle_seconds,
    }
}

/// A runner that is there and works by what its task says is left alone, and no other is: any
/// change of the trigger, of its cron expression or quiet period, or of the source restarts it.
pub proof fn law_only_a_runner_that_still_fits_is_kept(
    host: Map<u128, RunningView>,
    task: SyncTask,
)
    ensures
        triggers::wants_restart(host, task) <==> !(host.contains_key(task.id) && works_by(
            host[task.id],
            task,
        )),
{
}

/// The plan restarts a task exactly when it has no runner that fits, each such task once, in the
/// order of the list.
pub proof fn law_the_plan_restarts_what_does_not_fit(
    host: Map<u128, RunningView>,
    tasks: Seq<SyncTask>,
)
    ensures
        ({
            let order = triggers::restarts(host, tasks, tasks.len() as int);
            &&& forall|i: int| #[trigger]
                order.contains(i) <==> 0 <= i < tasks.len() && !(host.contains_key(tasks[i].id)
                    && works_by(host[tasks[i].id], tasks[i]))
            &&& forall|a: int, b: int|
                0 <= a < b < order.len() ==> #[trigger] order[a] < #[trigger] order[b]
        }),
{
    let n = tasks.len() as int;
    let order = triggers::restarts(host, tasks, n);
    triggers::lemma_restarts(host, tasks, n);
    triggers::lemma_restarts_rise(host, tasks, n);
    assert forall|i: int| #[trigger] order.contains(i) <==> 0 <= i < n && !(host.contains_key(
        tasks[i].id,
    ) && works_by(host[tasks[i].id], tasks[i])) by {
        if order.contains(i) {
            let k = choose|k: int| 0 <= k < order.len() && order[k] == i;
            assert(triggers::wants_restart(host, tasks[order[k]]));
            law_only_a_runner_that_still_fits_is_kept(host, tasks[i]);
        }
        if 0 <= i < n {
            law_only_a_runner_that_still_fits_is_kept(host, tasks[i]);
            if triggers::wants_restart(host, tasks[i]) {
                assert(triggers::restarts(host, tasks, n).contains(i));
            }
        }
    }
}

/// No runner is left of a task that is gone, or of nothing at all.
proof fn lemma_runners_have_tasks(
    host: Map<u128, RunningView>,
    tasks: Seq<SyncTask>,
    order: Seq<int>,
    failures: Seq<Option<String>>,
    n: int,
    id: u128,
)
    requires
        0 <= n <= order.len(),
        order.len() == failures.len(),
        forall|k: int| 0 <= k < order.len() ==> 0 <= #[trigger] order[k] < tasks.len(),
        host.contains_key(id) ==> triggers::is_live(tasks, id),
        triggers::all_started(host, tasks, order, failures, n).contains_key(id),
    ensures
        triggers::is_live(tasks, id),
    decreases n,
{
    if n > 0 {
        let before = triggers::all_started(host, tasks, order, failures, n - 1);
        if before.contains_key(id) {
            lemma_runners_have_tasks(host, tasks, order, failures, n - 1, id);
        } else {
            assert(tasks[order[n - 1]].id == id);
        }
    }
}

/// After a reconcile every task that could be started has a runner that works by what the task
/// says now, a task that would not start has none, and nothing else runs.
pub proof fn law_a_reconcile_leaves_each_task_the_runner_it_asks_for(
    host: Map<u128, RunningView>,
    tasks: Seq<SyncTask>,
    failures: Seq<Option<String>>,
)
    requires
        triggers::distinct(tasks),
        failures.len() == triggers::restarts(host, tasks, tasks.len() as int).len(),
    ensures
        ({
            let order = triggers::restarts(host, tasks, tasks.len() as int);
            let after = triggers::all_started(
                triggers::kept(host, tasks),
                tasks,
                order,
                failures,
                failures.len() as int,
            );
            &&& forall|id: u128| #[trigger]
                after.contains_key(id) ==> exists|i: int|
                    0 <= i < tasks.len() && (#[trigger] tasks[i]).id == id
            &&& forall|i: int|
                0 <= i < tasks.len() && after.contains_key((#[trigger] tasks[i]).id) ==> works_by(
                    after[tasks[i].id],
                    tasks[i],
                )
            &&& forall|i: int|
                0 <= i < tasks.len() ==> (after.contains_key((#[trigger] tasks[i]).id)
                    <==> !(exists|k: int|
                    0 <= k < order.len() && #[trigger] order[k] == i && failures[k] is Some))
        }),
{
    let n = tasks.len() as int;
    let order = triggers::restarts(host, tasks, n);
    let base = triggers::kept(host, tasks);
    let after = triggers::all_started(base, tasks, order, failures, failures.len() as int);
    triggers::lemma_restarts(host, tasks, n);
    triggers::lemma_restarts_rise(host, tasks, n);
    assert forall|id: u128| #[trigger] after.contains_key(id) implies exists|i: int|
        0 <= i < tasks.len() && (#[trigger] tasks[i]).id == id by {
        lemma_runners_have_tasks(base, tasks, order, failures, failures.len() as int, id);
    }
    assert forall|i: int| 0 <= i < tasks.len() implies ({
        &&& after.contains_key((#[trigger] tasks[i]).id) ==> works_by(after[tasks[i].id], tasks[i])
        &&& after.contains_key(tasks[i].id) <==> !(exists|k: int|
            0 <= k < order.len() && #[trigger] order[k] == i && failures[k] is Some)
    }) by {
        triggers::lemma_all_started(base, tasks, order, failures, order.len() as int, i);
        assert(triggers::is_live(tasks, tasks[i].id));
        law_only_a_runner_that_still_fits_is_kept(host, tasks[i]);
        if exists|k: int| 0 <= k < order.len() && #[trigger] order[k] == i {
            let k = choose|k: int| 0 <= k < order.len() && #[trigger] order[k] == i;
            if exists|j: int|
                0 <= j < order.len() && #[trigger] order[j] == i && failures[j] is Some {
                let j = choose|j: int|
                    0 <= j < order.len() && #[trigger] order[j] == i && failures[j] is Some;
                assert(j == k);
            }
        } else {
            if triggers::wants_restart(host, tasks[i]) {
                assert(order.contains(i));
                let k = choose|k: int| 0 <= k < order.len() && order[k] == i;
                assert(order[k] == i);
            }
            assert(base.contains_key(tasks[i].id));
        }
    }
}

} // verus!
