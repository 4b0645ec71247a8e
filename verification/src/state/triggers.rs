//! Keeping every task's trigger running.
//!
//! What is decided here is which runners to stop, which to (re)start and what the outcome means;
//! building and starting a runner is the caller's.
//!
//! A trigger that will not start degrades the task to manual-only rather than taking the app
//! down. But it is said out loud: a task that silently never runs is the worst of the three
//! outcomes.

use crate::model::{SyncTask, Trigger, TriggerView};
use crate::text::same_text;
use std::collections::HashMap;
use vstd::prelude::*;

verus! {

/// What a runner has to say.
#[derive(Debug, PartialEq, Eq)]
pub enum Notification {
    /// It is time to run.
    Fired,
    /// It stopped working, for this reason.
    Error(String),
    /// It works again.
    Recovered,
}

/// One notification, tagged with the task it came from.
#[derive(Debug, PartialEq, Eq)]
pub struct TriggerEvent {
    pub task_id: u128,
    pub notification: Notification,
}

/// How a (re)start went, for the card's trigger badge.
#[derive(Debug, PartialEq, Eq)]
pub struct TriggerStart {
    pub task_id: u128,
    /// The reason it will not run automatically, or `None` when it will.
    pub error: Option<String>,
}

/// What a running trigger was built from, so that a task edit that changed neither does not
/// needlessly tear down a watcher that is working.
#[derive(Debug, PartialEq, Eq)]
pub struct Running {
    pub trigger: Trigger,
    pub source_path: String,
}

/// What a [`Running`] says.
pub struct RunningView {
    pub trigger: TriggerView,
    pub source_path: Seq<char>,
}

impl View for Running {
    type V = RunningView;

    open spec fn view(&self) -> RunningView {
        RunningView { trigger: self.trigger@, source_path: self.source_path@ }
    }
}

/// What a task's trigger is built from.
pub open spec fn built_from(task: SyncTask) -> RunningView {
    RunningView { trigger: task.trigger@, source_path: task.source_path@ }
}

/// The live trigger runners, one per task.
#[derive(Debug)]
pub struct TriggerHost {
    running: HashMap<u128, Running>,
}

impl View for TriggerHost {
    type V = Map<u128, RunningView>;

    closed spec fn view(&self) -> Map<u128, RunningView> {
        self.running@.map_values(|r: Running| r@)
    }
}

/// A task of this identifier is in the list.
pub open spec fn is_live(tasks: Seq<SyncTask>, id: u128) -> bool {
    exists|i: int| 0 <= i < tasks.len() && (#[trigger] tasks[i]).id == id
}

/// The runners whose tasks are still here.
pub open spec fn kept(
    host: Map<u128, RunningView>,
    tasks: Seq<SyncTask>,
) -> Map<u128, RunningView> {
    host.restrict(Set::new(|id: u128| is_live(tasks, id)))
}

/// The task has no runner, or one built from something else.
pub open spec fn wants_restart(host: Map<u128, RunningView>, task: SyncTask) -> bool {
    !(host.contains_key(task.id) && host[task.id] == built_from(task))
}

/// The indices of the tasks, among the first `n`, whose runners have to be (re)started.
pub open spec fn restarts(host: Map<u128, RunningView>, tasks: Seq<SyncTask>, n: int) -> Seq<int>
    decreases n,
{
    if n <= 0 {
        Seq::empty()
    } else if wants_restart(host, tasks[n - 1]) {
        restarts(host, tasks, n - 1).push(n - 1)
    } else {
        restarts(host, tasks, n - 1)
    }
}

/// The runners after one (re)start: whatever ran before is gone, and what started runs.
pub open spec fn started(
    host: Map<u128, RunningView>,
    task: SyncTask,
    failed: bool,
) -> Map<u128, RunningView> {
    if failed {
        host.remove(task.id)
    } else {
        host.insert(task.id, built_from(task))
    }
}

/// The runners after the first `n` (re)starts.
pub open spec fn all_started(
    host: Map<u128, RunningView>,
    tasks: Seq<SyncTask>,
    order: Seq<int>,
    failures: Seq<Option<String>>,
    n: int,
) -> Map<u128, RunningView>
    decreases n,
{
    if n <= 0 {
        host
    } else {
        started(
            all_started(host, tasks, order, failures, n - 1),
            tasks[order[n - 1]],
            failures[n - 1] is Some,
        )
    }
}

/// What has to happen to bring the runners in line with the tasks.
#[derive(Debug, PartialEq, Eq)]
pub struct TriggerPlan {
    /// The runners to stop for good: their tasks are gone.
    pub stopping: Vec<u128>,
    /// The tasks to (re)start, as indices into the list, in order.
    pub restarting: Vec<usize>,
}

/// An executable list of indices as mathematical ones.
pub open spec fn as_ints(indices: Seq<usize>) -> Seq<int> {
    Seq::new(indices.len(), |i: int| indices[i] as int)
}

/// Restart indices are indices into the list.
pub proof fn lemma_restarts(host: Map<u128, RunningView>, tasks: Seq<SyncTask>, n: int)
    requires
        0 <= n <= tasks.len(),
    ensures
        restarts(host, tasks, n).len() <= n,
        forall|k: int|
            0 <= k < restarts(host, tasks, n).len() ==> 0 <= #[trigger] restarts(
                host,
                tasks,
                n,
            )[k] < n && wants_restart(host, tasks[restarts(host, tasks, n)[k]]),
        forall|i: int|
            0 <= i < n && wants_restart(host, #[trigger] tasks[i]) ==> restarts(
                host,
                tasks,
                n,
            ).contains(i),
    decreases n,
{
    if n > 0 {
        lemma_restarts(host, tasks, n - 1);
        let before = restarts(host, tasks, n - 1);
        let now = restarts(host, tasks, n);
        assert forall|i: int| 0 <= i < n && wants_restart(host, #[trigger] tasks[i]) implies
            now.contains(i) by {
            if i < n - 1 {
                let k = choose|k: int| 0 <= k < before.len() && before[k] == i;
                assert(now[k] == i);
            } else {
                assert(now[now.len() - 1] == i);
            }
        }
    }
}

/// A reason given for a failure.
pub open spec fn reason(error: Option<String>) -> Option<Seq<char>> {
    match error {
        Some(e) => Some(e@),
        None => None,
    }
}

fn copy_reason(error: &Option<String>) -> (r: Option<String>)
    ensures
        r == *error,
{
    match error {
        Some(e) => Some(e.clone()),
        None => None,
    }
}

fn contains_task(tasks: &Vec<SyncTask>, id: u128) -> (r: bool)
    ensures
        r == is_live(tasks@, id),
{
    let mut i: usize = 0;
    while i < tasks.len()
        invariant
            i <= tasks@.len(),
            forall|k: int| 0 <= k < i ==> (#[trigger] tasks@[k]).id != id,
        decreases tasks@.len() - i,
    {
        if tasks[i].id == id {
            return true;
        }
        i = i + 1;
    }
    false
}

impl TriggerHost {
    /// A host with nothing running.
    pub fn new() -> (r: Self)
        ensures
            r@ == Map::<u128, RunningView>::empty(),
    {
        broadcast use vstd::std_specs::hash::group_hash_axioms;

        let r = TriggerHost { running: HashMap::new() };
        proof {
            assert(r@ =~= Map::empty());
        }
        r
    }

    /// Whether a task's runner has to be (re)started.
    ///
    /// Where neither what it watches nor how changed, the runner that is working keeps working:
    /// restarting a watcher loses whatever quiet period it had accumulated.
    pub fn needs_restart(&self, task: &SyncTask) -> (r: bool)
        ensures
            r == wants_restart(self@, *task),
    {
        broadcast use vstd::std_specs::hash::group_hash_axioms;

        match self.running.get(&task.id) {
            Some(running) => !running.trigger.same(&task.trigger) || !same_text(
                running.source_path.as_str(),
                task.source_path.as_str(),
            ),
            None => true,
        }
    }

    /// What has to be stopped and (re)started to bring the runners in line with the tasks.
    pub fn plan(&self, tasks: &Vec<SyncTask>) -> (r: TriggerPlan)
        ensures
            r.stopping@.no_duplicates(),
            forall|id: u128|
                #[trigger] r.stopping@.contains(id) <==> self@.contains_key(id) && !is_live(
                    tasks@,
                    id,
                ),
            as_ints(r.restarting@) == restarts(self@, tasks@, tasks@.len() as int),
    {
        broadcast use vstd::std_specs::hash::group_hash_axioms;

        let mut stopping: Vec<u128> = Vec::new();
        let ghost all = self.running@.dom();
        for id in it: self.running.keys()
            invariant
                all == self.running@.dom(),
                it.seq().unref().to_set() == all,
                it.seq().unref().no_duplicates(),
                stopping@.no_duplicates(),
                forall|x: u128|
                    #[trigger] stopping@.contains(x) <==> it.seq().unref().take(
                        it.index() as int,
                    ).contains(x) && !is_live(tasks@, x),
                it.seq().unref().take(it.seq().len() as int) == it.seq().unref(),
        {
            let ghost walked = it.seq().unref();
            let ghost i = it.index() as int;
            let ghost before = stopping@;
            proof {
                assert(walked.take(i + 1) =~= walked.take(i).push(*id));
                assert(!walked.take(i).contains(*id));
                assert forall|x: u128| walked.take(i + 1).contains(x) <==> (walked.take(i).contains(
                    x,
                ) || x == *id) by {
                    vstd::seq_lib::lemma_seq_contains_after_push(walked.take(i), *id, x);
                }
            }
            if !contains_task(tasks, *id) {
                stopping.push(*id);
                proof {
                    assert(!before.contains(*id));
                    assert forall|a: int, b: int|
                        0 <= a < stopping@.len() && 0 <= b < stopping@.len() && a
                            != b implies stopping@[a] != stopping@[b] by {
                        if a < before.len() {
                            assert(before.contains(before[a]));
                        }
                        if b < before.len() {
                            assert(before.contains(before[b]));
                        }
                    }
                    assert forall|x: u128| #[trigger] stopping@.contains(x) <==> (before.contains(x)
                        || x == *id) by {
                        vstd::seq_lib::lemma_seq_contains_after_push(before, *id, x);
                    }
                }
            }
        }
        let mut restarting: Vec<usize> = Vec::new();
        let mut i: usize = 0;
        proof {
            assert(as_ints(restarting@) =~= Seq::empty());
        }
        while i < tasks.len()
            invariant
                i <= tasks@.len(),
                as_ints(restarting@) == restarts(self@, tasks@, i as int),
            decreases tasks@.len() - i,
        {
            if self.needs_restart(&tasks[i]) {
                proof {
                    assert(as_ints(restarting@.push(i)) =~= as_ints(restarting@).push(i as int));
                }
                restarting.push(i);
            }
            i = i + 1;
        }
        proof {
            assert forall|id: u128| #[trigger] stopping@.contains(id) <==> self@.contains_key(id)
                && !is_live(tasks@, id) by {
                assert(all.contains(id) <==> self@.contains_key(id));
            }
        }
        TriggerPlan { stopping, restarting }
    }

    /// Forgets the runners of tasks that are gone.
    fn forget_gone(&mut self, tasks: &Vec<SyncTask>)
        ensures
            final(self)@ == kept(old(self)@, tasks@),
    {
        broadcast use vstd::std_specs::hash::group_hash_axioms;

        let ghost before = self.running@;
        let mut left: HashMap<u128, Running> = HashMap::new();
        std::mem::swap(&mut left, &mut self.running);
        let mut i: usize = 0;
        while i < tasks.len()
            invariant
                i <= tasks@.len(),
                left@ == before.remove_keys(Set::new(|id: u128| is_live(tasks@.take(i as int), id))),
                self.running@ == before.restrict(
                    Set::new(|id: u128| is_live(tasks@.take(i as int), id)),
                ),
            decreases tasks@.len() - i,
        {
            let id: u128 = tasks[i].id;
            proof {
                let now = tasks@.take(i as int);
                let next = tasks@.take(i + 1);
                assert forall|x: u128| is_live(next, x) <==> (is_live(now, x) || x == id) by {
                    if is_live(now, x) {
                        let k = choose|k: int| 0 <= k < now.len() && (#[trigger] now[k]).id == x;
                        assert(next[k].id == x);
                    }
                    if x == id {
                        assert(next[i as int].id == x);
                    }
                    if is_live(next, x) {
                        let k = choose|k: int| 0 <= k < next.len() && (#[trigger] next[k]).id == x;
                        if k < i {
                            assert(now[k].id == x);
                        }
                    }
                }
            }
            match left.remove(&id) {
                Some(running) => {
                    self.running.insert(id, running);
                },
                None => {},
            }
            i = i + 1;
            proof {
                assert(left@ =~= before.remove_keys(
                    Set::new(|id: u128| is_live(tasks@.take(i as int), id)),
                ));
                assert(self.running@ =~= before.restrict(
                    Set::new(|id: u128| is_live(tasks@.take(i as int), id)),
                ));
            }
        }
        proof {
            assert(tasks@.take(tasks@.len() as int) =~= tasks@);
            assert(self@ =~= kept(old(self)@, tasks@));
        }
    }

    /// Records one (re)start.
    fn record(&mut self, task: &SyncTask, failed: bool)
        ensures
            final(self)@ == started(old(self)@, *task, failed),
    {
        broadcast use vstd::std_specs::hash::group_hash_axioms;

        if failed {
            self.running.remove(&task.id);
        } else {
            self.running.insert(
                task.id,
                Running {
                    trigger: task.trigger.copy(),
                    source_path: task.source_path.clone(),
                },
            );
        }
        proof {
            assert(self@ =~= started(old(self)@, *task, failed));
        }
    }

    /// Brings the records in line with the tasks, once the plan has been carried out. `failures`
    /// says, for each task of the plan, why it would not start, if it would not.
    ///
    /// Returns one entry per task that was (re)started, so the caller can set or clear that
    /// task's badge and leave every other task's alone.
    pub fn reconcile(
        &mut self,
        tasks: &Vec<SyncTask>,
        failures: &Vec<Option<String>>,
    ) -> (r: Vec<TriggerStart>)
        requires
            failures@.len() == restarts(old(self)@, tasks@, tasks@.len() as int).len(),
        ensures
            final(self)@ == all_started(
                kept(old(self)@, tasks@),
                tasks@,
                restarts(old(self)@, tasks@, tasks@.len() as int),
                failures@,
                failures@.len() as int,
            ),
            r@.len() == failures@.len(),
            forall|k: int|
                0 <= k < r@.len() ==> (#[trigger] r@[k]) == (TriggerStart {
                    task_id: tasks@[restarts(old(self)@, tasks@, tasks@.len() as int)[k]].id,
                    error: failures@[k],
                }),
    {
        let plan = self.plan(tasks);
        let ghost order = restarts(old(self)@, tasks@, tasks@.len() as int);
        let ghost base = kept(old(self)@, tasks@);
        proof {
            lemma_restarts(old(self)@, tasks@, tasks@.len() as int);
        }
        self.forget_gone(tasks);
        let mut out: Vec<TriggerStart> = Vec::new();
        let mut k: usize = 0;
        while k < failures.len()
            invariant
                k <= failures@.len(),
                failures@.len() == order.len(),
                as_ints(plan.restarting@) == order,
                forall|j: int| 0 <= j < order.len() ==> 0 <= #[trigger] order[j] < tasks@.len(),
                self@ == all_started(base, tasks@, order, failures@, k as int),
                out@.len() == k,
                forall|j: int|
                    0 <= j < k ==> (#[trigger] out@[j]) == (TriggerStart {
                        task_id: tasks@[order[j]].id,
                        error: failures@[j],
                    }),
            decreases failures@.len() - k,
        {
            proof {
                assert(order[k as int] == plan.restarting@[k as int]);
            }
            let index: usize = plan.restarting[k];
            let failed = failures[k].is_some();
            self.record(&tasks[index], failed);
            out.push(TriggerStart { task_id: tasks[index].id, error: copy_reason(&failures[k]) });
            k = k + 1;
        }
        out
    }

    /// Forgets one task's trigger, for a task being deleted. True when there was one to stop.
    pub fn stop(&mut self, task_id: u128) -> (r: bool)
        ensures
            r == old(self)@.contains_key(task_id),
            final(self)@ == old(self)@.remove(task_id),
    {
        broadcast use vstd::std_specs::hash::group_hash_axioms;

        let r = self.running.remove(&task_id).is_some();
        proof {
            assert(self@ =~= old(self)@.remove(task_id));
        }
        r
    }

    /// Forgets everything, for shutdown. Returns the runners to stop.
    pub fn stop_all(&mut self) -> (r: Vec<u128>)
        ensures
            final(self)@ == Map::<u128, RunningView>::empty(),
            r@.no_duplicates(),
            forall|id: u128| #[trigger] r@.contains(id) <==> old(self)@.contains_key(id),
    {
        broadcast use vstd::std_specs::hash::group_hash_axioms;

        let none: Vec<SyncTask> = Vec::new();
        let plan = self.plan(&none);
        self.running = HashMap::new();
        proof {
            assert(self@ =~= Map::empty());
            assert forall|id: u128| #[trigger] plan.stopping@.contains(id) <==> old(
                self,
            )@.contains_key(id) by {
                assert(!is_live(none@, id));
            }
        }
        plan.stopping
    }
}

/// The tasks have identifiers of their own.
pub open spec fn distinct(tasks: Seq<SyncTask>) -> bool {
    forall|i: int, j: int|
        0 <= i < j < tasks.len() ==> (#[trigger] tasks[i]).id != (#[trigger] tasks[j]).id
}

/// What a task has running after the first `n` (re)starts.
pub proof fn lemma_all_started(
    host: Map<u128, RunningView>,
    tasks: Seq<SyncTask>,
    order: Seq<int>,
    failures: Seq<Option<String>>,
    n: int,
    i: int,
)
    requires
        distinct(tasks),
        0 <= n <= order.len(),
        order.len() == failures.len(),
        forall|k: int| 0 <= k < order.len() ==> 0 <= #[trigger] order[k] < tasks.len(),
        order.no_duplicates(),
        0 <= i < tasks.len(),
    ensures
        ({
            let after = all_started(host, tasks, order, failures, n);
            if exists|k: int| 0 <= k < n && #[trigger] order[k] == i {
                let k = choose|k: int| 0 <= k < n && #[trigger] order[k] == i;
                if failures[k] is Some {
                    !after.contains_key(tasks[i].id)
                } else {
                    after.contains_key(tasks[i].id) && after[tasks[i].id] == built_from(tasks[i])
                }
            } else {
                after.contains_key(tasks[i].id) == host.contains_key(tasks[i].id)
                    && after[tasks[i].id] == host[tasks[i].id]
            }
        }),
    decreases n,
{
    if n > 0 {
        lemma_all_started(host, tasks, order, failures, n - 1, i);
        let last = order[n - 1];
        if last == i {
            let k = choose|k: int| 0 <= k < n && #[trigger] order[k] == i;
            assert(k == n - 1);
        } else {
            assert(tasks[last].id != tasks[i].id);
            if exists|k: int| 0 <= k < n && #[trigger] order[k] == i {
                let k = choose|k: int| 0 <= k < n && #[trigger] order[k] == i;
                assert(k != n - 1);
                let k2 = choose|k: int| 0 <= k < n - 1 && #[trigger] order[k] == i;
                assert(order[k2] == order[k]);
            }
        }
    }
}

/// Restart indices rise, so none occurs twice.
pub proof fn lemma_restarts_rise(host: Map<u128, RunningView>, tasks: Seq<SyncTask>, n: int)
    requires
        0 <= n <= tasks.len(),
    ensures
        forall|a: int, b: int|
            0 <= a < b < restarts(host, tasks, n).len() ==> #[trigger] restarts(host, tasks, n)[a]
                < #[trigger] restarts(host, tasks, n)[b],
        restarts(host, tasks, n).no_duplicates(),
    decreases n,
{
    lemma_restarts(host, tasks, n);
    if n > 0 {
        lemma_restarts_rise(host, tasks, n - 1);
        lemma_restarts(host, tasks, n - 1);
    }
}

/// Once every runner has started, an unchanged task keeps the runner it has: reconciling again
/// with tasks that want the same (re)starts nothing. A task whose runner would not start is
/// tried again.
pub proof fn law_an_unchanged_task_keeps_its_runner(
    host: Map<u128, RunningView>,
    tasks: Seq<SyncTask>,
    failures: Seq<Option<String>>,
    i: int,
)
    requires
        distinct(tasks),
        failures.len() == restarts(host, tasks, tasks.len() as int).len(),
        0 <= i < tasks.len(),
    ensures
        ({
            let order = restarts(host, tasks, tasks.len() as int);
            let after = all_started(
                kept(host, tasks),
                tasks,
                order,
                failures,
                failures.len() as int,
            );
            wants_restart(after, tasks[i]) <==> exists|k: int|
                0 <= k < order.len() && #[trigger] order[k] == i && failures[k] is Some
        }),
{
    let n = tasks.len() as int;
    let order = restarts(host, tasks, n);
    let base = kept(host, tasks);
    lemma_restarts(host, tasks, n);
    lemma_restarts_rise(host, tasks, n);
    lemma_all_started(base, tasks, order, failures, order.len() as int, i);
    assert(is_live(tasks, tasks[i].id));
    let after = all_started(base, tasks, order, failures, failures.len() as int);
    if exists|k: int| 0 <= k < order.len() && #[trigger] order[k] == i {
        let k = choose|k: int| 0 <= k < order.len() && #[trigger] order[k] == i;
        if exists|j: int| 0 <= j < order.len() && #[trigger] order[j] == i && failures[j] is Some {
            let j = choose|j: int|
                0 <= j < order.len() && #[trigger] order[j] == i && failures[j] is Some;
            assert(j == k);
        }
    } else {
        assert(!wants_restart(host, tasks[i])) by {
            if wants_restart(host, tasks[i]) {
                assert(order.contains(i));
                let k = choose|k: int| 0 <= k < order.len() && order[k] == i;
                assert(order[k] == i);
            }
        }
        assert(base.contains_key(tasks[i].id));
    }
}

} // verus!
