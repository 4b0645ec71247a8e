//! Nothing is lost between a value and what is said of it.

use crate::model;
use crate::model::{
    AppSettings, Destination, DestinationDefaults, DestinationSyncStatus, DestinationView,
    SyncOutcome, SyncStrategy, SyncTask, Trigger, TriggerView,
};
use crate::rules;
use crate::rules::{FilterRule, RuleView};
use vstd::prelude::*;

verus! {

/// A trigger's kind, its cron expression and its quiet period all tell two triggers apart.
pub proof fn law_a_trigger_is_told_apart_by_all_it_says(one: Trigger, other: Trigger)
    ensures
        one@ == other@ <==> match (one, other) {
            (Trigger::Manual, Trigger::Manual) => true,
            (
                Trigger::Scheduled { cron_expression: a },
                Trigger::Scheduled { cron_expression: b },
            ) => a@ == b@,
            (Trigger::Watch { settle_seconds: a }, Trigger::Watch { settle_seconds: b }) => a == b,
            _ => false,
        },
        one is Manual <==> one@ is Manual,
        one matches Trigger::Scheduled { cron_expression } ==> one@ == TriggerView::Scheduled(
            cron_expression@,
        ),
        one matches Trigger::Watch { settle_seconds } ==> one@ == TriggerView::Watch(
            settle_seconds as int,
        ),
{
}

/// What is said of a destination is what it holds, field by field.
pub proof fn law_a_destination_says_what_it_holds(destination: Destination)
    ensures
        destination@.id == destination.id,
        destination@.name == destination.name@,
        destination@.path == destination.path@,
        destination@.strategy == destination.strategy,
        destination@.verify_contents == destination.verify_contents,
        destination@.delete_mode == destination.delete_mode,
        destination@.flatten_structure == destination.flatten_structure,
        destination@.collision_policy == destination.collision_policy,
        destination@.mass_delete_threshold == destination.mass_delete_threshold,
        destination@.filters.len() == destination.filters@.len(),
        forall|i: int|
            0 <= i < destination.filters@.len() ==> #[trigger] destination@.filters[i]
                == destination.filters@[i]@,
{
}

/// What is said of a task is what it holds, field by field.
pub proof fn law_a_task_says_what_it_holds(task: SyncTask)
    ensures
        task@.id == task.id,
        task@.name == task.name@,
        task@.source_path == task.source_path@,
        task@.trigger == task.trigger@,
        task@.kind == task.kind,
        task@.destinations.len() == task.destinations@.len(),
        forall|i: int|
            0 <= i < task.destinations@.len() ==> #[trigger] task@.destinations[i]
                == task.destinations@[i]@,
{
}

/// What is said of a list is said of each of it, in order.
pub proof fn law_a_list_says_what_each_of_it_says(
    tasks: Seq<SyncTask>,
    destinations: Seq<Destination>,
    filters: Seq<FilterRule>,
)
    ensures
        model::task_views(tasks).len() == tasks.len(),
        forall|i: int| 0 <= i < tasks.len() ==> #[trigger] model::task_views(tasks)[i] == tasks[i]@,
        model::destination_views(destinations).len() == destinations.len(),
        forall|i: int|
            0 <= i < destinations.len() ==> #[trigger] model::destination_views(destinations)[i]
                == destinations[i]@,
        rules::rule_views(filters).len() == filters.len(),
        forall|i: int|
            0 <= i < filters.len() ==> #[trigger] rules::rule_views(filters)[i] == filters[i]@,
{
}

/// What is said of a rule is its kind and what it holds, all the way down.
pub proof fn law_a_rule_says_its_kind_and_what_it_holds(rule: FilterRule)
    ensures
        match rule {
            FilterRule::AllFiles => rule@ == RuleView::AllFiles,
            FilterRule::Path(folder) => rule@ == RuleView::Path(folder@),
            FilterRule::Extension(extension) => rule@ == RuleView::Extension(extension@),
            FilterRule::Wildcard(pattern) => rule@ == RuleView::Wildcard(pattern@),
            FilterRule::Not(inner) => rule@ == RuleView::Not(Box::new((*inner)@)),
            FilterRule::AllOf(inner) => rule@ matches RuleView::AllOf(views) && views.len()
                == inner@.len() && forall|i: int|
                0 <= i < views.len() ==> #[trigger] views[i] == inner@[i]@,
            FilterRule::AnyOf(inner) => rule@ matches RuleView::AnyOf(views) && views.len()
                == inner@.len() && forall|i: int|
                0 <= i < views.len() ==> #[trigger] views[i] == inner@[i]@,
        },
{
    match rule {
        FilterRule::AllOf(inner) => {
            rules::lemma_composite_view(inner);
        },
        FilterRule::AnyOf(inner) => {
            rules::lemma_composite_view(inner);
        },
        _ => {},
    }
}

/// A new destination holds what it was given, and the settings new ones begin with.
pub proof fn law_a_new_destination_holds_what_it_was_given(
    id: u128,
    name: Seq<char>,
    path: Seq<char>,
    filters: Seq<RuleView>,
    strategy: SyncStrategy,
    defaults: DestinationDefaults,
)
    ensures
        ({
            let new = DestinationView::fresh(id, name, path, filters, strategy, defaults);
            &&& new.id == id
            &&& new.name == name
            &&& new.path == path
            &&& new.filters == filters
            &&& new.strategy == strategy
            &&& new.verify_contents == defaults.verify_contents
            &&& new.delete_mode == defaults.delete_mode
            &&& new.flatten_structure == defaults.flatten_structure
            &&& new.collision_policy == defaults.collision_policy
            &&& new.mass_delete_threshold == defaults.mass_delete_threshold
        }),
{
}

/// A destination takes all files exactly when the one rule for every file is all it has.
pub proof fn law_taking_all_files_is_having_that_rule_alone(destination: DestinationView)
    ensures
        destination.takes_all_files() <==> destination.filters == seq![RuleView::AllFiles],
{
    if destination.takes_all_files() {
        assert(destination.filters =~= seq![RuleView::AllFiles]);
    }
}

/// A plain status reports nothing but whose it is and how it ended.
pub proof fn law_a_plain_status_reports_its_outcome_alone(id: u128, outcome: SyncOutcome)
    ensures
        ({
            let status = DestinationSyncStatus::plain(id, outcome);
            &&& status.destination_id == id
            &&& status.outcome == outcome
            &&& status.files_copied == 0
            &&& status.files_deferred == 0
            &&& status.error is None
            &&& status.last_run is None
        }),
{
}

/// What is said of the settings is what they hold, field by field.
pub proof fn law_the_settings_say_what_they_hold(settings: AppSettings)
    ensures
        settings@.close_to_tray == settings.close_to_tray,
        settings@.start_minimized == settings.start_minimized,
        settings@.language is Some <==> settings.language is Some,
        settings.language matches Some(tag) ==> settings@.language == Some(tag@),
{
}

} // verus!
