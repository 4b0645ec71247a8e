//! Which rule of a list hides which.

use syncmaid::model::{
    DeleteMode, Destination, DestinationDefaults, FileNameCollisionPolicy, SyncStrategy,
};
use syncmaid::rules::FilterRule;
use syncmaid::state::routing::subsumes;

fn rule(filters: Vec<FilterRule>) -> Destination {
    let defaults = DestinationDefaults {
        verify_contents: false,
        delete_mode: DeleteMode::Recycle,
        flatten_structure: false,
        collision_policy: FileNameCollisionPolicy::Skip,
        mass_delete_threshold: 0,
    };
    Destination::new(1, "R", r"D:\r", filters, SyncStrategy::Move, &defaults)
}

#[test]
fn an_all_files_rule_hides_everything_after_it() {
    assert!(subsumes(
        &rule(vec![FilterRule::AllFiles]),
        &rule(vec![FilterRule::extension("pdf")])
    ));
}

#[test]
fn a_shorter_extension_covers_a_longer_one_but_only_at_a_dot() {
    assert!(subsumes(
        &rule(vec![FilterRule::extension("gz")]),
        &rule(vec![FilterRule::extension("tar.gz")])
    ));
    assert!(
        !subsumes(
            &rule(vec![FilterRule::extension("gz")]),
            &rule(vec![FilterRule::extension("targz")])
        ),
        "'targz' is a different type, not a longer form of 'gz'"
    );
}

#[test]
fn an_ancestor_folder_covers_what_is_under_it() {
    assert!(subsumes(
        &rule(vec![FilterRule::path("photos")]),
        &rule(vec![FilterRule::path("Photos/2024")])
    ));
    assert!(!subsumes(
        &rule(vec![FilterRule::path("photos/2024")]),
        &rule(vec![FilterRule::path("photos")])
    ));
    assert!(
        !subsumes(
            &rule(vec![FilterRule::path("photo")]),
            &rule(vec![FilterRule::path("photos")])
        ),
        "a prefix of a folder's name is not an ancestor of it"
    );
}

#[test]
fn a_folder_and_a_file_type_never_cover_each_other() {
    assert!(!subsumes(
        &rule(vec![FilterRule::path("invoices")]),
        &rule(vec![FilterRule::extension("pdf")])
    ));
    assert!(!subsumes(
        &rule(vec![FilterRule::extension("pdf")]),
        &rule(vec![FilterRule::path("invoices")])
    ));
}

#[test]
fn every_leaf_of_the_later_rule_has_to_be_covered() {
    let earlier = rule(vec![FilterRule::extension("jpg")]);
    assert!(subsumes(&earlier, &rule(vec![FilterRule::extension("jpg")])));
    assert!(
        !subsumes(&earlier, &rule(vec![FilterRule::extension("jpg"), FilterRule::path("raw")])),
        "the later rule still reaches raw/, so it is not hidden"
    );
}

#[test]
fn a_shape_the_analysis_cannot_read_stays_quiet() {
    // Not "these do not overlap" but "no proof either way", which is the only honest answer for a
    // composite the editor never writes.
    let earlier = rule(vec![FilterRule::any_of(vec![FilterRule::extension("jpg")])]);
    assert!(!subsumes(&earlier, &rule(vec![FilterRule::extension("jpg")])));
    assert!(!subsumes(
        &rule(vec![FilterRule::extension("jpg")]),
        &rule(vec![FilterRule::wildcard("**/*.jpg")])
    ));
}

#[test]
fn a_rule_that_selects_nothing_is_not_reported_as_hidden() {
    // It is unreachable for its own reasons, and blaming the rule above it would send the user off
    // to change the wrong thing.
    assert!(!subsumes(&rule(vec![FilterRule::extension("pdf")]), &rule(vec![])));
}
