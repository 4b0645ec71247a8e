//! The file selection: what is stored, what is shown, and that the two agree.

use syncmaid::rules::FilterRule;
use syncmaid::state::filters::{FilterEntry, FilterGroup, FilterKind, FilterModel, Summary};

fn path(pattern: &str) -> FilterEntry {
    FilterEntry::new(FilterKind::Path, pattern)
}

fn extension(pattern: &str) -> FilterEntry {
    FilterEntry::new(FilterKind::Extension, pattern)
}

fn only(groups: Vec<FilterGroup>) -> FilterModel {
    FilterModel { all_files: false, match_all_groups: false, groups, opaque: Vec::new() }
}

#[test]
fn all_files_round_trips_as_the_lone_all_rule() {
    let model = FilterModel::all();

    assert_eq!(vec![FilterRule::AllFiles], model.to_rules());
    assert_eq!(model, FilterModel::of(&model.to_rules()));
    assert_eq!("Syncs: all files", model.describe());
}

#[test]
fn a_single_rule_persists_bare_the_way_it_always_did() {
    let model = only(vec![FilterGroup::any(vec![extension("jpg")])]);

    assert_eq!(
        vec![FilterRule::extension("jpg")],
        model.to_rules(),
        "a simple config keeps the shape older versions wrote"
    );
    assert_eq!(model, FilterModel::of(&model.to_rules()));
}

#[test]
fn several_bare_rules_are_the_flat_lists_own_or() {
    let model = only(vec![
        FilterGroup::any(vec![extension("jpg")]),
        FilterGroup::any(vec![extension("png")]),
    ]);

    assert_eq!(
        vec![FilterRule::extension("jpg"), FilterRule::extension("png")],
        model.to_rules()
    );
    assert_eq!("Syncs: jpg or png", model.describe());
}

#[test]
fn a_group_of_several_rules_wraps_in_any_or_all() {
    let any = only(vec![FilterGroup::any(vec![path("docs"), path("photos")])]);
    let all = only(vec![FilterGroup::all(vec![path("docs"), extension("pdf")])]);

    assert_eq!(
        vec![FilterRule::any_of(vec![FilterRule::path("docs"), FilterRule::path("photos")])],
        any.to_rules()
    );
    assert_eq!(
        vec![FilterRule::all_of(vec![FilterRule::path("docs"), FilterRule::extension("pdf")])],
        all.to_rules()
    );
    assert_eq!(any, FilterModel::of(&any.to_rules()));
    assert_eq!(all, FilterModel::of(&all.to_rules()));
}

#[test]
fn matching_all_groups_wraps_the_lot_and_round_trips() {
    let model = FilterModel {
        all_files: false,
        match_all_groups: true,
        groups: vec![
            FilterGroup::any(vec![path("docs"), path("photos")]),
            FilterGroup::any(vec![extension("jpg")]),
        ],
        opaque: Vec::new(),
    };

    let rules = model.to_rules();
    assert_eq!(1, rules.len());
    assert_eq!(model, FilterModel::of(&rules));
    assert_eq!("Syncs: (docs/ or photos/) and jpg", model.describe());
}

#[test]
fn an_exclude_becomes_a_not_and_reads_back() {
    let model = only(vec![FilterGroup::all(vec![path("docs"), extension("tmp").excluded()])]);

    assert_eq!(
        vec![FilterRule::all_of(vec![
            FilterRule::path("docs"),
            FilterRule::not(FilterRule::extension("tmp")),
        ])],
        model.to_rules()
    );
    assert_eq!(model, FilterModel::of(&model.to_rules()));
    assert_eq!("Syncs: docs/ and not tmp", model.describe());
}

#[test]
fn a_lone_all_of_is_read_by_what_its_children_are() {
    // The two shapes persist identically and mean the same thing, so the read-back has to pick
    // one. All-bare children are the commoner "one group, ANDed" shape; a composite child can
    // only have come from a group, so it means several groups.
    let bare =
        vec![FilterRule::all_of(vec![FilterRule::path("docs"), FilterRule::extension("pdf")])];
    let nested = vec![FilterRule::all_of(vec![
        FilterRule::any_of(vec![FilterRule::path("docs"), FilterRule::path("photos")]),
        FilterRule::extension("jpg"),
    ])];

    let one_group = FilterModel::of(&bare);
    assert!(!one_group.match_all_groups);
    assert_eq!(1, one_group.groups.len());
    assert!(one_group.groups[0].match_all);

    let several = FilterModel::of(&nested);
    assert!(several.match_all_groups);
    assert_eq!(2, several.groups.len());

    // Whichever way each is read, saving it puts the same rules back.
    assert_eq!(bare, one_group.to_rules());
    assert_eq!(nested, several.to_rules());
}

#[test]
fn a_legacy_flat_list_loads_as_one_group_per_rule() {
    let legacy = vec![FilterRule::extension("jpg"), FilterRule::path("photos")];

    let model = FilterModel::of(&legacy);

    assert!(!model.all_files);
    assert_eq!(2, model.groups.len());
    assert_eq!(legacy, model.to_rules(), "loading and saving changes nothing");
}

#[test]
fn nesting_the_editor_cannot_draw_is_carried_through_untouched() {
    // Only a hand-edited tasks.json produces this.
    let deep = vec![FilterRule::any_of(vec![FilterRule::all_of(vec![
        FilterRule::extension("jpg"),
        FilterRule::path("photos"),
    ])])];

    let model = FilterModel::of(&deep);

    assert!(!model.opaque.is_empty(), "the editor recognises it cannot draw this");
    assert_eq!(
        deep,
        model.to_rules(),
        "saving must not rewrite what the user asked for into something else"
    );
    assert!(model.describe().contains("can't show"));
}

#[test]
fn a_double_negation_counts_as_something_the_editor_cannot_draw() {
    let doubled = vec![FilterRule::not(FilterRule::not(FilterRule::extension("tmp")))];

    let model = FilterModel::of(&doubled);

    assert_eq!(doubled, model.to_rules());
}

#[test]
fn no_rules_at_all_says_so_and_blocks_the_save() {
    let empty = only(vec![FilterGroup::any(Vec::new())]);

    assert_eq!("No rules yet — nothing will be synced.", empty.describe());
    assert!(empty.selects_nothing());
    assert!(empty.to_rules().is_empty());
    assert!(!FilterModel::all().selects_nothing());
}

#[test]
fn a_path_rule_reads_with_its_trailing_slash_once() {
    assert_eq!("docs/", path("docs").describe());
    assert_eq!("docs/", path("docs/").describe());
}

#[test]
fn saving_twice_is_saving_once() {
    let rules = vec![
        FilterRule::any_of(vec![FilterRule::path("a"), FilterRule::wildcard("*.b")]),
        FilterRule::not(FilterRule::extension("c")),
    ];
    let once = FilterModel::of(&rules).to_rules();
    assert_eq!(rules, once);
    assert_eq!(once, FilterModel::of(&once).to_rules());
}

#[test]
fn a_group_of_one_saves_without_its_wrapper() {
    let rules = vec![FilterRule::all_of(vec![FilterRule::extension("x")])];
    let saved = FilterModel::of(&rules).to_rules();
    assert_eq!(vec![FilterRule::extension("x")], saved);
    assert_eq!(saved, FilterModel::of(&saved).to_rules());
}

#[test]
fn a_selection_has_words_of_its_own() {
    let any = FilterModel::of(&vec![FilterRule::wildcard("*.tmp")]);
    assert_eq!(Summary::Selection("*.tmp".to_owned()), any.summary());
    assert_eq!("*.tmp", any.summary().text());
    assert_eq!(Summary::Nothing, only(vec![]).summary());
    assert_eq!(
        (FilterKind::Wildcard, 2),
        (FilterKind::from_index(2), FilterKind::Wildcard.index())
    );
}
