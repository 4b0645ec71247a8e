//! Where each file of the source would go.

use std::collections::HashMap;

use syncmaid::state::chips::{extensions, scan};
use syncmaid::state::preview::{
    extension, sample_of, Assignment, ContestedFile, ExtensionChip, Routing,
};

fn texts(list: &[&str]) -> Vec<String> {
    list.iter().map(|s| s.to_string()).collect()
}

const INVOICES: u128 = 1;
const PDFS: u128 = 2;

#[test]
fn a_move_preview_gives_each_file_to_the_first_rule_that_wants_it() {
    let files = texts(&["invoices/march.pdf", "notes/read.pdf", "photo.jpg"]);
    let assignment = Assignment::Routed(Routing {
        assigned: vec![texts(&["invoices/march.pdf"]), texts(&["notes/read.pdf"])],
        unmatched: texts(&["photo.jpg"]),
        contested: vec![ContestedFile {
            relative_path: "invoices/march.pdf".to_owned(),
            rules: vec![0, 1],
        }],
    });

    let scan = scan(Ok(files), &vec![INVOICES, PDFS], &assignment).expect("scan the source");

    assert_eq!(3, scan.file_count);
    assert_eq!(1, scan.per_destination[&INVOICES].count);
    assert_eq!(1, scan.per_destination[&PDFS].count, "march.pdf is taken");
    assert_eq!(1, scan.unmatched.count);
    assert_eq!(vec!["photo.jpg".to_owned()], scan.unmatched.sample);
}

#[test]
fn a_contested_file_is_reported_with_every_rule_that_wanted_it() {
    let files = texts(&["invoices/march.pdf"]);
    let assignment = Assignment::Routed(Routing {
        assigned: vec![texts(&["invoices/march.pdf"]), vec![]],
        unmatched: vec![],
        contested: vec![ContestedFile {
            relative_path: "invoices/march.pdf".to_owned(),
            rules: vec![0, 1],
        }],
    });

    let scan = scan(Ok(files), &vec![INVOICES, PDFS], &assignment).expect("scan the source");

    assert_eq!(
        vec![ContestedFile { relative_path: "invoices/march.pdf".into(), rules: vec![0, 1] }],
        scan.contested,
        "the order resolved it; seeing which rule won is the whole point"
    );
}

#[test]
fn sync_destinations_are_independent_so_one_file_can_reach_several() {
    let (jpgs, photos) = (1, 2);
    let files = texts(&["photos/a.jpg", "notes.txt"]);
    let assignment = Assignment::Wanted(vec![vec![true, true], vec![false, false]]);

    let scan = scan(Ok(files), &vec![jpgs, photos], &assignment).expect("scan the source");

    assert_eq!(1, scan.per_destination[&jpgs].count);
    assert_eq!(1, scan.per_destination[&photos].count);
    assert_eq!(1, scan.unmatched.count, "notes.txt reaches neither");
    assert!(scan.contested.is_empty(), "nothing is contested when nothing competes");
}

#[test]
fn extension_chips_are_commonest_first_and_fold_case() {
    let files = texts(&["a.JPG", "b.jpg", "c.txt", "README", "d.tar.gz"]);
    let assignment = Assignment::Wanted(vec![vec![]; 5]);

    let scan = scan(Ok(files), &vec![], &assignment).expect("scan the source");
    let labels: Vec<_> = scan.extensions.iter().map(|chip| chip.label().to_lowercase()).collect();

    assert_eq!(
        vec!["jpg (2)".to_owned(), "gz (1)".to_owned(), "txt (1)".to_owned()],
        labels,
        "an extensionless file offers no rule to pick"
    );
}

#[test]
fn a_source_that_cannot_be_read_is_an_error_rather_than_an_empty_preview() {
    // An empty preview would read as "no files match your rules", which is a different thing
    // entirely and would send the user off to rewrite rules that are fine.
    let assignment = Assignment::Wanted(vec![]);
    assert_eq!(
        Err("no such folder".to_owned()),
        scan(Err("no such folder".to_owned()), &vec![], &assignment).map(|_| ())
    );
}

#[test]
fn a_sample_is_the_first_few_and_the_count_is_all() {
    let many: Vec<String> = (0..20).map(|n| format!("f{n}")).collect();
    assert_eq!(many[..8].to_vec(), sample_of(&many));
    let assignment = Assignment::Wanted(vec![vec![true]; 20]);
    let found = scan(Ok(many), &vec![9], &assignment).expect("scan the source");
    assert_eq!(20, found.per_destination[&9].count);
    assert_eq!(8, found.per_destination[&9].sample.len());
    assert_eq!(0, found.unmatched.count);
}

#[test]
fn an_extension_is_what_follows_the_last_dot_of_the_name() {
    assert_eq!(Some("gz".to_owned()), extension("a/b.tar.gz"));
    assert_eq!(None, extension("a.b/README"));
    assert_eq!(None, extension("trailing."));
}

#[test]
fn only_the_commonest_dozen_types_are_offered() {
    let mut files = texts(&["x.aa", "y.aa"]);
    for n in 0..20 {
        files.push(format!("f.e{n:02}"));
    }
    let chips = extensions(&files);
    assert_eq!(12, chips.len());
    assert_eq!(ExtensionChip { extension: "aa".to_owned(), count: 2 }, chips[0]);
    assert_eq!("e00", chips[1].extension);
    assert_eq!("e10", chips[11].extension);
}

#[test]
fn two_rows_for_one_destination_keep_the_later_share() {
    let assignment = Assignment::Routed(Routing {
        assigned: vec![texts(&["a"]), texts(&["b", "c"])],
        unmatched: vec![],
        contested: vec![],
    });
    let found = scan(Ok(texts(&["a", "b", "c"])), &vec![5, 5], &assignment).expect("scan");
    let counts: HashMap<u128, usize> =
        found.per_destination.iter().map(|(id, share)| (*id, share.count)).collect();
    assert_eq!(HashMap::from([(5, 2)]), counts);
}
