//! The routing preview: where each file of the source would go.
//!
//! Walking the source, and asking each destination which files it wants, happens elsewhere; what
//! those answers add up to is worked out here.

use crate::i18n;
use crate::text;
use crate::text::{chars_of, clone_texts, concat3, concat2, decimal_text, string_of};
use std::collections::HashMap;
use vstd::prelude::*;

verus! {

/// How many file names a sample carries. Enough to recognize what was caught, short enough to
/// read at a glance.
pub const SAMPLE_SIZE: usize = 8;

/// How many file types the chips offer. The long tail of a real folder is not worth a row.
pub const EXTENSION_CHIPS: usize = 12;

/// What one destination would take.
#[derive(Debug, PartialEq, Eq)]
pub struct DestinationPreview {
    pub count: usize,
    pub sample: Vec<String>,
}

/// What a [`DestinationPreview`] says.
pub struct PreviewView {
    pub count: nat,
    pub sample: Seq<Seq<char>>,
}

impl View for DestinationPreview {
    type V = PreviewView;

    open spec fn view(&self) -> PreviewView {
        PreviewView { count: self.count as nat, sample: text::texts(self.sample@) }
    }
}

/// At most the first `n` of a list.
pub open spec fn at_most<A>(list: Seq<A>, n: int) -> Seq<A> {
    if list.len() <= n {
        list
    } else {
        list.take(n)
    }
}

/// The preview for a list of paths: how many there are, and the first few.
pub open spec fn preview_of(paths: Seq<Seq<char>>) -> PreviewView {
    PreviewView { count: paths.len(), sample: at_most(paths, SAMPLE_SIZE as int) }
}

impl DestinationPreview {
    /// The same preview again.
    pub fn copy(&self) -> (r: Self)
        ensures
            r@ == self@,
    {
        DestinationPreview { count: self.count, sample: clone_texts(&self.sample) }
    }
}

/// One file type present in the source, offered as a one-click rule.
#[derive(Debug, PartialEq, Eq)]
pub struct ExtensionChip {
    /// The bare extension, e.g. `pdf`.
    pub extension: String,
    pub count: usize,
}

/// What an [`ExtensionChip`] says.
pub struct ChipView {
    pub extension: Seq<char>,
    pub count: nat,
}

impl View for ExtensionChip {
    type V = ChipView;

    open spec fn view(&self) -> ChipView {
        ChipView { extension: self.extension@, count: self.count as nat }
    }
}

impl ChipView {
    /// What the chip reads, e.g. `pdf (12)`.
    pub open spec fn words(self) -> Seq<char> {
        self.extension + " ("@ + text::decimal(self.count) + ")"@
    }
}

/// The views of a list of chips.
pub open spec fn chip_views(chips: Seq<ExtensionChip>) -> Seq<ChipView> {
    Seq::new(chips.len(), |i: int| chips[i]@)
}

impl ExtensionChip {
    /// What the chip reads, e.g. `pdf (12)`.
    pub fn label(&self) -> (r: String)
        ensures
            r@ == self@.words(),
    {
        let front = concat3(
            self.extension.as_str(),
            " (",
            decimal_text(self.count as u128).as_str(),
        );
        concat2(front.as_str(), ")")
    }
}

/// A file more than one rule matched, and the rules that wanted it. Information, not a problem:
/// the ordering resolved it, and seeing which rule won is the point.
#[derive(Debug, PartialEq, Eq)]
pub struct ContestedFile {
    pub relative_path: String,
    /// Rule positions, 0-based, in order. The first one wins.
    pub rules: Vec<usize>,
}

impl ContestedFile {
    /// Two contested files say the same.
    pub open spec fn same(self, other: ContestedFile) -> bool {
        self.relative_path@ == other.relative_path@ && self.rules@ == other.rules@
    }

    /// The same file again.
    pub fn copy(&self) -> (r: Self)
        ensures
            r.same(*self),
    {
        let mut rules: Vec<usize> = Vec::new();
        let mut i: usize = 0;
        while i < self.rules.len()
            invariant
                i <= self.rules@.len(),
                rules@ == self.rules@.take(i as int),
            decreases self.rules@.len() - i,
        {
            rules.push(self.rules[i]);
            proof {
                assert(self.rules@.take(i + 1) =~= self.rules@.take(i as int).push(
                    self.rules@[i as int],
                ));
            }
            i = i + 1;
        }
        proof {
            assert(self.rules@.take(self.rules@.len() as int) =~= self.rules@);
        }
        ContestedFile { relative_path: self.relative_path.clone(), rules }
    }
}

/// Everything one scan found.
#[derive(Debug)]
pub struct Scan {
    pub file_count: usize,
    pub per_destination: HashMap<u128, DestinationPreview>,
    /// Files no rule claims, which therefore stay in the source.
    pub unmatched: DestinationPreview,
    pub contested: Vec<ContestedFile>,
    pub extensions: Vec<ExtensionChip>,
}

impl Scan {
    /// What each destination would take.
    pub open spec fn taken(self) -> Map<u128, PreviewView> {
        self.per_destination@.map_values(|p: DestinationPreview| p@)
    }
}

/// Who takes which file, as the engine decides it for a Move task: one owner per file.
#[derive(Debug)]
pub struct Routing {
    /// The paths each rule takes, in rule order.
    pub assigned: Vec<Vec<String>>,
    /// The paths no rule takes.
    pub unmatched: Vec<String>,
    /// The paths more than one rule wanted.
    pub contested: Vec<ContestedFile>,
}

/// Who takes which file.
#[derive(Debug)]
pub enum Assignment {
    /// A Move task: one owner per file.
    Routed(Routing),
    /// A Sync task: for each file, whether each destination wants it.
    Wanted(Vec<Vec<bool>>),
}

/// What the first `n` rules take. Of two rules for one destination the later counts.
pub open spec fn routed(ids: Seq<u128>, assigned: Seq<Vec<String>>, n: int) -> Map<
    u128,
    PreviewView,
>
    decreases n,
{
    if n <= 0 {
        Map::empty()
    } else {
        routed(ids, assigned, n - 1).insert(
            ids[n - 1],
            preview_of(text::texts(assigned[n - 1]@)),
        )
    }
}

/// One file, as often as the first `n` destinations of this identifier want it.
pub open spec fn file_claims(
    path: Seq<char>,
    row: Seq<bool>,
    ids: Seq<u128>,
    id: u128,
    n: int,
) -> Seq<Seq<char>>
    decreases n,
{
    if n <= 0 {
        Seq::empty()
    } else if ids[n - 1] == id && row[n - 1] {
        file_claims(path, row, ids, id, n - 1).push(path)
    } else {
        file_claims(path, row, ids, id, n - 1)
    }
}

/// The paths among the first `n` files that a destination wants.
pub open spec fn claims(
    paths: Seq<Seq<char>>,
    wanted: Seq<Vec<bool>>,
    ids: Seq<u128>,
    id: u128,
    n: int,
) -> Seq<Seq<char>>
    decreases n,
{
    if n <= 0 {
        Seq::empty()
    } else {
        claims(paths, wanted, ids, id, n - 1) + file_claims(
            paths[n - 1],
            wanted[n - 1]@,
            ids,
            id,
            ids.len() as int,
        )
    }
}

/// Some destination wants the file.
pub open spec fn is_wanted(row: Seq<bool>) -> bool {
    exists|j: int| 0 <= j < row.len() && #[trigger] row[j]
}

/// The paths among the first `n` files that no destination wants.
pub open spec fn unclaimed(paths: Seq<Seq<char>>, wanted: Seq<Vec<bool>>, n: int) -> Seq<Seq<char>>
    decreases n,
{
    if n <= 0 {
        Seq::empty()
    } else if is_wanted(wanted[n - 1]@) {
        unclaimed(paths, wanted, n - 1)
    } else {
        unclaimed(paths, wanted, n - 1).push(paths[n - 1])
    }
}

/// Whether there is an answer for each file and each destination.
pub open spec fn covers(wanted: Seq<Vec<bool>>, files: nat, destinations: nat) -> bool {
    &&& wanted.len() == files
    &&& forall|f: int| 0 <= f < wanted.len() ==> (#[trigger] wanted[f])@.len() == destinations
}

/// The assignment is about these files and destinations.
pub open spec fn fits(assignment: Assignment, files: nat, destinations: nat) -> bool {
    match assignment {
        Assignment::Routed(routing) => routing.assigned@.len() == destinations,
        Assignment::Wanted(wanted) => covers(wanted@, files, destinations),
    }
}

/// Where the last `mark` before `end` stands, or -1.
pub open spec fn last_mark(path: Seq<char>, mark: char, end: int) -> int
    decreases end,
{
    if end <= 0 {
        -1
    } else if path[end - 1] == mark {
        end - 1
    } else {
        last_mark(path, mark, end - 1)
    }
}

/// The extension of the last name in a path: what follows its last dot, if anything does.
pub open spec fn extension_of(path: Seq<char>) -> Option<Seq<char>> {
    let slash = last_mark(path, '/', path.len() as int);
    let dot = last_mark(path, '.', path.len() as int);
    if dot >= 0 && dot > slash && dot + 1 < path.len() {
        Some(path.skip(dot + 1))
    } else {
        None
    }
}

/// The extensions of the files that have one, in order.
pub open spec fn found(paths: Seq<Seq<char>>) -> Seq<Seq<char>>
    decreases paths.len(),
{
    if paths.len() == 0 {
        Seq::empty()
    } else {
        match extension_of(paths.last()) {
            Some(extension) => found(paths.drop_last()).push(extension),
            None => found(paths.drop_last()),
        }
    }
}

/// How often a file type occurs, case aside.
pub open spec fn type_tally(list: Seq<Seq<char>>, key: Seq<char>) -> nat
    decreases list.len(),
{
    if list.len() == 0 {
        0
    } else {
        type_tally(list.drop_last(), key) + if i18n::lowercase(list.last()) == key {
            1nat
        } else {
            0nat
        }
    }
}

/// The type at `i` was not seen before, case aside.
pub open spec fn first_seen(list: Seq<Seq<char>>, i: int) -> bool {
    0 <= i < list.len() && forall|k: int|
        0 <= k < i ==> i18n::lowercase(#[trigger] list[k]) != i18n::lowercase(list[i])
}

/// A chip stands for one file type: shown as first seen, counted case aside.
pub open spec fn is_chip(list: Seq<Seq<char>>, chip: ChipView) -> bool {
    exists|i: int|
        #[trigger] first_seen(list, i) && chip.extension == list[i] && chip.count == type_tally(
            list,
            i18n::lowercase(list[i]),
        )
}

/// Character by character, the way text sorts.
pub open spec fn sorts_before(a: Seq<char>, b: Seq<char>) -> bool
    decreases a.len(),
{
    if b.len() == 0 {
        false
    } else if a.len() == 0 {
        true
    } else if a[0] == b[0] {
        sorts_before(a.skip(1), b.skip(1))
    } else {
        a[0] < b[0]
    }
}

/// Commonest first, then alphabetical.
pub open spec fn ranks_before(a: ChipView, b: ChipView) -> bool {
    a.count > b.count || (a.count == b.count && sorts_before(
        i18n::lowercase(a.extension),
        i18n::lowercase(b.extension),
    ))
}

/// The chips for the file types found: each once, in rank order.
pub open spec fn is_ranking(chips: Seq<ChipView>, list: Seq<Seq<char>>) -> bool {
    &&& forall|c: ChipView| #[trigger] chips.contains(c) <==> is_chip(list, c)
    &&& forall|i: int, j: int|
        0 <= i < j < chips.len() ==> ranks_before(#[trigger] chips[i], #[trigger] chips[j])
}

/// The views of a list of contested files.
pub open spec fn same_contested(a: Seq<ContestedFile>, b: Seq<ContestedFile>) -> bool {
    a.len() == b.len() && forall|i: int| 0 <= i < a.len() ==> (#[trigger] a[i]).same(b[i])
}

/// The preview for a list of paths.
pub fn sample_of(paths: &Vec<String>) -> (r: Vec<String>)
    ensures
        text::texts(r@) == at_most(text::texts(paths@), SAMPLE_SIZE as int),
{
    let ghost views = text::texts(paths@);
    let mut sample: Vec<String> = Vec::new();
    let mut i: usize = 0;
    while i < paths.len() && i < SAMPLE_SIZE
        invariant
            i <= paths@.len(),
            i <= SAMPLE_SIZE,
            views == text::texts(paths@),
            text::texts(sample@) == views.take(i as int),
        decreases paths@.len() - i,
    {
        let path = paths[i].clone();
        proof {
            text::lemma_texts_push(sample@, path);
            assert(views.take(i + 1) =~= views.take(i as int).push(path@));
        }
        sample.push(path);
        i = i + 1;
    }
    proof {
        if paths@.len() <= SAMPLE_SIZE {
            assert(views.take(i as int) =~= views);
        }
    }
    sample
}

fn preview_for(paths: &Vec<String>) -> (r: DestinationPreview)
    ensures
        r@ == preview_of(text::texts(paths@)),
{
    DestinationPreview { count: paths.len(), sample: sample_of(paths) }
}

/// Move: one owner per file, decided by rule order.
pub fn route(ids: &Vec<u128>, routing: &Routing, result: &mut Scan)
    requires
        routing.assigned@.len() == ids@.len(),
        old(result).per_destination@ == Map::<u128, DestinationPreview>::empty(),
    ensures
        final(result).taken() == routed(ids@, routing.assigned@, ids@.len() as int),
        final(result).unmatched@ == preview_of(text::texts(routing.unmatched@)),
        same_contested(
            final(result).contested@,
            at_most(routing.contested@, SAMPLE_SIZE as int),
        ),
        final(result).file_count == old(result).file_count,
        final(result).extensions == old(result).extensions,
{
    broadcast use vstd::std_specs::hash::group_hash_axioms;

    let mut i: usize = 0;
    proof {
        assert(result.taken() =~= Map::empty());
    }
    while i < ids.len()
        invariant
            i <= ids@.len(),
            routing.assigned@.len() == ids@.len(),
            result.taken() == routed(ids@, routing.assigned@, i as int),
            result.file_count == old(result).file_count,
            result.extensions == old(result).extensions,
        decreases ids@.len() - i,
    {
        let preview = preview_for(&routing.assigned[i]);
        let ghost before = result.taken();
        let ghost view = preview@;
        result.per_destination.insert(ids[i], preview);
        proof {
            assert(result.taken() =~= before.insert(ids@[i as int], view));
        }
        i = i + 1;
    }
    result.unmatched = preview_for(&routing.unmatched);
    let mut contested: Vec<ContestedFile> = Vec::new();
    let mut k: usize = 0;
    while k < routing.contested.len() && k < SAMPLE_SIZE
        invariant
            k <= routing.contested@.len(),
            k <= SAMPLE_SIZE,
            contested@.len() == k,
            forall|j: int| 0 <= j < k ==> (#[trigger] contested@[j]).same(routing.contested@[j]),
        decreases routing.contested@.len() - k,
    {
        contested.push(routing.contested[k].copy());
        k = k + 1;
    }
    result.contested = contested;
}

/// The paths a destination wants.
fn claimed_paths(
    ids: &Vec<u128>,
    id: u128,
    files: &Vec<String>,
    wanted: &Vec<Vec<bool>>,
) -> (r: Vec<String>)
    requires
        covers(wanted@, files@.len(), ids@.len()),
    ensures
        text::texts(r@) == claims(
            text::texts(files@),
            wanted@,
            ids@,
            id,
            files@.len() as int,
        ),
{
    let ghost paths = text::texts(files@);
    let mut out: Vec<String> = Vec::new();
    let mut f: usize = 0;
    proof {
        assert(text::texts(out@) =~= Seq::empty());
    }
    while f < files.len()
        invariant
            f <= files@.len(),
            paths == text::texts(files@),
            covers(wanted@, files@.len(), ids@.len()),
            text::texts(out@) == claims(paths, wanted@, ids@, id, f as int),
        decreases files@.len() - f,
    {
        let ghost before = text::texts(out@);
        let ghost row = wanted@[f as int]@;
        let mut j: usize = 0;
        proof {
            assert(before + file_claims(paths[f as int], row, ids@, id, 0) =~= before);
            assert(row.len() == ids@.len());
        }
        while j < ids.len()
            invariant
                f < files@.len(),
                j <= ids@.len(),
                paths == text::texts(files@),
                covers(wanted@, files@.len(), ids@.len()),
                row == wanted@[f as int]@,
                row.len() == ids@.len(),
                text::texts(out@) == before + file_claims(
                    paths[f as int],
                    row,
                    ids@,
                    id,
                    j as int,
                ),
            decreases ids@.len() - j,
        {
            let wants = wanted[f][j];
            if ids[j] == id && wants {
                let path = files[f].clone();
                proof {
                    text::lemma_texts_push(out@, path);
                    let own = file_claims(paths[f as int], row, ids@, id, j as int);
                    assert((before + own).push(path@) =~= before + own.push(path@));
                }
                out.push(path);
            }
            j = j + 1;
        }
        f = f + 1;
    }
    out
}

/// Whether some destination wants the file.
fn any_wants(row: &Vec<bool>) -> (r: bool)
    ensures
        r == is_wanted(row@),
{
    let mut j: usize = 0;
    while j < row.len()
        invariant
            j <= row@.len(),
            forall|k: int| 0 <= k < j ==> !(#[trigger] row@[k]),
        decreases row@.len() - j,
    {
        if row[j] {
            return true;
        }
        j = j + 1;
    }
    false
}

/// The paths no destination wants.
fn unclaimed_paths(files: &Vec<String>, wanted: &Vec<Vec<bool>>) -> (r: Vec<String>)
    requires
        wanted@.len() == files@.len(),
    ensures
        text::texts(r@) == unclaimed(text::texts(files@), wanted@, files@.len() as int),
{
    let ghost paths = text::texts(files@);
    let mut out: Vec<String> = Vec::new();
    let mut f: usize = 0;
    proof {
        assert(text::texts(out@) =~= Seq::empty());
    }
    while f < files.len()
        invariant
            f <= files@.len(),
            paths == text::texts(files@),
            wanted@.len() == files@.len(),
            text::texts(out@) == unclaimed(paths, wanted@, f as int),
        decreases files@.len() - f,
    {
        if !any_wants(&wanted[f]) {
            let path = files[f].clone();
            proof {
                text::lemma_texts_push(out@, path);
            }
            out.push(path);
        }
        f = f + 1;
    }
    out
}

/// What each destination wants.
pub open spec fn claimed(
    paths: Seq<Seq<char>>,
    wanted: Seq<Vec<bool>>,
    ids: Seq<u128>,
) -> Map<u128, PreviewView> {
    Map::new(
        |id: u128| ids.contains(id),
        |id: u128| preview_of(claims(paths, wanted, ids, id, paths.len() as int)),
    )
}

/// Sync: destinations are independent, so a file can land in several of them, and "unmatched"
/// means no destination wanted it at all.
pub fn claim(ids: &Vec<u128>, files: &Vec<String>, wanted: &Vec<Vec<bool>>, result: &mut Scan)
    requires
        covers(wanted@, files@.len(), ids@.len()),
        old(result).per_destination@ == Map::<u128, DestinationPreview>::empty(),
    ensures
        final(result).taken() == claimed(text::texts(files@), wanted@, ids@),
        final(result).unmatched@ == preview_of(
            unclaimed(text::texts(files@), wanted@, files@.len() as int),
        ),
        final(result).contested == old(result).contested,
        final(result).file_count == old(result).file_count,
        final(result).extensions == old(result).extensions,
{
    broadcast use vstd::std_specs::hash::group_hash_axioms;

    let ghost paths = text::texts(files@);
    let ghost whole = claimed(paths, wanted@, ids@);
    let mut i: usize = 0;
    proof {
        assert(result.taken() =~= whole.restrict(ids@.take(0).to_set()));
    }
    while i < ids.len()
        invariant
            i <= ids@.len(),
            paths == text::texts(files@),
            whole == claimed(paths, wanted@, ids@),
            covers(wanted@, files@.len(), ids@.len()),
            result.taken() == whole.restrict(ids@.take(i as int).to_set()),
            result.contested == old(result).contested,
            result.file_count == old(result).file_count,
            result.extensions == old(result).extensions,
        decreases ids@.len() - i,
    {
        let id: u128 = ids[i];
        let preview = preview_for(&claimed_paths(ids, id, files, wanted));
        let ghost before = result.taken();
        let ghost view = preview@;
        result.per_destination.insert(id, preview);
        proof {
            assert(ids@.contains(id));
            assert(whole[id] == view);
            assert(result.taken() =~= before.insert(id, view));
            assert(ids@.take(i + 1) =~= ids@.take(i as int).push(id));
            ids@.take(i as int).lemma_push_to_set_commute(id);
            assert(result.taken() =~= whole.restrict(ids@.take(i + 1).to_set()));
        }
        i = i + 1;
    }
    proof {
        assert(ids@.take(ids@.len() as int) =~= ids@);
        assert(result.taken() =~= whole);
    }
    result.unmatched = preview_for(&unclaimed_paths(files, wanted));
}

/// Where the last `mark` stands, if there is one.
fn find_last(path: &Vec<char>, mark: char) -> (r: Option<usize>)
    ensures
        match r {
            Some(i) => i == last_mark(path@, mark, path@.len() as int) && i < path@.len(),
            None => last_mark(path@, mark, path@.len() as int) == -1,
        },
{
    let mut end: usize = path.len();
    while end > 0
        invariant
            end <= path@.len(),
            last_mark(path@, mark, path@.len() as int) == last_mark(path@, mark, end as int),
        decreases end,
    {
        if path[end - 1] == mark {
            return Some(end - 1);
        }
        end = end - 1;
    }
    None
}

/// The extension of the last name in a path, if it has one.
pub fn extension(path: &str) -> (r: Option<String>)
    ensures
        match r {
            Some(e) => extension_of(path@) == Some(e@),
            None => extension_of(path@) is None,
        },
{
    let chars = chars_of(path);
    match find_last(&chars, '.') {
        Some(dot) => {
            let in_leaf = match find_last(&chars, '/') {
                Some(slash) => dot > slash,
                None => true,
            };
            if in_leaf && chars.len() - dot > 1 {
                let e = string_of(&chars, dot + 1, chars.len());
                proof {
                    assert(e@ =~= path@.skip(dot + 1));
                }
                Some(e)
            } else {
                None
            }
        },
        None => None,
    }
}

/// The extensions of the files that have one, in order.
pub(crate) fn all_extensions(files: &Vec<String>) -> (r: Vec<String>)
    ensures
        text::texts(r@) == found(text::texts(files@)),
{
    let ghost paths = text::texts(files@);
    let mut out: Vec<String> = Vec::new();
    let mut i: usize = 0;
    proof {
        assert(text::texts(out@) =~= Seq::empty());
        assert(paths.take(0) =~= Seq::empty());
    }
    while i < files.len()
        invariant
            i <= files@.len(),
            paths == text::texts(files@),
            text::texts(out@) == found(paths.take(i as int)),
        decreases files@.len() - i,
    {
        proof {
            assert(paths.take(i + 1).drop_last() =~= paths.take(i as int));
            assert(paths.take(i + 1).last() == files@[i as int]@);
        }
        if let Some(e) = extension(files[i].as_str()) {
            proof {
                text::lemma_texts_push(out@, e);
            }
            out.push(e);
        }
        i = i + 1;
    }
    proof {
        assert(paths.take(paths.len() as int) =~= paths);
    }
    out
}

} // verus!
