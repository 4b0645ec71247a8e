//! What the program was started with.

use crate::search;
use crate::text::same_text;
use vstd::prelude::*;

verus! {

/// What the program was started with.
#[derive(Debug, PartialEq, Eq)]
pub struct Arguments {
    /// Check that the window survives being hidden, and quit.
    pub self_test: bool,
    /// Open straight into one dialog.
    pub show: Option<String>,
}

/// The argument at an index reads this.
pub open spec fn reads(arguments: Seq<String>, wanted: Seq<char>) -> spec_fn(int) -> bool {
    |i: int| arguments[i]@ == wanted
}

/// The first argument that reads this.
fn position(arguments: &Vec<String>, wanted: &str) -> (r: Option<usize>)
    ensures
        search::place(r) == search::first(arguments@.len(), reads(arguments@, wanted@)),
        r is Some ==> r->0 < arguments@.len(),
{
    let ghost holds = reads(arguments@, wanted@);
    let mut i: usize = 0;
    while i < arguments.len()
        invariant
            i <= arguments@.len(),
            holds == reads(arguments@, wanted@),
            forall|k: int| 0 <= k < i ==> !(#[trigger] holds(k)),
        decreases arguments@.len() - i,
    {
        if same_text(arguments[i].as_str(), wanted) {
            proof {
                search::lemma_found(i as int, arguments@.len(), holds);
            }
            return Some(i);
        }
        i = i + 1;
    }
    proof {
        search::lemma_absent(arguments@.len(), holds);
    }
    None
}

impl Arguments {
    /// Reads the arguments: `--self-test-tray` anywhere, and `--show` with the name behind it.
    pub fn read(arguments: &Vec<String>) -> (r: Self)
        ensures
            r.self_test == (search::first(
                arguments@.len(),
                reads(arguments@, "--self-test-tray"@),
            ) is Some),
            match search::first(arguments@.len(), reads(arguments@, "--show"@)) {
                Some(i) => if i + 1 < arguments@.len() {
                    r.show == Some(arguments@[i + 1])
                } else {
                    r.show is None
                },
                None => r.show is None,
            },
    {
        let self_test = position(arguments, "--self-test-tray").is_some();
        let n: usize = arguments.len();
        let show = match position(arguments, "--show") {
            Some(i) => if n - i > 1 {
                Some(arguments[i + 1].clone())
            } else {
                None
            },
            None => None,
        };
        Arguments { self_test, show }
    }
}

} // verus!
