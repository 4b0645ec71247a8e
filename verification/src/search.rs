//! The first place in a list where something holds.

use vstd::prelude::*;

verus! {

/// The first index from `start` below `n` where `holds` is true.
pub open spec fn first_from(start: int, n: int, holds: spec_fn(int) -> bool) -> Option<int>
    decreases n - start,
{
    if start >= n {
        None
    } else if holds(start) {
        Some(start)
    } else {
        first_from(start + 1, n, holds)
    }
}

/// The first index below `n` where `holds` is true.
pub open spec fn first(n: nat, holds: spec_fn(int) -> bool) -> Option<int> {
    first_from(0, n as int, holds)
}

/// An executable index as a mathematical one.
pub open spec fn place(found: Option<usize>) -> Option<int> {
    match found {
        Some(i) => Some(i as int),
        None => None,
    }
}

/// Nothing holds before `at`, so the search may begin there.
pub proof fn lemma_skip(start: int, at: int, n: int, holds: spec_fn(int) -> bool)
    requires
        start <= at <= n,
        forall|k: int| start <= k < at ==> !(#[trigger] holds(k)),
    ensures
        first_from(start, n, holds) == first_from(at, n, holds),
    decreases at - start,
{
    if start < at {
        lemma_skip(start + 1, at, n, holds);
    }
}

/// The search finds `at` when it holds there and nowhere before.
pub proof fn lemma_found(at: int, n: nat, holds: spec_fn(int) -> bool)
    requires
        0 <= at < n,
        holds(at),
        forall|k: int| 0 <= k < at ==> !(#[trigger] holds(k)),
    ensures
        first(n, holds) == Some(at),
{
    lemma_skip(0, at, n as int, holds);
}

/// The search finds nothing when nothing holds.
pub proof fn lemma_absent(n: nat, holds: spec_fn(int) -> bool)
    requires
        forall|k: int| 0 <= k < n ==> !(#[trigger] holds(k)),
    ensures
        first(n, holds) is None,
{
    lemma_skip(0, n as int, n as int, holds);
}

/// What a search found holds there, and nowhere before; what it did not find holds nowhere.
pub proof fn lemma_first(n: nat, holds: spec_fn(int) -> bool)
    ensures
        match first(n, holds) {
            Some(at) => 0 <= at < n && holds(at) && forall|k: int|
                0 <= k < at ==> !(#[trigger] holds(k)),
            None => forall|k: int| 0 <= k < n ==> !(#[trigger] holds(k)),
        },
{
    lemma_first_from(0, n as int, holds);
}

proof fn lemma_first_from(start: int, n: int, holds: spec_fn(int) -> bool)
    ensures
        match first_from(start, n, holds) {
            Some(at) => start <= at < n && holds(at) && forall|k: int|
                start <= k < at ==> !(#[trigger] holds(k)),
            None => forall|k: int| start <= k < n ==> !(#[trigger] holds(k)),
        },
    decreases n - start,
{
    if start < n && !holds(start) {
        lemma_first_from(start + 1, n, holds);
    }
}

} // verus!
