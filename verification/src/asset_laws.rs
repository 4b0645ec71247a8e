//! What is found among the app's own files and among its arguments.

use crate::arguments;
use crate::assets;
use vstd::prelude::*;

verus! {

/// The names under a path are those that begin with it, in order.
pub proof fn law_every_name_that_begins_with_the_path_is_listed(
    names: Seq<Seq<char>>,
    path: Seq<char>,
)
    ensures
        assets::under(names, path) == names.filter(|name: Seq<char>| path.is_prefix_of(name)),
    decreases names.len(),
{
    reveal(Seq::filter);
    if names.len() > 0 {
        law_every_name_that_begins_with_the_path_is_listed(names.drop_last(), path);
    }
    assert(assets::under(names, path) =~= names.filter(
        |name: Seq<char>| path.is_prefix_of(name),
    ));
}

/// An argument is the one wanted where it reads the same.
pub proof fn law_an_argument_is_wanted_where_it_reads_the_same(
    arguments: Seq<String>,
    wanted: Seq<char>,
    i: int,
)
    ensures
        arguments::reads(arguments, wanted)(i) <==> arguments[i]@ == wanted,
{
}

} // verus!
