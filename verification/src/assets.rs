//! Everything the window draws is compiled into the executable.
//!
//! Two sources, one namespace: the component library carries the file behind each of its own
//! icons, this program carries the ones the library has no name for. Ours is consulted first, so a
//! name we ship always wins.

use crate::text;
use crate::text::{begins_with, clone_texts};
use vstd::prelude::*;

verus! {

/// Where an asset comes from.
#[derive(Debug, Clone, Copy, PartialEq, Eq, Structural)]
pub enum AssetOrigin {
    /// There is nothing to load.
    Nothing,
    Local,
    Library,
}

/// The composite of the two sources.
#[derive(Debug, Clone, Copy, PartialEq, Eq, Structural)]
pub struct Assets;

/// The names that begin with a path, in order.
pub open spec fn under(names: Seq<Seq<char>>, path: Seq<char>) -> Seq<Seq<char>>
    decreases names.len(),
{
    if names.len() == 0 {
        Seq::empty()
    } else if path.is_prefix_of(names.last()) {
        under(names.drop_last(), path).push(names.last())
    } else {
        under(names.drop_last(), path)
    }
}

impl Assets {
    /// Where to load a path from. `ours` says whether it is one of this program's own.
    pub fn load(&self, path: &str, ours: bool) -> (r: AssetOrigin)
        ensures
            r == if path@.len() == 0 {
                AssetOrigin::Nothing
            } else if ours {
                AssetOrigin::Local
            } else {
                AssetOrigin::Library
            },
    {
        if path.is_empty() {
            AssetOrigin::Nothing
        } else if ours {
            AssetOrigin::Local
        } else {
            AssetOrigin::Library
        }
    }

    /// What stands under a path: our own names first, then what the library lists.
    pub fn list(&self, path: &str, ours: &Vec<String>, library: &Vec<String>) -> (r: Vec<String>)
        ensures
            text::texts(r@) == under(text::texts(ours@), path@) + text::texts(library@),
    {
        let ghost names = text::texts(ours@);
        let mut listed: Vec<String> = Vec::new();
        let mut i: usize = 0;
        proof {
            assert(text::texts(listed@) =~= Seq::empty());
        }
        while i < ours.len()
            invariant
                i <= ours@.len(),
                names == text::texts(ours@),
                text::texts(listed@) == under(names.take(i as int), path@),
            decreases ours@.len() - i,
        {
            proof {
                assert(names.take(i + 1).drop_last() =~= names.take(i as int));
                assert(names.take(i + 1).last() == ours@[i as int]@);
            }
            if begins_with(ours[i].as_str(), path) {
                let name = ours[i].clone();
                proof {
                    text::lemma_texts_push(listed@, name);
                }
                listed.push(name);
            }
            i = i + 1;
        }
        proof {
            assert(names.take(ours@.len() as int) =~= names);
        }
        let ghost front = text::texts(listed@);
        let mut rest = clone_texts(library);
        let ghost tail = rest@;
        let ghost before = listed@;
        listed.append(&mut rest);
        proof {
            assert(text::texts(listed@) =~= front + text::texts(tail));
        }
        listed
    }
}

} // verus!
