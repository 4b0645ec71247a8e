//! Identifiers, and sets of them.

use std::collections::HashSet;
use vstd::prelude::*;

verus! {

/// The identifier carries the marks of a random one: version four, and the variant bits that go
/// with it.
pub open spec fn is_random(id: u128) -> bool {
    id & 0xF000_C000_0000_0000_0000u128 == 0x4000_8000_0000_0000_0000u128
}

/// `Uuid::new_v4`: a random identifier. Of its value only the bits that mark it as a random one
/// are fixed.
#[verifier::external_body]
pub(crate) fn fresh_id() -> (r: u128)
    ensures
        is_random(r),
{
    uuid::Uuid::new_v4().as_u128()
}

/// Puts every identifier of `more` into `ids`.
pub fn put_all(ids: &mut HashSet<u128>, more: &HashSet<u128>)
    ensures
        final(ids)@ == old(ids)@.union(more@),
{
    broadcast use vstd::std_specs::hash::group_hash_axioms;

    let ghost before = ids@;
    for id in it: more.iter()
        invariant
            it.seq().unref().to_set() == more@,
            ids@ == before.union(it.seq().unref().take(it.index() as int).to_set()),
            it.seq().unref().take(it.seq().len() as int) == it.seq().unref(),
    {
        proof {
            let i = it.index() as int;
            let walked = it.seq().unref();
            assert(walked[i] == *id);
            assert(walked.take(i + 1) =~= walked.take(i).push(*id));
            walked.take(i).lemma_push_to_set_commute(*id);
        }
        ids.insert(*id);
    }
    proof {
        assert(ids@ =~= before.union(more@));
    }
}

} // verus!
