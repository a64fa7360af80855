//! Facts about mapping sequences that the proofs of this crate share.

use vstd::prelude::*;

verus! {

/// Mapping a sequence after a push is mapping it, then pushing the image.
pub proof fn lemma_map_push<A, B>(s: Seq<A>, x: A, f: spec_fn(A) -> B)
    ensures
        s.push(x).map_values(f) == s.map_values(f).push(f(x)),
{
    assert(s.push(x).map_values(f) =~= s.map_values(f).push(f(x)));
}

} // verus!
