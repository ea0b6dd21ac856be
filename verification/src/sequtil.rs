//! Small sequence lemmas used when relating loop bodies to their
//! fold-style specifications.

use vstd::prelude::*;

verus! {

/// Pushing onto a concatenation is concatenating a pushed tail, and a push
/// is concatenation with a singleton.
pub proof fn lemma_push_concat<A>(a: Seq<A>, b: Seq<A>, x: A)
    ensures
        (a + b).push(x) == a + b.push(x),
        b.push(x) == b + seq![x],
{
    assert((a + b).push(x) =~= a + b.push(x));
    assert(b.push(x) =~= b + seq![x]);
}

/// Concatenating an empty sequence changes nothing.
pub proof fn lemma_add_empty<A>(a: Seq<A>)
    ensures
        a + Seq::<A>::empty() == a,
{
    assert(a + Seq::<A>::empty() =~= a);
}

/// Concatenation is associative.
pub proof fn lemma_add_assoc<A>(a: Seq<A>, b: Seq<A>, c: Seq<A>)
    ensures
        (a + b) + c == a + (b + c),
{
    assert((a + b) + c =~= a + (b + c));
}

} // verus!
