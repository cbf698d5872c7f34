//! Facts about prefixes of sequences, used when a loop extends a result.

use vstd::prelude::*;

verus! {

/// Pushing onto a sequence keeps it as the prefix.
pub proof fn lemma_push_prefix<A>(s: Seq<A>, a: A)
    ensures
        s.push(a).len() == s.len() + 1,
        s.push(a).subrange(0, s.len() as int) == s,
        s.push(a)[s.len() as int] == a,
{
    assert(s.push(a).subrange(0, s.len() as int) =~= s);
}

/// The prefix of length `i + 1` extends the prefix of length `i` by `s[i]`.
pub proof fn lemma_prefix_step<A>(s: Seq<A>, i: int)
    requires
        0 <= i < s.len(),
    ensures
        s.subrange(0, i + 1).len() == i + 1,
        s.subrange(0, i + 1).subrange(0, i) == s.subrange(0, i),
        s.subrange(0, i + 1)[i] == s[i],
{
    assert(s.subrange(0, i + 1).subrange(0, i) =~= s.subrange(0, i));
}

/// The full-length prefix is the sequence itself.
pub proof fn lemma_prefix_full<A>(s: Seq<A>)
    ensures
        s.subrange(0, s.len() as int) == s,
{
    assert(s.subrange(0, s.len() as int) =~= s);
}

} // verus!
