//! Lists of free text and their bounded copies.

use vstd::prelude::*;

verus! {

/// The first `limit` entries of `texts`, or all of them if there are fewer.
pub open spec fn prefix(texts: Seq<Seq<char>>, limit: nat) -> Seq<Seq<char>> {
    if texts.len() <= limit {
        texts
    } else {
        texts.subrange(0, limit as int)
    }
}

/// A prefix is never longer than the limit nor than the list it is taken
/// from, and agrees with that list entry by entry.
pub proof fn lemma_prefix(texts: Seq<Seq<char>>, limit: nat)
    ensures
        prefix(texts, limit).len() == if texts.len() <= limit { texts.len() } else { limit },
        forall|i: int| 0 <= i < prefix(texts, limit).len() ==> prefix(texts, limit)[i] == texts[i],
{
}

/// Copies the leading entries of `source`, in order and starting at the
/// first, into a fresh list that holds at most `limit` of them.
pub fn copy_prefix(source: &Vec<String>, limit: usize) -> (r: Vec<String>)
    ensures
        r.deep_view() == prefix(source.deep_view(), limit as nat),
{
    let count: usize = if source.len() <= limit { source.len() } else { limit };
    let mut copy: Vec<String> = Vec::with_capacity(count);
    let mut i: usize = 0;
    while i < count
        invariant
            i <= count,
            count <= source.len(),
            copy.len() == i,
            forall|k: int| 0 <= k < i ==> copy@[k]@ == source@[k]@,
        decreases count - i,
    {
        copy.push(source[i].clone());
        i += 1;
    }
    proof {
        assert(copy.deep_view() =~= prefix(source.deep_view(), limit as nat));
    }
    copy
}

/// A copy of every entry of `source`.
pub fn copy_texts(source: &Vec<String>) -> (r: Vec<String>)
    ensures
        r.deep_view() == source.deep_view(),
{
    copy_prefix(source, source.len())
}

} // verus!
