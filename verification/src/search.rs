//! The first element of a sequence that a predicate accepts.
//!
//! Wherever several entities qualify, the systems take the one that comes
//! first in the scene's order. This is that rule, stated once.
use vstd::prelude::*;

verus! {

/// The least index whose element `accept` accepts, if there is one.
pub open spec fn first_index<T>(s: Seq<T>, accept: spec_fn(T) -> bool) -> Option<int>
    decreases s.len(),
{
    if s.len() == 0 {
        None
    } else {
        match first_index(s.drop_last(), accept) {
            Some(i) => Some(i),
            None => if accept(s.last()) {
                Some(s.len() - 1)
            } else {
                None
            },
        }
    }
}

/// What `first_index` returns is accepted, and nothing before it is; where
/// it returns nothing, nothing is accepted.
pub proof fn lemma_first_index_sound<T>(s: Seq<T>, accept: spec_fn(T) -> bool)
    ensures
        match first_index(s, accept) {
            Some(i) => {
                &&& 0 <= i < s.len()
                &&& accept(s[i])
                &&& forall|k: int| 0 <= k < i ==> !accept(#[trigger] s[k])
            },
            None => forall|k: int| 0 <= k < s.len() ==> !accept(#[trigger] s[k]),
        },
    decreases s.len(),
{
    if s.len() > 0 {
        let front = s.drop_last();
        lemma_first_index_sound(front, accept);
        assert forall|k: int| 0 <= k < front.len() implies front[k] == s[k] by {}
        match first_index(front, accept) {
            Some(i) => {
                assert(front[i] == s[i]);
                assert forall|k: int| 0 <= k < i implies !accept(#[trigger] s[k]) by {
                    assert(front[k] == s[k]);
                }
            },
            None => {
                assert forall|k: int| 0 <= k < s.len() - 1 implies !accept(#[trigger] s[k]) by {
                    assert(front[k] == s[k]);
                }
            },
        }
    }
}

/// An accepted element with nothing accepted before it is the one that
/// `first_index` returns.
pub proof fn lemma_first_index_found<T>(s: Seq<T>, accept: spec_fn(T) -> bool, i: int)
    requires
        0 <= i < s.len(),
        accept(s[i]),
        forall|k: int| 0 <= k < i ==> !accept(#[trigger] s[k]),
    ensures
        first_index(s, accept) == Some(i),
{
    lemma_first_index_sound(s, accept);
}

/// Where nothing is accepted, `first_index` returns nothing.
pub proof fn lemma_first_index_none<T>(s: Seq<T>, accept: spec_fn(T) -> bool)
    requires
        forall|k: int| 0 <= k < s.len() ==> !accept(#[trigger] s[k]),
    ensures
        first_index(s, accept).is_none(),
{
    lemma_first_index_sound(s, accept);
}

} // verus!
