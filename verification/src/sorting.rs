//! Shared multiset bookkeeping for the selection sorts used by the queues.

use vstd::multiset::Multiset;
use vstd::prelude::*;

verus! {

/// Moving one occurrence of `x` from the right multiset to the left one
/// keeps the combined contents.
pub proof fn lemma_multiset_transfer<T>(d: Multiset<T>, s: Multiset<T>, x: T)
    requires
        s.count(x) > 0,
    ensures
        d.insert(x).add(s.remove(x)) == d.add(s),
{
    broadcast use vstd::multiset::group_multiset_axioms;

    assert(d.insert(x).add(s.remove(x)) =~= d.add(s));
}

/// Two sequences with the same contents contain the same elements.
pub proof fn lemma_contains_of_multiset_eq<T>(a: Seq<T>, b: Seq<T>)
    requires
        a.to_multiset() == b.to_multiset(),
    ensures
        forall|x: T| a.contains(x) ==> b.contains(x),
{
    broadcast use vstd::seq_lib::group_to_multiset_ensures;

    assert forall|x: T| a.contains(x) implies b.contains(x) by {
        assert(a.to_multiset().count(x) > 0);
        assert(b.to_multiset().count(x) > 0);
    }
}

/// Two sequences with the same contents contain the same elements, both
/// ways round.
pub proof fn lemma_contains_eq_of_multiset_eq<T>(a: Seq<T>, b: Seq<T>)
    requires
        a.to_multiset() == b.to_multiset(),
    ensures
        forall|x: T| a.contains(x) == b.contains(x),
{
    lemma_contains_of_multiset_eq(a, b);
    lemma_contains_of_multiset_eq(b, a);
}

/// What a pushed sequence contains: the old contents and the new element.
pub proof fn lemma_contains_push<T>(s: Seq<T>, x: T, y: T)
    ensures
        s.push(x).contains(y) == (s.contains(y) || x == y),
{
    if s.contains(y) {
        let i = choose|i: int| 0 <= i < s.len() && s[i] == y;
        assert(s.push(x)[i] == y);
    }
    if x == y {
        assert(s.push(x)[s.len() as int] == y);
    }
    if s.push(x).contains(y) {
        let i = choose|i: int| 0 <= i < s.push(x).len() && s.push(x)[i] == y;
        if i < s.len() {
            assert(s[i] == y);
        }
    }
}

} // verus!
