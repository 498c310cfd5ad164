//! Two facts about a list and the set of its items, for the collections
//! that hold each item once.

use vstd::prelude::*;

verus! {

/// One element more in the list is one element more in the set.
pub proof fn lemma_take_next_to_set<A>(s: Seq<A>, i: int)
    requires
        0 <= i < s.len(),
    ensures
        s.take(i + 1).to_set() =~= s.take(i).to_set().insert(s[i]),
        s.no_duplicates() ==> !s.take(i).to_set().contains(s[i]),
{
    let shorter = s.take(i);
    let longer = s.take(i + 1);
    assert forall|x: A| longer.to_set().contains(x) <==> shorter.to_set().insert(s[i]).contains(
        x,
    ) by {
        if longer.contains(x) {
            let j = choose|j: int| 0 <= j < longer.len() && longer[j] == x;
            if j < i {
                assert(shorter[j] == x);
            }
        }
        if shorter.contains(x) {
            let j = choose|j: int| 0 <= j < shorter.len() && shorter[j] == x;
            assert(longer[j] == x);
        }
        if x == s[i] {
            assert(longer[i] == x);
        }
    }
    if s.no_duplicates() && shorter.contains(s[i]) {
        let j = choose|j: int| 0 <= j < shorter.len() && shorter[j] == s[i];
        assert(s[j] == s[i]);
    }
}

/// Pushing an item onto a list adds it to the list's set; pushing an item
/// that the list does not hold keeps a list without duplicates so.
pub proof fn lemma_push_absent<A>(s: Seq<A>, x: A)
    ensures
        s.push(x).to_set() =~= s.to_set().insert(x),
        s.no_duplicates() && !s.contains(x) ==> s.push(x).no_duplicates(),
{
    let longer = s.push(x);
    let n = s.len() as int;
    assert(longer.take(n) =~= s);
    assert(longer.take(n + 1) =~= longer);
    lemma_take_next_to_set(longer, n);
    if s.no_duplicates() && !s.contains(x) {
        assert forall|i: int, j: int|
            0 <= i < longer.len() && 0 <= j < longer.len() && i != j implies longer[i]
            != longer[j] by {
            if i == n {
                assert(s[j] == longer[j]);
            } else if j == n {
                assert(s[i] == longer[i]);
            }
        }
    }
}

} // verus!
