use vstd::prelude::*;

verus! {

/// The element views of a sequence of viewable values.
pub open spec fn views<T: View>(s: Seq<T>) -> Seq<T::V> {
    s.map_values(|x: T| x@)
}

/// Pushing a value and then taking views is taking views and then pushing
/// the value's view.
pub proof fn lemma_views_push<T: View>(s: Seq<T>, x: T)
    ensures
        views(s.push(x)) == views(s).push(x@),
{
    assert(views(s.push(x)) =~= views(s).push(x@));
}

/// Pushing a fresh value keeps a sequence duplicate-free.
pub proof fn lemma_push_no_duplicates<A>(s: Seq<A>, x: A)
    requires
        s.no_duplicates(),
        !s.contains(x),
    ensures
        s.push(x).no_duplicates(),
{
    let t = s.push(x);
    assert forall|i: int, j: int|
        0 <= i < t.len() && 0 <= j < t.len() && i != j implies t[i] != t[j] by {
        if i < s.len() && j < s.len() {
            assert(s[i] == t[i] && s[j] == t[j]);
        } else if j == s.len() && i < s.len() {
            assert(s.contains(s[i]));
        } else if i == s.len() && j < s.len() {
            assert(s.contains(s[j]));
        }
    }
}

} // verus!
