//! What is left of a list when some of its elements are kept.

use vstd::prelude::*;

verus! {

/// Of a list, those elements are kept that are to be kept, and no others.
pub proof fn kept_exactly<A>(s: Seq<A>, keep: spec_fn(A) -> bool)
    ensures
        s.filter(keep).len() <= s.len(),
        forall|i: int| 0 <= i < s.filter(keep).len() ==> keep(#[trigger] s.filter(keep)[i]) && s.contains(s.filter(keep)[i]),
        forall|i: int| 0 <= i < s.len() && keep(#[trigger] s[i]) ==> s.filter(keep).contains(s[i]),
    decreases s.len(),
{
    reveal(Seq::filter);
    if s.len() > 0 {
        let rest = s.drop_last();
        kept_exactly(rest, keep);
        let a = rest.filter(keep);
        let b = s.filter(keep);
        assert forall|i: int| 0 <= i < b.len() implies keep(#[trigger] b[i]) && s.contains(b[i]) by {
            if i < a.len() {
                assert(a[i] == b[i]);
                let k = choose|k: int| 0 <= k < rest.len() && rest[k] == a[i];
                assert(s[k] == b[i]);
            } else {
                assert(s[s.len() - 1] == b[i]);
            }
        }
        assert forall|i: int| 0 <= i < s.len() && keep(#[trigger] s[i]) implies b.contains(s[i]) by {
            if i < rest.len() {
                assert(rest[i] == s[i]);
                let k = choose|k: int| 0 <= k < a.len() && a[k] == s[i];
                assert(b[k] == s[i]);
            } else {
                assert(b[a.len() as int] == s[i]);
            }
        }
    }
}

/// To keep some elements, and of these some, is to keep those that are kept both times.
pub proof fn kept_twice<A>(s: Seq<A>, first: spec_fn(A) -> bool, second: spec_fn(A) -> bool)
    ensures
        s.filter(first).filter(second) == s.filter(|a: A| first(a) && second(a)),
    decreases s.len(),
{
    reveal(Seq::filter);
    if s.len() > 0 {
        let rest = s.drop_last();
        kept_twice(rest, first, second);
        if first(s.last()) {
            assert(s.filter(first).drop_last() =~= rest.filter(first));
            assert(s.filter(first).last() == s.last());
        }
    }
}

/// What is kept depends only on which elements are to be kept.
pub proof fn kept_alike<A>(s: Seq<A>, first: spec_fn(A) -> bool, second: spec_fn(A) -> bool)
    requires
        forall|i: int| 0 <= i < s.len() ==> first(#[trigger] s[i]) == second(s[i]),
    ensures
        s.filter(first) == s.filter(second),
    decreases s.len(),
{
    reveal(Seq::filter);
    if s.len() > 0 {
        let rest = s.drop_last();
        assert forall|i: int| 0 <= i < rest.len() implies first(#[trigger] rest[i]) == second(rest[i]) by {
            assert(rest[i] == s[i]);
        }
        kept_alike(rest, first, second);
        assert(s[s.len() - 1] == s.last());
    }
}

/// Of elements that are all different, those that are kept are all different.
pub proof fn kept_differ<A>(s: Seq<A>, keep: spec_fn(A) -> bool)
    requires
        s.no_duplicates(),
    ensures
        s.filter(keep).no_duplicates(),
    decreases s.len(),
{
    reveal(Seq::filter);
    if s.len() > 0 {
        let rest = s.drop_last();
        kept_differ(rest, keep);
        kept_exactly(rest, keep);
        let a = rest.filter(keep);
        let b = s.filter(keep);
        assert forall|i: int, j: int| 0 <= i < b.len() && 0 <= j < b.len() && i != j implies b[i] != b[j] by {
            if i < a.len() && j < a.len() {
                assert(a[i] != a[j]);
            } else {
                let k = if i < a.len() {
                    i
                } else {
                    j
                };
                assert(rest.contains(a[k]));
                let m = choose|m: int| 0 <= m < rest.len() && rest[m] == a[k];
                assert(s[m] != s[s.len() - 1]);
            }
        }
    }
}

} // verus!
