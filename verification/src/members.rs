//! The members of tables and objects: named values in a list, of which the last of a name counts.

use crate::text::same_text;
use vstd::prelude::*;

verus! {

/// Whether a member at a place is the last one of a name.
pub open spec fn last_named<V>(v: Seq<(String, V)>, name: Seq<char>, i: int) -> bool {
    &&& 0 <= i < v.len()
    &&& v[i].0@ == name
    &&& forall|j: int| i < j < v.len() ==> (#[trigger] v[j]).0@ != name
}

/// The place of the last member of a name; -1 where there is none.
pub open spec fn last_place<V>(v: Seq<(String, V)>, name: Seq<char>) -> int
    decreases v.len(),
{
    if v.len() == 0 {
        -1
    } else if v.last().0@ == name {
        v.len() - 1
    } else {
        last_place(v.drop_last(), name)
    }
}

/// The place of the last member of a name is one of that name, if there is one.
pub proof fn last_place_is_last<V>(v: Seq<(String, V)>, name: Seq<char>)
    ensures
        last_place(v, name) >= 0 ==> last_named(v, name, last_place(v, name)),
        last_place(v, name) < 0 ==> last_place(v, name) == -1 && forall|j: int|
            0 <= j < v.len() ==> (#[trigger] v[j]).0@ != name,
    decreases v.len(),
{
    if v.len() > 0 {
        last_place_is_last(v.drop_last(), name);
        let before = v.drop_last();
        assert forall|j: int| 0 <= j < before.len() implies #[trigger] v[j] == before[j] by {}
    }
}

/// The place of the last member of a name.
pub fn find_last<V>(members: &Vec<(String, V)>, name: &str) -> (r: Option<usize>)
    ensures
        match r {
            Some(i) => last_place(members@, name@) == i && i < members@.len(),
            None => last_place(members@, name@) < 0,
        },
{
    let mut i: usize = members.len();
    proof {
        last_place_is_last(members@, name@);
    }
    while i > 0
        invariant
            i <= members@.len(),
            forall|j: int| i <= j < members@.len() ==> (#[trigger] members@[j]).0@ != name@,
            last_place(members@, name@) >= 0 ==> last_named(members@, name@, last_place(members@, name@)),
            last_place(members@, name@) < 0 ==> forall|j: int|
                0 <= j < members@.len() ==> (#[trigger] members@[j]).0@ != name@,
        decreases i,
    {
        i -= 1;
        if same_text(members[i].0.as_str(), name) {
            return Some(i);
        }
    }
    None
}

} // verus!
