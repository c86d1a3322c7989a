//! Comparing text.

use vstd::prelude::*;

verus! {

/// Whether two strings hold the same characters.
pub fn str_eq(a: &str, b: &str) -> (same: bool)
    ensures
        same == (a@ == b@),
{
    let x = a.to_owned();
    let y = b.to_owned();
    x == y
}

/// The first position in `names` that holds `name`, or the length of
/// `names` if none does.
pub open spec fn first_named(names: Seq<Seq<char>>, name: Seq<char>) -> int
    decreases names.len(),
{
    if names.len() == 0 {
        0
    } else if names[0] == name {
        0
    } else {
        1 + first_named(names.skip(1), name)
    }
}

/// What `first_named` finds: no name before the result is `name`, and the one
/// at the result, if there is one, is.
pub proof fn lemma_first_named(names: Seq<Seq<char>>, name: Seq<char>)
    ensures
        0 <= first_named(names, name) <= names.len(),
        forall|j: int| 0 <= j < first_named(names, name) ==> names[j] != name,
        first_named(names, name) < names.len() ==> names[first_named(names, name)] == name,
    decreases names.len(),
{
    if names.len() > 0 && names[0] != name {
        let rest = names.skip(1);
        lemma_first_named(rest, name);
        assert forall|j: int| 0 <= j < first_named(names, name) implies names[j] != name by {
            if j > 0 {
                assert(rest[j - 1] == names[j]);
            }
        }
        if first_named(rest, name) < rest.len() {
            assert(rest[first_named(rest, name)] == names[first_named(rest, name) + 1]);
        }
    }
}

/// A position that holds `name` and has no earlier one that does is the
/// first such position.
pub proof fn lemma_first_named_is(names: Seq<Seq<char>>, name: Seq<char>, at: int)
    requires
        0 <= at <= names.len(),
        forall|j: int| 0 <= j < at ==> names[j] != name,
        at < names.len() ==> names[at] == name,
    ensures
        first_named(names, name) == at,
{
    lemma_first_named(names, name);
    let found = first_named(names, name);
    if found < at {
        assert(names[found] != name);
    }
}

/// Finds the first position in `names` that holds `name`.
pub fn position_of(names: &Vec<String>, name: &str) -> (r: Option<usize>)
    ensures
        match r {
            Some(at) => at < names@.len() && at == first_named(
                names@.map_values(|s: String| s@),
                name@,
            ),
            None => first_named(names@.map_values(|s: String| s@), name@) == names@.len(),
        },
{
    let mut i: usize = 0;
    while i < names.len()
        invariant
            0 <= i <= names@.len(),
            forall|j: int| 0 <= j < i ==> names@[j]@ != name@,
        decreases names@.len() - i,
    {
        if str_eq(names[i].as_str(), name) {
            proof {
                lemma_first_named_is(names@.map_values(|s: String| s@), name@, i as int);
            }
            return Some(i);
        }
        i += 1;
    }
    proof {
        lemma_first_named_is(names@.map_values(|s: String| s@), name@, names@.len() as int);
    }
    None
}

} // verus!
