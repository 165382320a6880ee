//! Looking a name up in an ordered list of names.

use vstd::prelude::*;

verus! {

/// The position of the first occurrence of `name` in `names`, if there is one.
pub open spec fn first_index(names: Seq<Seq<char>>, name: Seq<char>) -> Option<int>
    decreases names.len(),
{
    if names.len() == 0 {
        None
    } else {
        match first_index(names.drop_last(), name) {
            Some(i) => Some(i),
            None => if names.last() == name {
                Some(names.len() - 1)
            } else {
                None
            },
        }
    }
}

/// No name occurs twice.
pub open spec fn all_distinct(names: Seq<Seq<char>>) -> bool {
    forall|i: int, j: int| 0 <= i < j < names.len() ==> names[i] != names[j]
}

/// `first_index` gives the least position that holds the name, and nothing
/// exactly when no position holds it.
pub proof fn lemma_first_index(names: Seq<Seq<char>>, name: Seq<char>)
    ensures
        match first_index(names, name) {
            Some(i) => 0 <= i < names.len() && names[i] == name && forall|j: int|
                0 <= j < i ==> names[j] != name,
            None => forall|j: int| 0 <= j < names.len() ==> names[j] != name,
        },
    decreases names.len(),
{
    if names.len() > 0 {
        let front = names.drop_last();
        lemma_first_index(front, name);
        match first_index(front, name) {
            Some(i) => {
                assert(names[i] == front[i]);
                assert forall|j: int| 0 <= j < i implies names[j] != name by {
                    assert(names[j] == front[j]);
                }
            },
            None => {
                assert forall|j: int| 0 <= j < names.len() - 1 implies names[j] != name by {
                    assert(names[j] == front[j]);
                }
            },
        }
    }
}

/// A position that holds the name, with none before it that does, is the one
/// that `first_index` gives.
pub proof fn lemma_first_index_is(names: Seq<Seq<char>>, name: Seq<char>, i: int)
    requires
        0 <= i < names.len(),
        names[i] == name,
        forall|j: int| 0 <= j < i ==> names[j] != name,
    ensures
        first_index(names, name) == Some(i),
{
    lemma_first_index(names, name);
}

/// A name that no position holds is not found.
pub proof fn lemma_first_index_none(names: Seq<Seq<char>>, name: Seq<char>)
    requires
        forall|j: int| 0 <= j < names.len() ==> names[j] != name,
    ensures
        first_index(names, name) is None,
{
    lemma_first_index(names, name);
}

/// Finds the first of `names` that equals `name`.
pub fn find_name(names: &Vec<String>, name: &str) -> (found: Option<usize>)
    ensures
        match found {
            Some(i) => first_index(names@.map_values(|s: String| s@), name@) == Some(i as int),
            None => first_index(names@.map_values(|s: String| s@), name@) is None,
        },
{
    let ghost views = names@.map_values(|s: String| s@);
    let mut i: usize = 0;
    while i < names.len()
        invariant
            i <= names.len(),
            views == names@.map_values(|s: String| s@),
            forall|j: int| 0 <= j < i ==> views[j] != name@,
        decreases names.len() - i,
    {
        assert(views[i as int] == names@[i as int]@);
        if names[i].as_str().eq(name) {
            proof {
                lemma_first_index_is(views, name@, i as int);
            }
            return Some(i);
        }
        i += 1;
    }
    proof {
        lemma_first_index_none(views, name@);
    }
    None
}

} // verus!
