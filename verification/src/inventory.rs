//! Listing what a map of phonemes holds.

use std::collections::HashMap;
use vstd::prelude::*;
use vstd::std_specs::iter::IteratorSpec;

use crate::language::phoneme_views;
use crate::phoneme::Phoneme;

verus! {

broadcast use vstd::std_specs::hash::group_hash_axioms;

/// Whether `entries` lists `phonemes`: every entry stands in the map under
/// its identifier, with the same content; no identifier is listed twice; and
/// every identifier of the map is listed.
pub open spec fn lists(entries: Seq<(u128, Phoneme)>, phonemes: Map<u128, Phoneme>) -> bool {
    &&& entries.len() == phonemes.len()
    &&& forall|i: int|
        0 <= i < entries.len() ==> phonemes.contains_key(#[trigger] entries[i].0)
            && entries[i].1@ == phonemes[entries[i].0]@
    &&& forall|i: int, j: int|
        0 <= i < j < entries.len() ==> (#[trigger] entries[i]).0 != (#[trigger] entries[j]).0
    &&& forall|id: u128|
        phonemes.contains_key(id) ==> exists|i: int|
            0 <= i < entries.len() && (#[trigger] entries[i]).0 == id
}

/// Copies out the entries of a map of phonemes, in the order in which the
/// map hands them over.
pub fn entries(phonemes: &HashMap<u128, Phoneme>) -> (out: Vec<(u128, Phoneme)>)
    ensures
        lists(out@, phonemes@),
{
    let mut out: Vec<(u128, Phoneme)> = Vec::new();
    for pair in it: phonemes.iter()
        invariant
            it.seq() == phonemes.iter().remaining(),
            it.seq().no_duplicates(),
            out@.len() == it.index(),
            forall|j: int|
                0 <= j < it.index() ==> (#[trigger] out@[j]).0 == *it.seq()[j].0 && out@[j].1@ == (
                *it.seq()[j].1)@,
    {
        let (id, phoneme) = pair;
        out.push((*id, phoneme.clone()));
    }
    proof {
        let walk = phonemes.iter().remaining();
        assert(out@.len() == walk.len());
        assert forall|i: int, j: int| 0 <= i < j < out@.len() implies (#[trigger] out@[i]).0 != (
        #[trigger] out@[j]).0 by {
            if out@[i].0 == out@[j].0 {
                assert(phonemes@[*walk[i].0] == *walk[i].1);
                assert(phonemes@[*walk[j].0] == *walk[j].1);
                assert(walk[i] == walk[j]);
            }
        }
        assert forall|id: u128| phonemes@.contains_key(id) implies exists|i: int|
            0 <= i < out@.len() && (#[trigger] out@[i]).0 == id by {
            assert(walk.contains((&id, &phonemes@[id])));
            let i = choose|i: int| 0 <= i < walk.len() && walk[i] == (&id, &phonemes@[id]);
            assert(out@[i].0 == id);
        }
    }
    out
}

/// A copy of a map of phonemes: the same identifiers, each with a phoneme of
/// the same content.
pub fn clone_phonemes(phonemes: &HashMap<u128, Phoneme>) -> (copy: HashMap<u128, Phoneme>)
    ensures
        phoneme_views(copy@) == phoneme_views(phonemes@),
{
    let mut list = entries(phonemes);
    let ghost full = list@;
    let mut copy: HashMap<u128, Phoneme> = HashMap::new();
    while list.len() > 0
        invariant
            lists(full, phonemes@),
            list@.len() <= full.len(),
            list@ == full.subrange(0, list@.len() as int),
            forall|i: int|
                list@.len() <= i < full.len() ==> copy@.contains_key((#[trigger] full[i]).0),
            forall|id: u128| #[trigger]
                copy@.contains_key(id) ==> phonemes@.contains_key(id) && copy@[id]@
                    == phonemes@[id]@,
        decreases list.len(),
    {
        let ghost at = list@.len() - 1;
        let ghost shown = copy@;
        let (id, phoneme) = list.pop().unwrap();
        assert(full[at] == (id, phoneme));
        copy.insert(id, phoneme);
        assert forall|i: int| list@.len() <= i < full.len() implies copy@.contains_key(
            (#[trigger] full[i]).0,
        ) by {
            if i > at {
                assert(shown.contains_key(full[i].0));
            }
        }
    }
    proof {
        assert forall|id: u128| phonemes@.contains_key(id) implies copy@.contains_key(id) by {
            let i = choose|i: int| 0 <= i < full.len() && (#[trigger] full[i]).0 == id;
            assert(copy@.contains_key(full[i].0));
        }
        assert(phoneme_views(copy@) =~= phoneme_views(phonemes@));
    }
    copy
}

} // verus!
