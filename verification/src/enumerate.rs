//! Everything that an entity sees: its own phonemes, then those of each
//! ancestor.

use std::collections::HashMap;
use vstd::prelude::*;

use crate::inventory::{entries, lists};
use crate::language::name_views;
use crate::language_group::{find_protolanguage, resolve};
use crate::phoneme::Phoneme;
use crate::protolanguage::Protolanguage;

verus! {

/// Whether `out` is an enumeration for an entity with the phonemes `own`
/// and the ancestors `ancestors`: a listing of `own`, followed for each
/// ancestor that resolves, in stored order, by a listing of that ancestor's
/// phonemes. Nothing is merged: an identifier that several provide appears
/// once for each.
pub open spec fn enumerates(
    out: Seq<(u128, Phoneme)>,
    own: Map<u128, Phoneme>,
    pool: Seq<Protolanguage>,
    ancestors: Seq<Seq<char>>,
) -> bool
    decreases ancestors.len(),
{
    if ancestors.len() == 0 {
        lists(out, own)
    } else {
        match resolve(pool, ancestors.last()) {
            Some(proto) => {
                let cut = out.len() - proto.phonemes@.len();
                &&& cut >= 0
                &&& lists(out.subrange(cut, out.len() as int), proto.phonemes@)
                &&& enumerates(out.subrange(0, cut), own, pool, ancestors.drop_last())
            },
            None => enumerates(out, own, pool, ancestors.drop_last()),
        }
    }
}

/// Enumerates the phonemes that an entity sees: its own, then those of each
/// of its ancestors.
pub fn enumerate(
    pool: &Vec<Protolanguage>,
    own: &HashMap<u128, Phoneme>,
    ancestors: &Vec<String>,
) -> (out: Vec<(u128, Phoneme)>)
    ensures
        enumerates(out@, own@, pool@, name_views(ancestors@)),
{
    let ghost names = name_views(ancestors@);
    let mut out = entries(own);
    let mut k: usize = 0;
    assert(names.subrange(0, 0).len() == 0);
    while k < ancestors.len()
        invariant
            k <= ancestors.len(),
            names == name_views(ancestors@),
            enumerates(out@, own@, pool@, names.subrange(0, k as int)),
        decreases ancestors.len() - k,
    {
        let ghost seen = names.subrange(0, k as int);
        let ghost next = names.subrange(0, k as int + 1);
        let ghost before = out@;
        proof {
            assert(next.drop_last() =~= seen);
            assert(next.last() == ancestors@[k as int]@);
        }
        if let Some(i) = find_protolanguage(pool, ancestors[k].as_str()) {
            let mut more = entries(&pool[i].phonemes);
            let ghost added = more@;
            out.append(&mut more);
            proof {
                let cut = out@.len() - pool@[i as int].phonemes@.len();
                assert(cut == before.len());
                assert(out@.subrange(cut, out@.len() as int) =~= added);
                assert(out@.subrange(0, cut) =~= before);
            }
        }
        k += 1;
    }
    assert(names.subrange(0, k as int) =~= names);
    out
}

} // verus!
