//! The merge: the languages of another snapshot of the family replace
//! those of this one, shorn of the ancestors that this one does not know.

use vstd::prelude::*;

use crate::description::clone_description;
use crate::inventory::clone_phonemes;
use crate::language::{name_views, phoneme_views, Language};
use crate::language_group::{find_protolanguage, resolve, LanguageGroup};
use crate::protolanguage::Protolanguage;

verus! {

/// The test that a name resolves in `pool`.
pub open spec fn resolves_in(pool: Seq<Protolanguage>) -> spec_fn(Seq<char>) -> bool {
    |name: Seq<char>| resolve(pool, name) is Some
}

/// The ancestors that a merge keeps: those that resolve in `pool`, in their
/// order.
pub open spec fn present_ancestors(pool: Seq<Protolanguage>, ancestors: Seq<Seq<char>>) -> Seq<
    Seq<char>,
> {
    ancestors.filter(resolves_in(pool))
}

/// Whether `copy` is `lang` as a merge takes it over: name, description and
/// phonemes as they were; of the ancestors, those that resolve in `pool`.
pub open spec fn is_pruned_copy(copy: Language, lang: Language, pool: Seq<Protolanguage>) -> bool {
    &&& copy.name == lang.name
    &&& copy.description == lang.description
    &&& phoneme_views(copy.phonemes@) == phoneme_views(lang.phonemes@)
    &&& name_views(copy.ancestors@) == present_ancestors(pool, name_views(lang.ancestors@))
}

/// Whether `after` is `before` with the languages of `incoming` merged in:
/// the languages are pruned copies of the incoming ones, one for each and in
/// their order; everything else stays.
pub open spec fn is_merge(before: LanguageGroup, incoming: LanguageGroup, after: LanguageGroup) -> bool {
    &&& after.protolangs == before.protolangs
    &&& after.version == before.version
    &&& after.family_id == before.family_id
    &&& after.langs@.len() == incoming.langs@.len()
    &&& forall|i: int|
        0 <= i < incoming.langs@.len() ==> is_pruned_copy(
            #[trigger] after.langs@[i],
            incoming.langs@[i],
            before.protolangs@,
        )
}

/// The names of `ancestors` that resolve in `pool`, in their order.
pub fn prune_ancestors(pool: &Vec<Protolanguage>, ancestors: &Vec<String>) -> (present: Vec<String>)
    ensures
        name_views(present@) == present_ancestors(pool@, name_views(ancestors@)),
{
    let ghost names = name_views(ancestors@);
    let ghost keep = resolves_in(pool@);
    let mut present: Vec<String> = Vec::new();
    let mut k: usize = 0;
    proof {
        reveal(Seq::filter);
        assert(names.subrange(0, 0) =~= Seq::<Seq<char>>::empty());
        assert(name_views(present@) =~= names.subrange(0, 0).filter(keep));
    }
    while k < ancestors.len()
        invariant
            k <= ancestors.len(),
            names == name_views(ancestors@),
            keep == resolves_in(pool@),
            name_views(present@) == names.subrange(0, k as int).filter(keep),
        decreases ancestors.len() - k,
    {
        let ghost seen = names.subrange(0, k as int);
        let ghost next = names.subrange(0, k as int + 1);
        let ghost kept = name_views(present@);
        proof {
            reveal(Seq::filter);
            assert(next.drop_last() =~= seen);
            assert(next.last() == ancestors@[k as int]@);
            assert(keep(next.last()) == resolve(pool@, next.last()) is Some);
        }
        if find_protolanguage(pool, ancestors[k].as_str()).is_some() {
            present.push(ancestors[k].clone());
            assert(name_views(present@) =~= kept.push(next.last()));
        }
        k += 1;
    }
    assert(names.subrange(0, k as int) =~= names);
    present
}

impl LanguageGroup {
    /// Merges in languages of a language group.
    ///
    /// Loads only languages from an input language group, removing data that references
    /// something that isn't provided by the protolanguages in existence.
    ///
    /// ### Warning
    /// This should only be called if the input language group shares
    /// the family id with this language group. Also, is lossy in that
    /// a merge will *replace* the languages that exist.
    pub fn merge(&mut self, langs_from: &LanguageGroup)
        requires
            langs_from.family_id == old(self).family_id,
        ensures
            is_merge(*old(self), *langs_from, *final(self)),
    {
        let mut modded_langs: Vec<Language> = Vec::new();
        let mut i: usize = 0;
        while i < langs_from.langs.len()
            invariant
                i <= langs_from.langs.len(),
                *self == *old(self),
                modded_langs@.len() == i,
                forall|j: int|
                    0 <= j < i ==> is_pruned_copy(
                        #[trigger] modded_langs@[j],
                        langs_from.langs@[j],
                        self.protolangs@,
                    ),
            decreases langs_from.langs.len() - i,
        {
            let lang = &langs_from.langs[i];
            let copy = Language {
                name: lang.name.clone(),
                phonemes: clone_phonemes(&lang.phonemes),
                description: clone_description(&lang.description),
                ancestors: prune_ancestors(&self.protolangs, &lang.ancestors),
            };
            modded_langs.push(copy);
            i += 1;
        }
        self.langs = modded_langs;
    }
}

} // verus!
