//! The epoch: every language becomes a protolanguage that holds what it
//! inherited, overlaid by what it had of its own.

use std::collections::HashMap;
use vstd::prelude::*;
use vstd::string::StringExecFns;

use crate::inventory::{entries, lists};
use crate::language::{name_views, phoneme_views, Language};
use crate::language_group::{find_protolanguage, resolve, LanguageGroup};
use crate::phoneme::{Phoneme, PhonemeView};
use crate::protolanguage::Protolanguage;

verus! {

broadcast use vstd::std_specs::hash::group_hash_axioms;

/// What the ancestor called `name` contributes to its descendants: the
/// phonemes of the protolanguage it resolves to, or nothing.
pub open spec fn contribution(pool: Seq<Protolanguage>, name: Seq<char>) -> Map<u128, PhonemeView> {
    match resolve(pool, name) {
        Some(proto) => phoneme_views(proto.phonemes@),
        None => Map::empty(),
    }
}

/// What the ancestors hand down together: their contributions folded in
/// stored order, a later ancestor's entry replacing an earlier one's.
pub open spec fn handed_down(pool: Seq<Protolanguage>, ancestors: Seq<Seq<char>>) -> Map<
    u128,
    PhonemeView,
>
    decreases ancestors.len(),
{
    if ancestors.len() == 0 {
        Map::empty()
    } else {
        handed_down(pool, ancestors.drop_last()).union_prefer_right(
            contribution(pool, ancestors.last()),
        )
    }
}

/// The phonemes of a language after an epoch: what was handed down, with
/// the language's own entries on top.
pub open spec fn epoch_phonemes(pool: Seq<Protolanguage>, lang: Language) -> Map<u128, PhonemeView> {
    handed_down(pool, name_views(lang.ancestors@)).union_prefer_right(
        phoneme_views(lang.phonemes@),
    )
}

/// Folding from the front gives the same as folding from the back: the first
/// ancestor's contribution lies under what the others hand down.
pub proof fn lemma_handed_down_front(pool: Seq<Protolanguage>, ancestors: Seq<Seq<char>>)
    requires
        ancestors.len() > 0,
    ensures
        handed_down(pool, ancestors) == contribution(pool, ancestors.first()).union_prefer_right(
            handed_down(pool, ancestors.drop_first()),
        ),
    decreases ancestors.len(),
{
    let first = contribution(pool, ancestors.first());
    let last = contribution(pool, ancestors.last());
    if ancestors.len() == 1 {
        assert(ancestors.first() == ancestors.last());
        assert(handed_down(pool, ancestors.drop_last()) =~= Map::<u128, PhonemeView>::empty());
        assert(handed_down(pool, ancestors.drop_first()) =~= Map::<u128, PhonemeView>::empty());
        assert(handed_down(pool, ancestors) =~= first.union_prefer_right(
            handed_down(pool, ancestors.drop_first()),
        ));
    } else {
        let front = ancestors.drop_last();
        let back = ancestors.drop_first();
        lemma_handed_down_front(pool, front);
        assert(front.first() == ancestors.first());
        assert(back.last() == ancestors.last());
        assert(front.drop_first() =~= back.drop_last());
        let middle = handed_down(pool, back.drop_last());
        assert(handed_down(pool, back) == middle.union_prefer_right(last));
        assert(handed_down(pool, front) == first.union_prefer_right(middle));
        assert(first.union_prefer_right(middle).union_prefer_right(last)
            =~= first.union_prefer_right(middle.union_prefer_right(last)));
    }
}

/// Adds to `target` every phoneme of `source` whose identifier `target`
/// lacks. What `target` held stays as it was.
pub fn fill_missing(target: &mut HashMap<u128, Phoneme>, source: &HashMap<u128, Phoneme>)
    ensures
        phoneme_views(final(target)@) == phoneme_views(source@).union_prefer_right(
            phoneme_views(old(target)@),
        ),
        forall|id: u128| #[trigger]
            old(target)@.contains_key(id) ==> final(target)@.contains_key(id)
                && final(target)@[id] == old(target)@[id],
{
    let mut list = entries(source);
    let ghost full = list@;
    let ghost before = target@;
    while list.len() > 0
        invariant
            lists(full, source@),
            list@.len() <= full.len(),
            list@ == full.subrange(0, list@.len() as int),
            forall|id: u128| #[trigger]
                before.contains_key(id) ==> target@.contains_key(id) && target@[id] == before[id],
            forall|i: int|
                list@.len() <= i < full.len() ==> target@.contains_key((#[trigger] full[i]).0),
            forall|id: u128| #[trigger]
                target@.contains_key(id) && !before.contains_key(id) ==> source@.contains_key(id)
                    && target@[id]@ == source@[id]@,
        decreases list.len(),
    {
        let ghost at = list@.len() - 1;
        let ghost shown = target@;
        let (id, phoneme) = list.pop().unwrap();
        assert(full[at] == (id, phoneme));
        if !target.contains_key(&id) {
            target.insert(id, phoneme);
        }
        assert forall|i: int| list@.len() <= i < full.len() implies target@.contains_key(
            (#[trigger] full[i]).0,
        ) by {
            if i > at {
                assert(shown.contains_key(full[i].0));
            }
        }
    }
    proof {
        let got = phoneme_views(target@);
        let want = phoneme_views(source@).union_prefer_right(phoneme_views(before));
        assert forall|id: u128| got.contains_key(id) <==> want.contains_key(id) by {
            if source@.contains_key(id) {
                let i = choose|i: int| 0 <= i < full.len() && (#[trigger] full[i]).0 == id;
                assert(target@.contains_key(full[i].0));
            }
        }
        assert(got =~= want);
    }
}

/// Turns a language into the protolanguage that an epoch makes of it: same
/// name and description; its own phonemes, and under them what its ancestors
/// in `pool` hand down.
pub fn inherit(pool: &Vec<Protolanguage>, lang: Language) -> (proto: Protolanguage)
    ensures
        proto.name == lang.name,
        proto.description == lang.description,
        phoneme_views(proto.phonemes@) == epoch_phonemes(pool@, lang),
        forall|id: u128| #[trigger]
            lang.phonemes@.contains_key(id) ==> proto.phonemes@.contains_key(id)
                && proto.phonemes@[id] == lang.phonemes@[id],
{
    let Language { name, phonemes, description, ancestors } = lang;
    let mut phonemes = phonemes;
    let ghost own = phonemes@;
    let ghost names = name_views(ancestors@);
    let mut k: usize = ancestors.len();
    assert(names.skip(k as int) =~= Seq::<Seq<char>>::empty());
    assert(phoneme_views(phonemes@) =~= handed_down(pool@, names.skip(k as int)).union_prefer_right(
        phoneme_views(own),
    ));
    while k > 0
        invariant
            k <= ancestors.len(),
            names == name_views(ancestors@),
            phoneme_views(phonemes@) == handed_down(pool@, names.skip(k as int)).union_prefer_right(
                phoneme_views(own),
            ),
            forall|id: u128| #[trigger]
                own.contains_key(id) ==> phonemes@.contains_key(id) && phonemes@[id] == own[id],
        decreases k,
    {
        k -= 1;
        let ghost rest = names.skip(k as int);
        let ghost later = handed_down(pool@, names.skip(k as int + 1));
        let ghost held = phoneme_views(phonemes@);
        proof {
            assert(rest.first() == ancestors@[k as int]@);
            assert(rest.drop_first() =~= names.skip(k as int + 1));
            lemma_handed_down_front(pool@, rest);
        }
        if let Some(i) = find_protolanguage(pool, ancestors[k].as_str()) {
            fill_missing(&mut phonemes, &pool[i].phonemes);
            assert(contribution(pool@, rest.first()) == phoneme_views(pool@[i as int].phonemes@));
        }
        assert(phoneme_views(phonemes@) =~= contribution(pool@, rest.first()).union_prefer_right(
            held,
        ));
        assert(phoneme_views(phonemes@) =~= handed_down(pool@, rest).union_prefer_right(
            phoneme_views(own),
        ));
    }
    assert(names.skip(0) =~= names);
    Protolanguage { name, phonemes, description }
}

/// Whether `proto` is what an epoch makes of `lang` over `pool`: the same
/// name and description; the language's own phonemes untouched; and under
/// them what the ancestors hand down.
pub open spec fn is_epoch_of(proto: Protolanguage, pool: Seq<Protolanguage>, lang: Language) -> bool {
    &&& proto.name == lang.name
    &&& proto.description == lang.description
    &&& phoneme_views(proto.phonemes@) == epoch_phonemes(pool, lang)
    &&& forall|id: u128| #[trigger]
        lang.phonemes@.contains_key(id) ==> proto.phonemes@.contains_key(id)
            && proto.phonemes@[id] == lang.phonemes@[id]
}

/// Whether every ancestor that a language names resolves in the pool.
pub open spec fn ancestors_resolve(pool: Seq<Protolanguage>, langs: Seq<Language>) -> bool {
    forall|i: int, k: int|
        0 <= i < langs.len() && 0 <= k < langs[i].ancestors@.len() ==> resolve(
            pool,
            #[trigger] langs[i].ancestors@[k]@,
        ) is Some
}

/// Whether `after` is the group that an epoch makes of `before`: the
/// languages are gone; the protolanguages are what the epoch makes of the
/// former languages, one for each and in their order; version and family stay.
pub open spec fn is_epoch(before: LanguageGroup, after: LanguageGroup) -> bool {
    &&& after.langs@.len() == 0
    &&& after.protolangs@.len() == before.langs@.len()
    &&& forall|i: int|
        0 <= i < before.langs@.len() ==> is_epoch_of(
            #[trigger] after.protolangs@[i],
            before.protolangs@,
            before.langs@[i],
        )
    &&& after.version == before.version
    &&& after.family_id == before.family_id
}

/// Whether the `k`-th ancestor of the `i`-th language is the first reference
/// that does not resolve, going through the languages in order and through
/// the ancestors of each in order.
pub open spec fn is_first_dangling(
    pool: Seq<Protolanguage>,
    langs: Seq<Language>,
    i: int,
    k: int,
) -> bool {
    &&& 0 <= i < langs.len()
    &&& 0 <= k < langs[i].ancestors@.len()
    &&& resolve(pool, langs[i].ancestors@[k]@) is None
    &&& forall|j: int|
        0 <= j < k ==> resolve(pool, #[trigger] langs[i].ancestors@[j]@) is Some
    &&& ancestors_resolve(pool, langs.subrange(0, i))
}

/// A reference to an ancestor that no protolanguage bears.
#[derive(Debug, PartialEq)]
pub struct InvalidAncestorReference {
    /// The language that names the ancestor.
    pub language: String,
    /// The name that does not resolve.
    pub ancestor: String,
}

impl InvalidAncestorReference {
    /// The error in words.
    pub fn message(&self) -> (text: String)
        ensures
            text@ == "Invalid ancestor in "@ + self.language@ + ": "@ + self.ancestor@,
    {
        String::from_str("Invalid ancestor in ").concat(self.language.as_str()).concat(
            ": ",
        ).concat(self.ancestor.as_str())
    }
}

impl LanguageGroup {
    /// Creates a new epoch.
    ///
    /// All protolanguages are lost, and languages become protolanguages.
    /// All protolanguage phonemes are merged into the languages that descend
    /// from them before these become protolanguages; where both specify a
    /// phoneme under one id, the language's own is kept.
    ///
    /// An ancestor that does not resolve is a violation of the precondition:
    /// `try_epoch` tests for it.
    pub fn epoch(&mut self)
        requires
            ancestors_resolve(old(self).protolangs@, old(self).langs@),
        ensures
            is_epoch(*old(self), *final(self)),
    {
        let mut langs: Vec<Language> = Vec::new();
        std::mem::swap(&mut self.langs, &mut langs);
        let ghost stages = langs@;
        let mut next: Vec<Protolanguage> = Vec::new();
        for lang in it: langs
            invariant
                it.seq() == stages,
                next@.len() == it.index(),
                forall|i: int|
                    0 <= i < it.index() ==> is_epoch_of(
                        #[trigger] next@[i],
                        self.protolangs@,
                        stages[i],
                    ),
        {
            let proto = inherit(&self.protolangs, lang);
            next.push(proto);
        }
        self.protolangs = next;
    }

    /// Creates a new epoch if every ancestor that a language names resolves.
    /// Otherwise the group stays as it is, and the first reference that does
    /// not resolve is reported.
    pub fn try_epoch(&mut self) -> (outcome: Result<(), InvalidAncestorReference>)
        ensures
            match outcome {
                Ok(()) => ancestors_resolve(old(self).protolangs@, old(self).langs@) && is_epoch(
                    *old(self),
                    *final(self),
                ),
                Err(dangling) => *final(self) == *old(self) && exists|i: int, k: int|
                    #![trigger old(self).langs@[i].ancestors@[k]]
                    is_first_dangling(old(self).protolangs@, old(self).langs@, i, k)
                        && dangling.language@ == old(self).langs@[i].name@ && dangling.ancestor@
                        == old(self).langs@[i].ancestors@[k]@,
            },
    {
        match find_dangling(&self.protolangs, &self.langs) {
            Some((i, k)) => {
                let dangling = InvalidAncestorReference {
                    language: self.langs[i].name.clone(),
                    ancestor: self.langs[i].ancestors[k].clone(),
                };
                Err(dangling)
            },
            None => {
                self.epoch();
                Ok(())
            },
        }
    }
}

/// Looks for the first reference to an ancestor that does not resolve.
pub fn find_dangling(pool: &Vec<Protolanguage>, langs: &Vec<Language>) -> (found: Option<
    (usize, usize),
>)
    ensures
        match found {
            Some((i, k)) => is_first_dangling(pool@, langs@, i as int, k as int),
            None => ancestors_resolve(pool@, langs@),
        },
{
    let mut i: usize = 0;
    while i < langs.len()
        invariant
            i <= langs.len(),
            ancestors_resolve(pool@, langs@.subrange(0, i as int)),
        decreases langs.len() - i,
    {
        let mut k: usize = 0;
        while k < langs[i].ancestors.len()
            invariant
                i < langs.len(),
                k <= langs@[i as int].ancestors@.len(),
                ancestors_resolve(pool@, langs@.subrange(0, i as int)),
                forall|j: int|
                    0 <= j < k ==> resolve(pool@, #[trigger] langs@[i as int].ancestors@[j]@)
                        is Some,
            decreases langs@[i as int].ancestors@.len() - k,
        {
            if find_protolanguage(pool, langs[i].ancestors[k].as_str()).is_none() {
                return Some((i, k));
            }
            k += 1;
        }
        proof {
            let done = langs@.subrange(0, i as int + 1);
            assert forall|a: int, b: int|
                0 <= a < done.len() && 0 <= b < done[a].ancestors@.len() implies resolve(
                pool@,
                #[trigger] done[a].ancestors@[b]@,
            ) is Some by {
                if a < i {
                    assert(langs@.subrange(0, i as int)[a] == done[a]);
                }
            }
        }
        i += 1;
    }
    assert(langs@.subrange(0, i as int) =~= langs@);
    None
}

} // verus!
