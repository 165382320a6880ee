//! Well-formed snapshots, and the validation that a snapshot from outside
//! goes through.

use std::collections::HashMap;
use vstd::prelude::*;

use crate::inventory::{entries, lists};
use crate::language::{name_views, phoneme_views, Language};
use crate::language_group::{
    language_names,
    protolanguage_names,
    LanguageGroup,
    LanguageGroupError,
};
use crate::names::{all_distinct, find_name, first_index, lemma_first_index};
use crate::phoneme::{Phoneme, PhonemeView};
use crate::protolanguage::Protolanguage;

verus! {

broadcast use vstd::std_specs::hash::group_hash_axioms;

/// What can be wrong with a name in a list of names.
pub enum NameFault {
    /// The name is blank.
    Blank,
    /// The name stands in the list a second time.
    Taken(Seq<char>),
}

/// The first fault in a list of names, going through it in order: a blank
/// name, or a name that an earlier position holds.
pub open spec fn name_fault(names: Seq<Seq<char>>) -> Option<NameFault>
    decreases names.len(),
{
    if names.len() == 0 {
        None
    } else {
        match name_fault(names.drop_last()) {
            Some(fault) => Some(fault),
            None => if names.last().len() == 0 {
                Some(NameFault::Blank)
            } else if names.drop_last().contains(names.last()) {
                Some(NameFault::Taken(names.last()))
            } else {
                None
            },
        }
    }
}

/// A list of names has no fault exactly when no name is blank and no name
/// occurs twice.
pub proof fn law_names_without_fault(names: Seq<Seq<char>>)
    ensures
        name_fault(names) is None <==> all_distinct(names) && forall|i: int|
            0 <= i < names.len() ==> (#[trigger] names[i]).len() > 0,
    decreases names.len(),
{
    if names.len() > 0 {
        let front = names.drop_last();
        law_names_without_fault(front);
        assert forall|i: int| 0 <= i < front.len() implies front[i] == names[i] by {}
        if name_fault(names) is None {
            assert(!front.contains(names.last()));
            assert forall|i: int, j: int| 0 <= i < j < names.len() implies names[i] != names[j] by {
                if j == names.len() - 1 {
                    if names[i] == names[j] {
                        assert(front[i] == names.last());
                    }
                } else {
                    assert(front[i] == names[i] && front[j] == names[j]);
                }
            }
            assert forall|i: int| 0 <= i < names.len() implies (#[trigger] names[i]).len() > 0 by {
                if i < names.len() - 1 {
                    assert(front[i] == names[i]);
                }
            }
        }
        if all_distinct(names) && forall|i: int|
            0 <= i < names.len() ==> (#[trigger] names[i]).len() > 0 {
            assert forall|i: int, j: int| 0 <= i < j < front.len() implies front[i] != front[j] by {
                assert(front[i] == names[i] && front[j] == names[j]);
            }
            assert forall|i: int| 0 <= i < front.len() implies (#[trigger] front[i]).len() > 0 by {
                assert(front[i] == names[i]);
            }
            if front.contains(names.last()) {
                let i = choose|i: int| 0 <= i < front.len() && front[i] == names.last();
                assert(names[i] == names[names.len() - 1]);
            }
            assert(names[names.len() - 1].len() > 0);
        }
    }
}

/// Looks for the first fault in a list of names: its position, and whether
/// the name there is blank (else it is taken).
pub fn find_name_fault(names: &Vec<String>) -> (found: Option<(usize, bool)>)
    ensures
        match found {
            Some((i, blank)) => i < names.len() && name_fault(name_views(names@)) == Some(
                if blank {
                    NameFault::Blank
                } else {
                    NameFault::Taken(names@[i as int]@)
                },
            ),
            None => name_fault(name_views(names@)) is None,
        },
{
    let ghost views = name_views(names@);
    let mut i: usize = 0;
    assert(views.subrange(0, 0).len() == 0);
    while i < names.len()
        invariant
            i <= names.len(),
            views == name_views(names@),
            name_fault(views.subrange(0, i as int)) is None,
        decreases names.len() - i,
    {
        let ghost seen = views.subrange(0, i as int);
        let ghost next = views.subrange(0, i as int + 1);
        proof {
            assert(next.drop_last() =~= seen);
            assert(next.last() == names@[i as int]@);
            lemma_first_index(views, names@[i as int]@);
            if seen.contains(next.last()) {
                let j = choose|j: int| 0 <= j < seen.len() && seen[j] == next.last();
                assert(views[j] == next.last());
            }
        }
        let blank = names[i].as_str().is_empty();
        let taken = match find_name(names, names[i].as_str()) {
            Some(j) => j < i,
            None => false,
        };
        proof {
            if taken {
                let j = first_index(views, names@[i as int]@)->Some_0;
                assert(seen[j] == views[j]);
                assert(seen.contains(next.last()));
            }
        }
        if blank || taken {
            proof {
                lemma_fault_found(views, i as int + 1);
            }
            return Some((i, blank));
        }
        i += 1;
    }
    assert(views.subrange(0, i as int) =~= views);
    None
}

/// A fault among the first names of a list is the first fault of the list.
proof fn lemma_fault_found(names: Seq<Seq<char>>, upto: int)
    requires
        0 <= upto <= names.len(),
        name_fault(names.subrange(0, upto)) is Some,
    ensures
        name_fault(names) == name_fault(names.subrange(0, upto)),
    decreases names.len() - upto,
{
    if upto < names.len() {
        let longer = names.subrange(0, upto + 1);
        assert(longer.drop_last() =~= names.subrange(0, upto));
        lemma_fault_found(names, upto + 1);
    } else {
        assert(names.subrange(0, upto) =~= names);
    }
}

/// The fault that validation reports for a snapshot: the first fault among
/// the names of the protolanguages, else the first among the names of the
/// languages.
pub open spec fn group_fault(group: LanguageGroup) -> Option<LanguageGroupErrorView> {
    match name_fault(protolanguage_names(group.protolangs@)) {
        Some(NameFault::Blank) => Some(LanguageGroupErrorView::ProtolanguageEmptyName),
        Some(NameFault::Taken(name)) => Some(LanguageGroupErrorView::ProtolanguageExists(name)),
        None => match name_fault(language_names(group.langs@)) {
            Some(NameFault::Blank) => Some(LanguageGroupErrorView::LanguageEmptyName),
            Some(NameFault::Taken(name)) => Some(LanguageGroupErrorView::LanguageExists(name)),
            None => None,
        },
    }
}

/// An error of creation or validation, as mathematical values.
pub enum LanguageGroupErrorView {
    LanguageEmptyName,
    LanguageExists(Seq<char>),
    ProtolanguageEmptyName,
    ProtolanguageExists(Seq<char>),
}

impl View for LanguageGroupError {
    type V = LanguageGroupErrorView;

    open spec fn view(&self) -> LanguageGroupErrorView {
        match self {
            LanguageGroupError::LanguageEmptyName => LanguageGroupErrorView::LanguageEmptyName,
            LanguageGroupError::LanguageExists(name) => LanguageGroupErrorView::LanguageExists(
                name@,
            ),
            LanguageGroupError::ProtolanguageEmptyName => {
                LanguageGroupErrorView::ProtolanguageEmptyName
            },
            LanguageGroupError::ProtolanguageExists(name) => {
                LanguageGroupErrorView::ProtolanguageExists(name@)
            },
        }
    }
}

/// The phonemes of a map, each validated.
pub open spec fn all_validated(phonemes: Map<u128, PhonemeView>) -> Map<u128, PhonemeView> {
    phonemes.map_values(|p: PhonemeView| p.validated())
}

/// Whether every phoneme of a map is valid.
pub open spec fn all_valid(phonemes: Map<u128, PhonemeView>) -> bool {
    forall|id: u128| phonemes.contains_key(id) ==> (#[trigger] phonemes[id]).is_valid()
}

/// Validates every phoneme of a map.
pub fn validate_phonemes(phonemes: &HashMap<u128, Phoneme>) -> (clean: HashMap<u128, Phoneme>)
    ensures
        phoneme_views(clean@) == all_validated(phoneme_views(phonemes@)),
        all_valid(phoneme_views(clean@)),
{
    let mut list = entries(phonemes);
    let ghost full = list@;
    let mut clean: HashMap<u128, Phoneme> = HashMap::new();
    while list.len() > 0
        invariant
            lists(full, phonemes@),
            list@.len() <= full.len(),
            list@ == full.subrange(0, list@.len() as int),
            forall|i: int|
                list@.len() <= i < full.len() ==> clean@.contains_key((#[trigger] full[i]).0),
            forall|id: u128| #[trigger]
                clean@.contains_key(id) ==> phonemes@.contains_key(id) && clean@[id]@
                    == phonemes@[id]@.validated() && clean@[id]@.is_valid(),
        decreases list.len(),
    {
        let ghost at = list@.len() - 1;
        let ghost shown = clean@;
        let (id, phoneme) = list.pop().unwrap();
        assert(full[at] == (id, phoneme));
        clean.insert(id, phoneme.validated());
        assert forall|i: int| list@.len() <= i < full.len() implies clean@.contains_key(
            (#[trigger] full[i]).0,
        ) by {
            if i > at {
                assert(shown.contains_key(full[i].0));
            }
        }
    }
    proof {
        assert forall|id: u128| phonemes@.contains_key(id) implies clean@.contains_key(id) by {
            let i = choose|i: int| 0 <= i < full.len() && (#[trigger] full[i]).0 == id;
            assert(clean@.contains_key(full[i].0));
        }
        assert(phoneme_views(clean@) =~= all_validated(phoneme_views(phonemes@)));
    }
    clean
}

/// Whether `after` is `before` with every phoneme validated.
pub open spec fn is_validation_of(after: LanguageGroup, before: LanguageGroup) -> bool {
    &&& after.version == before.version
    &&& after.family_id == before.family_id
    &&& after.protolangs@.len() == before.protolangs@.len()
    &&& after.langs@.len() == before.langs@.len()
    &&& forall|i: int|
        0 <= i < before.protolangs@.len() ==> {
            &&& (#[trigger] after.protolangs@[i]).name == before.protolangs@[i].name
            &&& after.protolangs@[i].description == before.protolangs@[i].description
            &&& phoneme_views(after.protolangs@[i].phonemes@) == all_validated(
                phoneme_views(before.protolangs@[i].phonemes@),
            )
        }
    &&& forall|i: int|
        0 <= i < before.langs@.len() ==> {
            &&& (#[trigger] after.langs@[i]).name == before.langs@[i].name
            &&& after.langs@[i].description == before.langs@[i].description
            &&& after.langs@[i].ancestors == before.langs@[i].ancestors
            &&& phoneme_views(after.langs@[i].phonemes@) == all_validated(
                phoneme_views(before.langs@[i].phonemes@),
            )
        }
}

/// The names of the protolanguages, copied out in order.
pub fn names_of_protolanguages(pool: &Vec<Protolanguage>) -> (names: Vec<String>)
    ensures
        name_views(names@) == protolanguage_names(pool@),
{
    let mut names: Vec<String> = Vec::new();
    let mut i: usize = 0;
    while i < pool.len()
        invariant
            i <= pool.len(),
            names@.len() == i,
            forall|j: int| 0 <= j < i ==> (#[trigger] names@[j])@ == pool@[j].name@,
        decreases pool.len() - i,
    {
        names.push(pool[i].name.clone());
        i += 1;
    }
    assert(name_views(names@) =~= protolanguage_names(pool@));
    names
}

/// The names of the languages, copied out in order.
pub fn names_of_languages(langs: &Vec<Language>) -> (names: Vec<String>)
    ensures
        name_views(names@) == language_names(langs@),
{
    let mut names: Vec<String> = Vec::new();
    let mut i: usize = 0;
    while i < langs.len()
        invariant
            i <= langs.len(),
            names@.len() == i,
            forall|j: int| 0 <= j < i ==> (#[trigger] names@[j])@ == langs@[j].name@,
        decreases langs.len() - i,
    {
        names.push(langs[i].name.clone());
        i += 1;
    }
    assert(name_views(names@) =~= language_names(langs@));
    names
}

impl LanguageGroup {
    /// Whether the snapshot keeps the invariants of the data: no name is
    /// blank; no two protolanguages and no two languages bear the same name;
    /// and every phoneme is valid.
    pub open spec fn is_well_formed(self) -> bool {
        &&& name_fault(protolanguage_names(self.protolangs@)) is None
        &&& name_fault(language_names(self.langs@)) is None
        &&& forall|i: int|
            0 <= i < self.protolangs@.len() ==> all_valid(
                phoneme_views(#[trigger] self.protolangs@[i].phonemes@),
            )
        &&& forall|i: int|
            0 <= i < self.langs@.len() ==> all_valid(
                phoneme_views(#[trigger] self.langs@[i].phonemes@),
            )
    }

    /// Validates a snapshot that comes from outside. A blank name, or a name
    /// that two protolanguages or two languages share, is refused. Otherwise
    /// every phoneme is validated, and the snapshot is well formed.
    pub fn validate(self) -> (outcome: Result<LanguageGroup, LanguageGroupError>)
        ensures
            match outcome {
                Ok(group) => group_fault(self) is None && is_validation_of(group, self)
                    && group.is_well_formed(),
                Err(e) => group_fault(self) == Some(e@),
            },
    {
        let proto_names = names_of_protolanguages(&self.protolangs);
        if let Some((i, blank)) = find_name_fault(&proto_names) {
            if blank {
                return Err(LanguageGroupError::ProtolanguageEmptyName);
            }
            return Err(LanguageGroupError::ProtolanguageExists(proto_names[i].clone()));
        }
        let lang_names = names_of_languages(&self.langs);
        if let Some((i, blank)) = find_name_fault(&lang_names) {
            if blank {
                return Err(LanguageGroupError::LanguageEmptyName);
            }
            return Err(LanguageGroupError::LanguageExists(lang_names[i].clone()));
        }
        let LanguageGroup { version, family_id, protolangs, langs } = self;
        let ghost old_protos = protolangs@;
        let ghost old_langs = langs@;
        let mut clean_protos: Vec<Protolanguage> = Vec::new();
        for proto in it: protolangs
            invariant
                it.seq() == old_protos,
                clean_protos@.len() == it.index(),
                forall|j: int|
                    0 <= j < it.index() ==> {
                        &&& (#[trigger] clean_protos@[j]).name == old_protos[j].name
                        &&& clean_protos@[j].description == old_protos[j].description
                        &&& phoneme_views(clean_protos@[j].phonemes@) == all_validated(
                            phoneme_views(old_protos[j].phonemes@),
                        )
                        &&& all_valid(phoneme_views(clean_protos@[j].phonemes@))
                    },
        {
            let phonemes = validate_phonemes(&proto.phonemes);
            clean_protos.push(
                Protolanguage { name: proto.name, phonemes, description: proto.description },
            );
        }
        let mut clean_langs: Vec<Language> = Vec::new();
        for lang in it: langs
            invariant
                it.seq() == old_langs,
                clean_langs@.len() == it.index(),
                forall|j: int|
                    0 <= j < it.index() ==> {
                        &&& (#[trigger] clean_langs@[j]).name == old_langs[j].name
                        &&& clean_langs@[j].description == old_langs[j].description
                        &&& clean_langs@[j].ancestors == old_langs[j].ancestors
                        &&& phoneme_views(clean_langs@[j].phonemes@) == all_validated(
                            phoneme_views(old_langs[j].phonemes@),
                        )
                        &&& all_valid(phoneme_views(clean_langs@[j].phonemes@))
                    },
        {
            let phonemes = validate_phonemes(&lang.phonemes);
            clean_langs.push(
                Language {
                    name: lang.name,
                    phonemes,
                    description: lang.description,
                    ancestors: lang.ancestors,
                },
            );
        }
        let group = LanguageGroup {
            version,
            family_id,
            protolangs: clean_protos,
            langs: clean_langs,
        };
        proof {
            assert(protolanguage_names(group.protolangs@) =~= protolanguage_names(old_protos));
            assert(language_names(group.langs@) =~= language_names(old_langs));
        }
        Ok(group)
    }
}

} // verus!
