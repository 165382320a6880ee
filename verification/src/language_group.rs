//! Family snapshots: the protolanguages and languages of one family, and
//! the resolution of phonemes through one level of named ancestors.

use vstd::prelude::*;
use vstd::string::StringExecFns;

use crate::base::BaseLanguage;
use crate::ids::{is_random_id, random_id};
use crate::language::{Language, LanguageView};
use crate::names::{first_index, lemma_first_index_is, lemma_first_index_none};
use crate::phoneme::{Phoneme, PhonemeView};
use crate::protolanguage::{Protolanguage, ProtolanguageView};
use crate::version::{Version, VersionView};

verus! {

broadcast use vstd::std_specs::hash::group_hash_axioms;

/// One snapshot of a family of languages.
#[derive(Debug, PartialEq)]
pub struct LanguageGroup {
    pub version: Version,
    /// Identifies the same "family" of language groups
    ///
    /// All language groups that are related to each other have the same value
    pub family_id: u128,
    pub protolangs: Vec<Protolanguage>,
    pub langs: Vec<Language>,
}

/// The version of the data that this library writes.
pub open spec fn data_version() -> VersionView {
    VersionView {
        major: 0,
        minor: 1,
        patch: 0,
        pre: Seq::<char>::empty(),
        build: Seq::<char>::empty(),
    }
}

impl Default for LanguageGroup {
    /// A new family: no protolanguage, no language, the version of this
    /// library, and a family identifier drawn at random.
    fn default() -> (group: LanguageGroup)
        ensures
            group.version@ == data_version(),
            is_random_id(group.family_id),
            group.protolangs@.len() == 0,
            group.langs@.len() == 0,
    {
        LanguageGroup {
            version: Version::new(0, 1, 0),
            family_id: random_id(),
            protolangs: Vec::new(),
            langs: Vec::new(),
        }
    }
}

/// What a snapshot holds, as mathematical values.
pub struct LanguageGroupView {
    pub version: VersionView,
    pub family_id: u128,
    pub protolangs: Seq<ProtolanguageView>,
    pub langs: Seq<LanguageView>,
}

impl View for LanguageGroup {
    type V = LanguageGroupView;

    open spec fn view(&self) -> LanguageGroupView {
        LanguageGroupView {
            version: self.version@,
            family_id: self.family_id,
            protolangs: self.protolangs@.map_values(|p: Protolanguage| p@),
            langs: self.langs@.map_values(|l: Language| l@),
        }
    }
}

impl Clone for LanguageGroup {
    fn clone(&self) -> (copy: LanguageGroup)
        ensures
            copy@ == self@,
    {
        let mut protolangs: Vec<Protolanguage> = Vec::new();
        let mut i: usize = 0;
        while i < self.protolangs.len()
            invariant
                i <= self.protolangs.len(),
                protolangs@.len() == i,
                forall|j: int| 0 <= j < i ==> (#[trigger] protolangs@[j])@ == self.protolangs@[j]@,
            decreases self.protolangs.len() - i,
        {
            protolangs.push(self.protolangs[i].clone());
            i += 1;
        }
        let mut langs: Vec<Language> = Vec::new();
        let mut k: usize = 0;
        while k < self.langs.len()
            invariant
                k <= self.langs.len(),
                langs@.len() == k,
                forall|j: int| 0 <= j < k ==> (#[trigger] langs@[j])@ == self.langs@[j]@,
            decreases self.langs.len() - k,
        {
            langs.push(self.langs[k].clone());
            k += 1;
        }
        let copy = LanguageGroup {
            version: self.version.clone(),
            family_id: self.family_id,
            protolangs,
            langs,
        };
        assert(copy@.protolangs =~= self@.protolangs);
        assert(copy@.langs =~= self@.langs);
        copy
    }
}

/// The names of a list of protolanguages, in order.
pub open spec fn protolanguage_names(pool: Seq<Protolanguage>) -> Seq<Seq<char>> {
    pool.map_values(|p: Protolanguage| p.name@)
}

/// The names of a list of languages, in order.
pub open spec fn language_names(langs: Seq<Language>) -> Seq<Seq<char>> {
    langs.map_values(|l: Language| l.name@)
}

/// The protolanguage that a name resolves to: the first of the pool that
/// bears it.
pub open spec fn resolve(pool: Seq<Protolanguage>, name: Seq<char>) -> Option<Protolanguage> {
    match first_index(protolanguage_names(pool), name) {
        Some(i) => Some(pool[i]),
        None => None,
    }
}

/// Whether the ancestor called `name` provides `id`: the name resolves, and
/// the protolanguage it resolves to holds the identifier.
pub open spec fn provides(pool: Seq<Protolanguage>, name: Seq<char>, id: u128) -> bool {
    match resolve(pool, name) {
        Some(proto) => proto.phonemes@.contains_key(id),
        None => false,
    }
}

/// The phoneme that the ancestors hand down under `id`: that of the first
/// ancestor, in stored order, that provides it. A name that resolves to
/// nothing is passed over.
pub open spec fn inherited(pool: Seq<Protolanguage>, ancestors: Seq<Seq<char>>, id: u128) -> Option<
    Phoneme,
>
    decreases ancestors.len(),
{
    if ancestors.len() == 0 {
        None
    } else if provides(pool, ancestors.first(), id) {
        Some(resolve(pool, ancestors.first())->Some_0.phonemes@[id])
    } else {
        inherited(pool, ancestors.drop_first(), id)
    }
}

/// The phoneme that an entity sees under `id`: its own if it has one, else
/// the inherited one.
pub open spec fn visible(
    own: Map<u128, Phoneme>,
    pool: Seq<Protolanguage>,
    ancestors: Seq<Seq<char>>,
    id: u128,
) -> Option<Phoneme> {
    if own.contains_key(id) {
        Some(own[id])
    } else {
        inherited(pool, ancestors, id)
    }
}

/// Finds the first protolanguage of the pool that bears `name`.
pub fn find_protolanguage(pool: &Vec<Protolanguage>, name: &str) -> (found: Option<usize>)
    ensures
        match found {
            Some(i) => first_index(protolanguage_names(pool@), name@) == Some(i as int) && i
                < pool.len(),
            None => first_index(protolanguage_names(pool@), name@) is None,
        },
{
    let ghost names = protolanguage_names(pool@);
    let mut i: usize = 0;
    while i < pool.len()
        invariant
            i <= pool.len(),
            names == protolanguage_names(pool@),
            forall|j: int| 0 <= j < i ==> names[j] != name@,
        decreases pool.len() - i,
    {
        assert(names[i as int] == pool@[i as int].name@);
        if pool[i].name.as_str().eq(name) {
            proof {
                lemma_first_index_is(names, name@, i as int);
            }
            return Some(i);
        }
        i += 1;
    }
    proof {
        lemma_first_index_none(names, name@);
    }
    None
}

/// Finds the first language of the list that bears `name`.
pub fn find_language(langs: &Vec<Language>, name: &str) -> (found: Option<usize>)
    ensures
        match found {
            Some(i) => first_index(language_names(langs@), name@) == Some(i as int) && i
                < langs.len(),
            None => first_index(language_names(langs@), name@) is None,
        },
{
    let ghost names = language_names(langs@);
    let mut i: usize = 0;
    while i < langs.len()
        invariant
            i <= langs.len(),
            names == language_names(langs@),
            forall|j: int| 0 <= j < i ==> names[j] != name@,
        decreases langs.len() - i,
    {
        assert(names[i as int] == langs@[i as int].name@);
        if langs[i].name.as_str().eq(name) {
            proof {
                lemma_first_index_is(names, name@, i as int);
            }
            return Some(i);
        }
        i += 1;
    }
    proof {
        lemma_first_index_none(names, name@);
    }
    None
}

/// The first ancestor of the list, from position `from` on, that provides
/// `id`: the position in the pool of the protolanguage it resolves to.
fn find_provider(pool: &Vec<Protolanguage>, ancestors: &Vec<String>, id: u128) -> (found: Option<
    usize,
>)
    ensures
        match found {
            Some(i) => i < pool.len() && pool@[i as int].phonemes@.contains_key(id) && inherited(
                pool@,
                ancestors@.map_values(|s: String| s@),
                id,
            ) == Some(pool@[i as int].phonemes@[id]),
            None => inherited(pool@, ancestors@.map_values(|s: String| s@), id) is None,
        },
{
    let ghost names = ancestors@.map_values(|s: String| s@);
    let mut k: usize = 0;
    assert(names.skip(0) =~= names);
    while k < ancestors.len()
        invariant
            k <= ancestors.len(),
            names == ancestors@.map_values(|s: String| s@),
            inherited(pool@, names, id) == inherited(pool@, names.skip(k as int), id),
        decreases ancestors.len() - k,
    {
        let ghost rest = names.skip(k as int);
        assert(rest.first() == ancestors@[k as int]@);
        assert(rest.drop_first() =~= names.skip(k as int + 1));
        if let Some(i) = find_protolanguage(pool, ancestors[k].as_str()) {
            if pool[i].phonemes.contains_key(&id) {
                return Some(i);
            }
        }
        k += 1;
    }
    assert(names.skip(k as int).len() == 0);
    None
}

impl LanguageGroup {
    /// Getting a phoneme
    ///
    /// The given id must either match an id in the language itself,
    /// or be present in one of the languages's protolanguages.
    pub fn get_phoneme<'a, L: BaseLanguage>(
        protolangs: &'a Vec<Protolanguage>,
        lang: &'a L,
        id: u128,
    ) -> (found: Option<&'a Phoneme>)
        ensures
            match found {
                Some(phoneme) => visible(
                    lang.spec_phonemes(),
                    protolangs@,
                    lang.spec_ancestors(),
                    id,
                ) == Some(*phoneme),
                None => visible(lang.spec_phonemes(), protolangs@, lang.spec_ancestors(), id)
                    is None,
            },
    {
        if let Some(phon) = lang.phonemes().get(&id) {
            Some(phon)
        } else {
            let ancestors = lang.ancestors();
            match find_provider(protolangs, &ancestors, id) {
                Some(i) => protolangs[i].phonemes.get(&id),
                None => None,
            }
        }
    }

    /// Setting a phoneme
    ///
    /// The given id must either match an id in the language itself,
    /// or the id must be present in one of the languages's protolanguages.
    ///
    /// Returns success
    pub fn set_phoneme<L: BaseLanguage>(
        protolangs: &Vec<Protolanguage>,
        lang: &mut L,
        id: u128,
        phon: Phoneme,
    ) -> (done: bool)
        ensures
            done == visible(
                old(lang).spec_phonemes(),
                protolangs@,
                old(lang).spec_ancestors(),
                id,
            ) is Some,
            done ==> final(lang).spec_phonemes() == old(lang).spec_phonemes().insert(id, phon),
            !done ==> *final(lang) == *old(lang),
            final(lang).spec_name() == old(lang).spec_name(),
            final(lang).spec_ancestors() == old(lang).spec_ancestors(),
            final(lang).spec_description() == old(lang).spec_description(),
    {
        let local = lang.phonemes().contains_key(&id);
        let known = if local {
            true
        } else {
            let ancestors = lang.ancestors();
            find_provider(protolangs, &ancestors, id).is_some()
        };
        if known {
            let phonemes = lang.phonemes_mut();
            phonemes.insert(id, phon);
        }
        known
    }

    /// Removing a phoneme
    ///
    /// Takes the phoneme out of the entity's own phonemes and returns it.
    /// What the ancestors provide is never touched.
    pub fn delete_phoneme<L: BaseLanguage>(lang: &mut L, id: u128) -> (removed: Option<Phoneme>)
        ensures
            match removed {
                Some(phoneme) => old(lang).spec_phonemes().contains_key(id) && phoneme == old(lang).spec_phonemes()[id],
                None => !old(lang).spec_phonemes().contains_key(id),
            },
            final(lang).spec_phonemes() == old(lang).spec_phonemes().remove(id),
            final(lang).spec_name() == old(lang).spec_name(),
            final(lang).spec_ancestors() == old(lang).spec_ancestors(),
            final(lang).spec_description() == old(lang).spec_description(),
    {
        let phonemes = lang.phonemes_mut();
        phonemes.remove(&id)
    }
}

/// Why a language or a protolanguage could not be created.
#[derive(Debug, PartialEq)]
pub enum LanguageGroupError {
    /// cannot create a language with a blank name
    LanguageEmptyName,
    /// the language named so already exists
    LanguageExists(String),
    /// cannot create a proto-language with a blank name
    ProtolanguageEmptyName,
    /// the proto-language named so already exists
    ProtolanguageExists(String),
}

/// Whether `outcome` and the snapshot after it are what the creation of a
/// language called `name` owes. A name that is not blank and that no language
/// bears gives a new, empty language of that name at the end of the list. A
/// blank name, or one that is taken, is refused, and nothing changes.
pub open spec fn is_language_creation(
    before: LanguageGroup,
    after: LanguageGroup,
    name: String,
    outcome: Result<(), LanguageGroupError>,
) -> bool {
    match outcome {
        Ok(()) => {
            &&& name@.len() > 0
            &&& before.spec_language(name@) is None
            &&& after.langs@.len() == before.langs@.len() + 1
            &&& after.langs@.drop_last() == before.langs@
            &&& after.langs@.last()@ == (LanguageView {
                name: name@,
                phonemes: Map::<u128, PhonemeView>::empty(),
                description: None,
                ancestors: Seq::<Seq<char>>::empty(),
            })
            &&& after.protolangs == before.protolangs
            &&& after.version == before.version
            &&& after.family_id == before.family_id
        },
        Err(LanguageGroupError::LanguageEmptyName) => name@.len() == 0 && after == before,
        Err(LanguageGroupError::LanguageExists(taken)) => name@.len() > 0 && before.spec_language(
            name@,
        ) is Some && taken == name && after == before,
        Err(_) => false,
    }
}

/// Whether `outcome` and the snapshot after it are what the creation of a
/// protolanguage called `name` owes. A name that is not blank and that no
/// protolanguage bears gives a new, empty protolanguage of that name at the
/// end of the list. A blank name, or one that is taken, is refused, and
/// nothing changes.
pub open spec fn is_protolanguage_creation(
    before: LanguageGroup,
    after: LanguageGroup,
    name: String,
    outcome: Result<(), LanguageGroupError>,
) -> bool {
    match outcome {
        Ok(()) => {
            &&& name@.len() > 0
            &&& before.spec_protolanguage(name@) is None
            &&& after.protolangs@.len() == before.protolangs@.len() + 1
            &&& after.protolangs@.drop_last() == before.protolangs@
            &&& after.protolangs@.last()@ == (ProtolanguageView {
                name: name@,
                phonemes: Map::<u128, PhonemeView>::empty(),
                description: None,
            })
            &&& after.langs == before.langs
            &&& after.version == before.version
            &&& after.family_id == before.family_id
        },
        Err(LanguageGroupError::ProtolanguageEmptyName) => name@.len() == 0 && after == before,
        Err(LanguageGroupError::ProtolanguageExists(taken)) => name@.len() > 0
            && before.spec_protolanguage(name@) is Some && taken == name && after == before,
        Err(_) => false,
    }
}

impl LanguageGroupError {
    /// The error in words.
    pub open spec fn spec_message(self) -> Seq<char> {
        match self {
            LanguageGroupError::LanguageEmptyName => "cannot create a language with a blank name"@,
            LanguageGroupError::LanguageExists(name) => "the language named "@ + name@
                + " already exists"@,
            LanguageGroupError::ProtolanguageEmptyName => {
                "cannot create a proto-language with a blank name"@
            },
            LanguageGroupError::ProtolanguageExists(name) => "the proto-language named "@ + name@
                + " already exists"@,
        }
    }

    /// The error in words.
    pub fn message(&self) -> (text: String)
        ensures
            text@ == self.spec_message(),
    {
        match self {
            LanguageGroupError::LanguageEmptyName => String::from_str(
                "cannot create a language with a blank name",
            ),
            LanguageGroupError::LanguageExists(name) => String::from_str(
                "the language named ",
            ).concat(name.as_str()).concat(" already exists"),
            LanguageGroupError::ProtolanguageEmptyName => String::from_str(
                "cannot create a proto-language with a blank name",
            ),
            LanguageGroupError::ProtolanguageExists(name) => String::from_str(
                "the proto-language named ",
            ).concat(name.as_str()).concat(" already exists"),
        }
    }
}

// Language CRUD
impl LanguageGroup {
    /// The language that bears `name`: the first of the list that does.
    pub open spec fn spec_language(self, name: Seq<char>) -> Option<Language> {
        match first_index(language_names(self.langs@), name) {
            Some(i) => Some(self.langs@[i]),
            None => None,
        }
    }

    /// The protolanguage that bears `name`: the first of the list that does.
    pub open spec fn spec_protolanguage(self, name: Seq<char>) -> Option<Protolanguage> {
        resolve(self.protolangs@, name)
    }

    pub fn language(&self, name: &str) -> (found: Option<&Language>)
        ensures
            match found {
                Some(lang) => self.spec_language(name@) == Some(*lang),
                None => self.spec_language(name@) is None,
            },
    {
        match find_language(&self.langs, name) {
            Some(i) => Some(&self.langs[i]),
            None => None,
        }
    }

    pub fn language_mut(&mut self, name: &str) -> (found: Option<&mut Language>)
        ensures
            match found {
                Some(lang) => {
                    &&& first_index(language_names(old(self).langs@), name@) is Some
                    &&& *lang == old(self).langs@[first_index(
                        language_names(old(self).langs@),
                        name@,
                    )->Some_0]
                    &&& final(self).langs@ == old(self).langs@.update(
                        first_index(language_names(old(self).langs@), name@)->Some_0,
                        *final(lang),
                    )
                    &&& final(self).protolangs == old(self).protolangs
                    &&& final(self).version == old(self).version
                    &&& final(self).family_id == old(self).family_id
                },
                None => old(self).spec_language(name@) is None && *final(self) == *old(self),
            },
    {
        match find_language(&self.langs, name) {
            Some(i) => Some(&mut self.langs[i]),
            None => None,
        }
    }

    /// The languages, in stored order.
    pub fn languages(&self) -> (all: &Vec<Language>)
        ensures
            all@ == self.langs@,
    {
        &self.langs
    }

    /// Adds an empty language called `name`, unless the name is blank or
    /// taken by another language.
    pub fn create_language(&mut self, name: String) -> (outcome: Result<(), LanguageGroupError>)
        ensures
            is_language_creation(*old(self), *final(self), name, outcome),
    {
        if name.as_str().is_empty() {
            return Err(LanguageGroupError::LanguageEmptyName);
        }
        if find_language(&self.langs, name.as_str()).is_some() {
            return Err(LanguageGroupError::LanguageExists(name));
        }
        let mut lang = Language::default();
        lang.name = name;
        self.langs.push(lang);
        assert(self.langs@.drop_last() =~= old(self).langs@);
        Ok(())
    }

    /// Removes the language called `name`, if there is one.
    pub fn delete_language(&mut self, name: String)
        ensures
            match first_index(language_names(old(self).langs@), name@) {
                Some(i) => final(self).langs@ == old(self).langs@.remove(i),
                None => final(self).langs@ == old(self).langs@,
            },
            final(self).protolangs == old(self).protolangs,
            final(self).version == old(self).version,
            final(self).family_id == old(self).family_id,
    {
        if let Some(index) = find_language(&self.langs, name.as_str()) {
            self.langs.remove(index);
        }
    }
}

// Protolanguage CRUD
impl LanguageGroup {
    pub fn protolanguage(&self, name: &str) -> (found: Option<&Protolanguage>)
        ensures
            match found {
                Some(proto) => self.spec_protolanguage(name@) == Some(*proto),
                None => self.spec_protolanguage(name@) is None,
            },
    {
        match find_protolanguage(&self.protolangs, name) {
            Some(i) => Some(&self.protolangs[i]),
            None => None,
        }
    }

    pub fn protolanguage_mut(&mut self, name: &str) -> (found: Option<&mut Protolanguage>)
        ensures
            match found {
                Some(proto) => {
                    &&& first_index(protolanguage_names(old(self).protolangs@), name@) is Some
                    &&& *proto == old(self).protolangs@[first_index(
                        protolanguage_names(old(self).protolangs@),
                        name@,
                    )->Some_0]
                    &&& final(self).protolangs@ == old(self).protolangs@.update(
                        first_index(protolanguage_names(old(self).protolangs@), name@)->Some_0,
                        *final(proto),
                    )
                    &&& final(self).langs == old(self).langs
                    &&& final(self).version == old(self).version
                    &&& final(self).family_id == old(self).family_id
                },
                None => old(self).spec_protolanguage(name@) is None && *final(self) == *old(self),
            },
    {
        match find_protolanguage(&self.protolangs, name) {
            Some(i) => Some(&mut self.protolangs[i]),
            None => None,
        }
    }

    /// The protolanguages, in stored order.
    pub fn protolanguages(&self) -> (all: &Vec<Protolanguage>)
        ensures
            all@ == self.protolangs@,
    {
        &self.protolangs
    }

    /// Adds an empty protolanguage called `name`, unless the name is blank
    /// or taken by another protolanguage.
    pub fn create_protolanguage(&mut self, name: String) -> (outcome: Result<
        (),
        LanguageGroupError,
    >)
        ensures
            is_protolanguage_creation(*old(self), *final(self), name, outcome),
    {
        if name.as_str().is_empty() {
            return Err(LanguageGroupError::ProtolanguageEmptyName);
        }
        if find_protolanguage(&self.protolangs, name.as_str()).is_some() {
            return Err(LanguageGroupError::ProtolanguageExists(name));
        }
        let mut proto = Protolanguage::default();
        proto.name = name;
        self.protolangs.push(proto);
        assert(self.protolangs@.drop_last() =~= old(self).protolangs@);
        Ok(())
    }

    /// Removes the protolanguage called `name`, if there is one.
    pub fn delete_protolanguage(&mut self, name: String)
        ensures
            match first_index(protolanguage_names(old(self).protolangs@), name@) {
                Some(i) => final(self).protolangs@ == old(self).protolangs@.remove(i),
                None => final(self).protolangs@ == old(self).protolangs@,
            },
            final(self).langs == old(self).langs,
            final(self).version == old(self).version,
            final(self).family_id == old(self).family_id,
    {
        if let Some(index) = find_protolanguage(&self.protolangs, name.as_str()) {
            self.protolangs.remove(index);
        }
    }
}

} // verus!
