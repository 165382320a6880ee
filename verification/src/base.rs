//! What languages and protolanguages have in common.

use std::collections::HashMap;
use vstd::prelude::*;

use crate::language::{name_views, Language};
use crate::phoneme::Phoneme;
use crate::protolanguage::Protolanguage;

verus! {

/// The two kinds of language-like entity.
#[derive(PartialEq, Eq, Structural, Copy, Clone, Debug)]
pub enum LanguageType {
    Protolanguage,
    Language,
}

/// A copy of a list of names.
pub fn clone_names(names: &Vec<String>) -> (copy: Vec<String>)
    ensures
        copy@ == names@,
{
    let mut copy: Vec<String> = Vec::new();
    let mut i: usize = 0;
    while i < names.len()
        invariant
            i <= names.len(),
            copy@ == names@.subrange(0, i as int),
        decreases names.len() - i,
    {
        copy.push(names[i].clone());
        assert(copy@ =~= names@.subrange(0, i as int + 1));
        i += 1;
    }
    assert(copy@ =~= names@);
    copy
}

/// The capability that a language and a protolanguage share: a name, a
/// description, the names of the ancestors, and the phonemes of its own.
pub trait BaseLanguage {
    /// The name.
    spec fn spec_name(&self) -> Seq<char>;

    /// The names of the ancestors, in stored order.
    spec fn spec_ancestors(&self) -> Seq<Seq<char>>;

    /// The description.
    spec fn spec_description(&self) -> Option<serde_json::Value>;

    /// The phonemes that the entity itself provides.
    spec fn spec_phonemes(&self) -> Map<u128, Phoneme>;

    fn ancestors(&self) -> (names: Vec<String>)
        ensures
            name_views(names@) == self.spec_ancestors(),
    ;

    fn name(&self) -> (name: &str)
        ensures
            name@ == self.spec_name(),
    ;

    fn description(&self) -> (description: Option<&serde_json::Value>)
        ensures
            match description {
                Some(value) => self.spec_description() == Some(*value),
                None => self.spec_description() is None,
            },
    ;

    /// What phonemes does this language actually provide
    fn phonemes(&self) -> (phonemes: &HashMap<u128, Phoneme>)
        ensures
            phonemes@ == self.spec_phonemes(),
    ;

    fn phonemes_mut(&mut self) -> (phonemes: &mut HashMap<u128, Phoneme>)
        ensures
            phonemes@ == old(self).spec_phonemes(),
            final(self).spec_phonemes() == final(phonemes)@,
            final(self).spec_name() == old(self).spec_name(),
            final(self).spec_ancestors() == old(self).spec_ancestors(),
            final(self).spec_description() == old(self).spec_description(),
    ;
}

impl BaseLanguage for Language {
    open spec fn spec_name(&self) -> Seq<char> {
        self.name@
    }

    open spec fn spec_ancestors(&self) -> Seq<Seq<char>> {
        name_views(self.ancestors@)
    }

    open spec fn spec_description(&self) -> Option<serde_json::Value> {
        self.description
    }

    open spec fn spec_phonemes(&self) -> Map<u128, Phoneme> {
        self.phonemes@
    }

    fn name(&self) -> (name: &str) {
        self.name.as_str()
    }

    fn ancestors(&self) -> (names: Vec<String>) {
        clone_names(&self.ancestors)
    }

    fn description(&self) -> (description: Option<&serde_json::Value>) {
        self.description.as_ref()
    }

    fn phonemes(&self) -> (phonemes: &HashMap<u128, Phoneme>) {
        &self.phonemes
    }

    fn phonemes_mut(&mut self) -> (phonemes: &mut HashMap<u128, Phoneme>) {
        &mut self.phonemes
    }
}

impl BaseLanguage for Protolanguage {
    open spec fn spec_name(&self) -> Seq<char> {
        self.name@
    }

    open spec fn spec_ancestors(&self) -> Seq<Seq<char>> {
        Seq::empty()
    }

    open spec fn spec_description(&self) -> Option<serde_json::Value> {
        self.description
    }

    open spec fn spec_phonemes(&self) -> Map<u128, Phoneme> {
        self.phonemes@
    }

    fn name(&self) -> (name: &str) {
        self.name.as_str()
    }

    fn ancestors(&self) -> (names: Vec<String>) {
        let names: Vec<String> = Vec::new();
        assert(name_views(names@) =~= Seq::<Seq<char>>::empty());
        names
    }

    fn description(&self) -> (description: Option<&serde_json::Value>) {
        self.description.as_ref()
    }

    fn phonemes(&self) -> (phonemes: &HashMap<u128, Phoneme>) {
        &self.phonemes
    }

    fn phonemes_mut(&mut self) -> (phonemes: &mut HashMap<u128, Phoneme>) {
        &mut self.phonemes
    }
}

} // verus!
