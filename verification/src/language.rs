//! Languages: descendants that name the protolanguages they come from.

use std::collections::HashMap;
use vstd::prelude::*;

use crate::base::clone_names;
use crate::description::clone_description;
use crate::inventory::clone_phonemes;
use crate::phoneme::{Phoneme, PhonemeView};

verus! {

/// The phonemes of a map, each by its view.
pub open spec fn phoneme_views(phonemes: Map<u128, Phoneme>) -> Map<u128, PhonemeView> {
    phonemes.map_values(|p: Phoneme| p@)
}

/// A descendant stage: its own phonemes and the names of its ancestors.
#[derive(Debug, PartialEq)]
pub struct Language {
    /// Uniquely identifies this language
    pub name: String,
    pub phonemes: HashMap<u128, Phoneme>,
    /// General information about the language
    pub description: Option<serde_json::Value>,
    /// Protolanguage names that this language is descended from
    pub ancestors: Vec<String>,
}

/// What a language holds, as mathematical values.
pub struct LanguageView {
    pub name: Seq<char>,
    pub phonemes: Map<u128, PhonemeView>,
    pub description: Option<serde_json::Value>,
    pub ancestors: Seq<Seq<char>>,
}

/// The names of a list, each by its view.
pub open spec fn name_views(names: Seq<String>) -> Seq<Seq<char>> {
    names.map_values(|s: String| s@)
}

impl View for Language {
    type V = LanguageView;

    open spec fn view(&self) -> LanguageView {
        LanguageView {
            name: self.name@,
            phonemes: phoneme_views(self.phonemes@),
            description: self.description,
            ancestors: name_views(self.ancestors@),
        }
    }
}

impl Default for Language {
    /// A language called "unnamed", with no phoneme, description or ancestor.
    fn default() -> (language: Language)
        ensures
            language@ == (LanguageView {
                name: "unnamed"@,
                phonemes: Map::<u128, PhonemeView>::empty(),
                description: None,
                ancestors: Seq::<Seq<char>>::empty(),
            }),
    {
        let language = Language {
            name: "unnamed".to_string(),
            phonemes: HashMap::new(),
            description: None,
            ancestors: Vec::new(),
        };
        assert(language@.phonemes =~= Map::<u128, PhonemeView>::empty());
        assert(language@.ancestors =~= Seq::<Seq<char>>::empty());
        language
    }
}

impl Clone for Language {
    fn clone(&self) -> (copy: Language)
        ensures
            copy@ == self@,
    {
        Language {
            name: self.name.clone(),
            phonemes: clone_phonemes(&self.phonemes),
            description: clone_description(&self.description),
            ancestors: clone_names(&self.ancestors),
        }
    }
}

} // verus!
