//! Protolanguages: ancestral stages, the source of inherited phonemes.

use std::collections::HashMap;
use vstd::prelude::*;

use crate::description::clone_description;
use crate::inventory::clone_phonemes;
use crate::language::{phoneme_views, Language};
use crate::phoneme::{Phoneme, PhonemeView};

verus! {

/// An ancestral stage. It has no ancestors of its own.
#[derive(Debug, PartialEq)]
pub struct Protolanguage {
    pub name: String,
    pub phonemes: HashMap<u128, Phoneme>,
    pub description: Option<serde_json::Value>,
}

/// What a protolanguage holds, as mathematical values.
pub struct ProtolanguageView {
    pub name: Seq<char>,
    pub phonemes: Map<u128, PhonemeView>,
    pub description: Option<serde_json::Value>,
}

impl View for Protolanguage {
    type V = ProtolanguageView;

    open spec fn view(&self) -> ProtolanguageView {
        ProtolanguageView {
            name: self.name@,
            phonemes: phoneme_views(self.phonemes@),
            description: self.description,
        }
    }
}

impl Default for Protolanguage {
    /// A protolanguage called "unnamed", with no phoneme or description.
    fn default() -> (protolanguage: Protolanguage)
        ensures
            protolanguage@ == (ProtolanguageView {
                name: "unnamed"@,
                phonemes: Map::<u128, PhonemeView>::empty(),
                description: None,
            }),
    {
        let protolanguage = Protolanguage {
            name: "unnamed".to_string(),
            phonemes: HashMap::new(),
            description: None,
        };
        assert(protolanguage@.phonemes =~= Map::<u128, PhonemeView>::empty());
        protolanguage
    }
}

impl From<Language> for Protolanguage {
    /// The language as an ancestral stage: its name, phonemes and
    /// description, without its ancestors.
    fn from(value: Language) -> (protolanguage: Protolanguage) {
        Protolanguage {
            name: value.name,
            phonemes: value.phonemes,
            description: value.description,
        }
    }
}

impl vstd::std_specs::convert::FromSpecImpl<Language> for Protolanguage {
    open spec fn obeys_from_spec() -> bool {
        true
    }

    open spec fn from_spec(value: Language) -> Protolanguage {
        Protolanguage {
            name: value.name,
            phonemes: value.phonemes,
            description: value.description,
        }
    }
}

impl Clone for Protolanguage {
    fn clone(&self) -> (copy: Protolanguage)
        ensures
            copy@ == self@,
    {
        Protolanguage {
            name: self.name.clone(),
            phonemes: clone_phonemes(&self.phonemes),
            description: clone_description(&self.description),
        }
    }
}

} // verus!
