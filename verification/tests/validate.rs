use lexi::validate::{find_name_fault, validate_phonemes};
use lexi::{
    Language, LanguageGroup, LanguageGroupError, Phone, Phoneme, Protolanguage, Version,
};
use std::collections::HashMap;

fn proto(name: &str) -> Protolanguage {
    Protolanguage { name: name.to_string(), ..Default::default() }
}

fn lang(name: &str) -> Language {
    Language { name: name.to_string(), ..Default::default() }
}

fn group(protolangs: Vec<Protolanguage>, langs: Vec<Language>) -> LanguageGroup {
    LanguageGroup { version: Version::new(0, 1, 0), family_id: 3, protolangs, langs }
}

fn names(list: &[&str]) -> Vec<String> {
    list.iter().map(|n| n.to_string()).collect()
}

#[test]
fn name_fault_is_the_first_in_order() {
    assert_eq!(find_name_fault(&names(&["a", "b", "c"])), None);
    assert_eq!(find_name_fault(&names(&[])), None);
    assert_eq!(find_name_fault(&names(&["a", "", "a"])), Some((1, true)));
    assert_eq!(find_name_fault(&names(&["a", "b", "a", ""])), Some((2, false)));
    assert_eq!(find_name_fault(&names(&["", ""])), Some((0, true)));
    assert_eq!(find_name_fault(&names(&["x", "y", "y", "x"])), Some((2, false)));
}

#[test]
fn validate_accepts_same_name_in_both_collections() {
    let g = group(vec![proto("a"), proto("b")], vec![lang("a"), lang("c")]);
    assert_eq!(g.clone().validate(), Ok(g));
}

#[test]
fn validate_reports_protolanguages_before_languages() {
    let g = group(vec![proto("a"), proto("a")], vec![lang("")]);
    assert_eq!(g.validate(), Err(LanguageGroupError::ProtolanguageExists("a".to_string())));
    let h = group(vec![proto("a"), proto("")], vec![lang("x"), lang("x")]);
    assert_eq!(h.validate(), Err(LanguageGroupError::ProtolanguageEmptyName));
}

#[test]
fn validate_reports_language_faults() {
    let g = group(vec![proto("a")], vec![lang("x"), lang("")]);
    assert_eq!(g.validate(), Err(LanguageGroupError::LanguageEmptyName));
    let h = group(vec![], vec![lang("x"), lang("y"), lang("x")]);
    assert_eq!(h.validate(), Err(LanguageGroupError::LanguageExists("x".to_string())));
}

#[test]
fn validate_cleans_every_phoneme() {
    let messy = Phoneme { ortho: "o".to_string(), primary: Phone::Null, allo: vec![Phone::Vowel {}, Phone::Null, Phone::Vowel {}] };
    let clean = Phoneme { ortho: "o".to_string(), primary: Phone::Null, allo: vec![Phone::Vowel {}] };
    let mut p = proto("p");
    p.phonemes.insert(1, messy.clone());
    p.description = Some(serde_json::Value::Bool(false));
    let mut l = lang("l");
    l.phonemes.insert(2, messy.clone());
    l.phonemes.insert(3, clean.clone());
    l.ancestors = names(&["p", "q"]);
    let validated = group(vec![p], vec![l]).validate().unwrap();
    let mut p2 = proto("p");
    p2.phonemes.insert(1, clean.clone());
    p2.description = Some(serde_json::Value::Bool(false));
    let mut l2 = lang("l");
    l2.phonemes.insert(2, clean.clone());
    l2.phonemes.insert(3, clean.clone());
    l2.ancestors = names(&["p", "q"]);
    assert_eq!(validated, group(vec![p2], vec![l2]));
}

#[test]
fn validate_phonemes_keeps_identifiers() {
    let messy = Phoneme { ortho: "o".to_string(), primary: Phone::Vowel {}, allo: vec![Phone::Vowel {}] };
    let clean = Phoneme { ortho: "o".to_string(), primary: Phone::Vowel {}, allo: vec![] };
    let map = HashMap::from([(5u128, messy.clone()), (6u128, messy)]);
    assert_eq!(validate_phonemes(&map), HashMap::from([(5u128, clean.clone()), (6u128, clean)]));
    assert_eq!(validate_phonemes(&HashMap::new()), HashMap::new());
}
