use std::collections::HashMap;

use lexi::epoch::InvalidAncestorReference;
use lexi::{
    AttachmentSet, Language, LanguageGroup, LanguageGroupError, Phone, Phoneme, PlosivePlace,
    Protolanguage, Version,
};

const ID0: u128 = 0x00000000_0000_0000_0000_000000000000;
const ID1: u128 = 0x00000000_0000_0000_0000_000000000001;
const ID2: u128 = 0x00000000_0000_0000_0000_000000000002;

fn bilabial(ortho: &str, voiced: bool) -> Phoneme {
    Phoneme {
        ortho: ortho.to_string(),
        primary: Phone::Plosive {
            place: PlosivePlace::Bilabial,
            voiced,
            attachments: AttachmentSet::new(),
        },
        allo: vec![],
    }
}

fn named(ortho: &str) -> Phoneme {
    Phoneme { ortho: ortho.to_string(), ..Default::default() }
}

fn proto(name: &str, phonemes: Vec<(u128, Phoneme)>) -> Protolanguage {
    Protolanguage {
        name: name.to_string(),
        description: None,
        phonemes: phonemes.into_iter().collect(),
    }
}

fn lang(name: &str, ancestors: &[&str], phonemes: Vec<(u128, Phoneme)>) -> Language {
    Language {
        name: name.to_string(),
        description: None,
        phonemes: phonemes.into_iter().collect(),
        ancestors: ancestors.iter().map(|a| a.to_string()).collect(),
    }
}

fn group(protolangs: Vec<Protolanguage>, langs: Vec<Language>) -> LanguageGroup {
    LanguageGroup { family_id: ID0, protolangs, langs, ..Default::default() }
}

#[test]
fn lg_deny_set_phoneme_if_nonexistant() {
    let mut lg = LanguageGroup {
        family_id: ID0,
        protolangs: vec![Protolanguage { name: "1".to_string(), ..Default::default() }],
        langs: vec![Language {
            name: "1".to_string(),
            ancestors: vec!["1".to_string()],
            ..Default::default()
        }],
        ..Default::default()
    };

    assert_eq!(
        LanguageGroup::set_phoneme(&lg.protolangs, &mut lg.langs[0], ID0, Phoneme::default()),
        false
    );
    assert!(lg.langs[0].phonemes.is_empty());
    assert!(lg.protolangs[0].phonemes.is_empty());

    lg.protolangs[0].phonemes.insert(ID0, Phoneme::default());

    assert_eq!(
        LanguageGroup::set_phoneme(&lg.protolangs, &mut lg.langs[0], ID0, Phoneme::default()),
        true
    );

    let expected = LanguageGroup {
        family_id: ID0,
        version: Version::new(0, 1, 0),
        protolangs: vec![proto("1", vec![(ID0, Phoneme::default())])],
        langs: vec![lang("1", &["1"], vec![(ID0, Phoneme::default())])],
    };
    assert_eq!(lg, expected);
}

#[test]
fn lg_epoch_preserves_protophonemes_in_language() {
    let mut pre = group(
        vec![proto("1", vec![(ID0, bilabial("1", false))])],
        vec![lang("1'", &["1"], vec![(ID1, bilabial("2", true))])],
    );

    pre.epoch();

    let expected = group(
        vec![proto("1'", vec![(ID0, bilabial("1", false)), (ID1, bilabial("2", true))])],
        vec![],
    );
    assert_eq!(pre, expected);
}

#[test]
fn epoch_when_phoneme_and_protophoneme_exist_keeps_phoneme() {
    let mut pre = group(
        vec![proto("1", vec![(ID0, bilabial("1", false))])],
        vec![lang("1'", &["1"], vec![(ID0, bilabial("2", true))])],
    );

    pre.epoch();

    let expected = group(vec![proto("1'", vec![(ID0, bilabial("2", true))])], vec![]);
    assert_eq!(pre, expected);
}

#[test]
fn merge_removes_nonexistant_ancestors() {
    let pre = group(vec![proto("1", vec![])], vec![lang("A", &["1"], vec![])]);
    let post_a = group(vec![], vec![lang("2", &["H"], vec![])]);
    let post_b = group(vec![], vec![lang("2", &["1"], vec![])]);

    let merged_a = {
        let mut pre = pre.clone();
        pre.merge(&post_a);
        pre
    };
    assert_eq!(merged_a, group(vec![proto("1", vec![])], vec![lang("2", &[], vec![])]));

    let merged_b = {
        let mut pre = pre.clone();
        pre.merge(&post_b);
        pre
    };
    assert_eq!(merged_b, group(vec![proto("1", vec![])], vec![lang("2", &["1"], vec![])]));
}

#[test]
fn get_returns_inherited_then_override() {
    let mut lg = group(vec![proto("P", vec![(ID1, named("A"))])], vec![lang("L", &["P"], vec![])]);
    assert_eq!(
        LanguageGroup::get_phoneme(&lg.protolangs, &lg.langs[0], ID1),
        Some(&named("A"))
    );
    assert!(LanguageGroup::set_phoneme(&lg.protolangs, &mut lg.langs[0], ID1, named("B")));
    assert_eq!(
        LanguageGroup::get_phoneme(&lg.protolangs, &lg.langs[0], ID1),
        Some(&named("B"))
    );
    assert_eq!(
        LanguageGroup::get_phoneme(&lg.protolangs, &lg.protolangs[0], ID1),
        Some(&named("A"))
    );
    assert_eq!(lg.protolangs[0], proto("P", vec![(ID1, named("A"))]));
}

#[test]
fn get_prefers_local_entry() {
    let lg = group(
        vec![proto("P", vec![(ID1, named("A"))])],
        vec![lang("L", &["P"], vec![(ID1, named("own"))])],
    );
    assert_eq!(
        LanguageGroup::get_phoneme(&lg.protolangs, &lg.langs[0], ID1),
        Some(&named("own"))
    );
}

#[test]
fn get_takes_first_ancestor_that_provides() {
    let lg = group(
        vec![
            proto("P", vec![(ID2, named("p2"))]),
            proto("Q", vec![(ID1, named("q1")), (ID2, named("q2"))]),
        ],
        vec![lang("L", &["P", "Q"], vec![]), lang("M", &["Q", "P"], vec![])],
    );
    assert_eq!(LanguageGroup::get_phoneme(&lg.protolangs, &lg.langs[0], ID1), Some(&named("q1")));
    assert_eq!(LanguageGroup::get_phoneme(&lg.protolangs, &lg.langs[0], ID2), Some(&named("p2")));
    assert_eq!(LanguageGroup::get_phoneme(&lg.protolangs, &lg.langs[1], ID2), Some(&named("q2")));
    assert_eq!(LanguageGroup::get_phoneme(&lg.protolangs, &lg.langs[0], ID0), None);
}

#[test]
fn get_skips_dangling_ancestor() {
    let lg = group(
        vec![proto("P", vec![(ID1, named("A"))])],
        vec![lang("L", &["nowhere", "P"], vec![]), lang("M", &["nowhere"], vec![])],
    );
    assert_eq!(LanguageGroup::get_phoneme(&lg.protolangs, &lg.langs[0], ID1), Some(&named("A")));
    assert_eq!(LanguageGroup::get_phoneme(&lg.protolangs, &lg.langs[1], ID1), None);
}

#[test]
fn get_on_protolanguage_sees_only_its_own() {
    let lg = group(
        vec![proto("P", vec![(ID1, named("A"))]), proto("Q", vec![(ID2, named("B"))])],
        vec![],
    );
    assert_eq!(LanguageGroup::get_phoneme(&lg.protolangs, &lg.protolangs[0], ID1), Some(&named("A")));
    assert_eq!(LanguageGroup::get_phoneme(&lg.protolangs, &lg.protolangs[0], ID2), None);
}

#[test]
fn set_overwrites_local_entry() {
    let mut lg = group(vec![], vec![lang("L", &[], vec![(ID1, named("old"))])]);
    assert!(LanguageGroup::set_phoneme(&lg.protolangs, &mut lg.langs[0], ID1, named("new")));
    assert_eq!(lg.langs[0], lang("L", &[], vec![(ID1, named("new"))]));
}

#[test]
fn set_fails_and_changes_nothing_when_id_is_nowhere() {
    let mut lg = group(
        vec![proto("P", vec![(ID1, named("A"))])],
        vec![lang("L", &["P", "gone"], vec![(ID2, named("own"))])],
    );
    let before = lg.clone();
    assert!(!LanguageGroup::set_phoneme(&lg.protolangs, &mut lg.langs[0], ID0, named("V")));
    assert_eq!(lg, before);
}

#[test]
fn set_on_protolanguage_needs_local_entry() {
    let mut lg = group(
        vec![proto("P", vec![(ID1, named("A"))]), proto("Q", vec![(ID2, named("B"))])],
        vec![],
    );
    let pool = lg.protolangs.clone();
    assert!(!LanguageGroup::set_phoneme(&pool, &mut lg.protolangs[0], ID2, named("V")));
    assert!(LanguageGroup::set_phoneme(&pool, &mut lg.protolangs[0], ID1, named("V")));
    assert_eq!(lg.protolangs[0], proto("P", vec![(ID1, named("V"))]));
    assert_eq!(lg.protolangs[1], proto("Q", vec![(ID2, named("B"))]));
}

#[test]
fn delete_only_touches_local_map() {
    let mut lg = group(vec![proto("P", vec![(ID1, named("A"))])], vec![lang("L", &["P"], vec![])]);
    assert_eq!(LanguageGroup::delete_phoneme(&mut lg.langs[0], ID1), None);
    assert_eq!(lg.protolangs[0], proto("P", vec![(ID1, named("A"))]));
    assert_eq!(lg.langs[0], lang("L", &["P"], vec![]));
}

#[test]
fn delete_returns_local_entry_and_uncovers_inherited() {
    let mut lg = group(
        vec![proto("P", vec![(ID1, named("A"))])],
        vec![lang("L", &["P"], vec![(ID1, named("own")), (ID2, named("other"))])],
    );
    assert_eq!(LanguageGroup::delete_phoneme(&mut lg.langs[0], ID1), Some(named("own")));
    assert_eq!(lg.langs[0], lang("L", &["P"], vec![(ID2, named("other"))]));
    assert_eq!(LanguageGroup::get_phoneme(&lg.protolangs, &lg.langs[0], ID1), Some(&named("A")));
    assert_eq!(LanguageGroup::delete_phoneme(&mut lg.langs[0], ID1), None);
}

#[test]
fn epoch_later_ancestor_overwrites_earlier() {
    let mut lg = group(
        vec![
            proto("P", vec![(ID1, named("p1")), (ID0, named("p0"))]),
            proto("Q", vec![(ID1, named("q1")), (ID2, named("q2"))]),
        ],
        vec![lang("L", &["P", "Q"], vec![]), lang("M", &["Q", "P"], vec![(ID2, named("m2"))])],
    );
    lg.epoch();
    let expected = group(
        vec![
            proto("L", vec![(ID0, named("p0")), (ID1, named("q1")), (ID2, named("q2"))]),
            proto("M", vec![(ID0, named("p0")), (ID1, named("p1")), (ID2, named("m2"))]),
        ],
        vec![],
    );
    assert_eq!(lg, expected);
}

#[test]
fn epoch_keeps_name_description_and_order() {
    let mut first = lang("b", &[], vec![(ID1, named("x"))]);
    first.description = Some(serde_json::Value::String("about b".to_string()));
    let second = lang("a", &[], vec![]);
    let mut lg = group(vec![proto("old", vec![(ID0, named("lost"))])], vec![first, second]);
    lg.version = Version::new(0, 7, 3);
    lg.family_id = 77;
    lg.epoch();
    assert!(lg.langs.is_empty());
    assert_eq!(lg.protolangs.len(), 2);
    assert_eq!(lg.protolangs[0].name, "b");
    assert_eq!(
        lg.protolangs[0].description,
        Some(serde_json::Value::String("about b".to_string()))
    );
    assert_eq!(lg.protolangs[0].phonemes, HashMap::from([(ID1, named("x"))]));
    assert_eq!(lg.protolangs[1], proto("a", vec![]));
    assert_eq!(lg.version, Version::new(0, 7, 3));
    assert_eq!(lg.family_id, 77);
}

#[test]
fn epoch_of_group_without_languages_leaves_nothing() {
    let mut lg = group(vec![proto("P", vec![(ID1, named("A"))])], vec![]);
    lg.epoch();
    assert_eq!(lg, group(vec![], vec![]));
}

#[test]
fn try_epoch_succeeds_like_epoch() {
    let mut lg = group(
        vec![proto("1", vec![(ID0, bilabial("1", false))])],
        vec![lang("1'", &["1"], vec![(ID1, bilabial("2", true))])],
    );
    assert_eq!(lg.try_epoch(), Ok(()));
    let expected = group(
        vec![proto("1'", vec![(ID0, bilabial("1", false)), (ID1, bilabial("2", true))])],
        vec![],
    );
    assert_eq!(lg, expected);
}

#[test]
fn try_epoch_reports_first_dangling_ancestor_and_changes_nothing() {
    let mut lg = group(
        vec![proto("P", vec![(ID1, named("A"))])],
        vec![
            lang("fine", &["P"], vec![]),
            lang("broken", &["P", "ghost", "phantom"], vec![(ID2, named("own"))]),
            lang("worse", &["void"], vec![]),
        ],
    );
    let before = lg.clone();
    assert_eq!(
        lg.try_epoch(),
        Err(InvalidAncestorReference {
            language: "broken".to_string(),
            ancestor: "ghost".to_string()
        })
    );
    assert_eq!(lg, before);
}

#[test]
fn merge_replaces_languages_and_keeps_protolanguages() {
    let mut described = lang("new", &["x", "1", "y", "2", "1"], vec![(ID1, named("n"))]);
    described.description = Some(serde_json::Value::Bool(true));
    let incoming = group(vec![proto("ignored", vec![])], vec![described, lang("other", &[], vec![])]);
    let mut mine = group(
        vec![proto("1", vec![(ID0, named("a"))]), proto("2", vec![])],
        vec![lang("lost", &["1"], vec![]), lang("also lost", &[], vec![])],
    );
    mine.version = Version::new(0, 3, 0);
    mine.merge(&incoming);

    let mut kept = lang("new", &["1", "2", "1"], vec![(ID1, named("n"))]);
    kept.description = Some(serde_json::Value::Bool(true));
    let mut expected = group(
        vec![proto("1", vec![(ID0, named("a"))]), proto("2", vec![])],
        vec![kept, lang("other", &[], vec![])],
    );
    expected.version = Version::new(0, 3, 0);
    assert_eq!(mine, expected);
}

#[test]
fn merge_of_empty_snapshot_empties_languages() {
    let mut mine = group(vec![proto("1", vec![])], vec![lang("A", &["1"], vec![])]);
    mine.merge(&group(vec![], vec![]));
    assert_eq!(mine, group(vec![proto("1", vec![])], vec![]));
}

#[test]
fn create_language_appends_empty_language() {
    let mut lg = group(vec![proto("same", vec![])], vec![lang("first", &[], vec![])]);
    assert_eq!(lg.create_language("same".to_string()), Ok(()));
    assert_eq!(
        lg,
        group(
            vec![proto("same", vec![])],
            vec![lang("first", &[], vec![]), lang("same", &[], vec![])]
        )
    );
}

#[test]
fn create_language_rejects_blank_name() {
    let mut lg = group(vec![], vec![]);
    assert_eq!(lg.create_language(String::new()), Err(LanguageGroupError::LanguageEmptyName));
    assert_eq!(lg, group(vec![], vec![]));
}

#[test]
fn create_language_rejects_taken_name() {
    let mut lg = group(vec![], vec![lang("taken", &[], vec![(ID1, named("x"))])]);
    let before = lg.clone();
    assert_eq!(
        lg.create_language("taken".to_string()),
        Err(LanguageGroupError::LanguageExists("taken".to_string()))
    );
    assert_eq!(lg, before);
}

#[test]
fn create_protolanguage_appends_empty_protolanguage() {
    let mut lg = group(vec![proto("first", vec![])], vec![lang("same", &[], vec![])]);
    assert_eq!(lg.create_protolanguage("same".to_string()), Ok(()));
    assert_eq!(
        lg,
        group(
            vec![proto("first", vec![]), proto("same", vec![])],
            vec![lang("same", &[], vec![])]
        )
    );
}

#[test]
fn create_protolanguage_rejects_blank_name() {
    let mut lg = group(vec![], vec![]);
    assert_eq!(
        lg.create_protolanguage(String::new()),
        Err(LanguageGroupError::ProtolanguageEmptyName)
    );
    assert_eq!(lg, group(vec![], vec![]));
}

#[test]
fn create_protolanguage_rejects_taken_name() {
    let mut lg = group(vec![proto("taken", vec![])], vec![]);
    assert_eq!(
        lg.create_protolanguage("taken".to_string()),
        Err(LanguageGroupError::ProtolanguageExists("taken".to_string()))
    );
    assert_eq!(lg, group(vec![proto("taken", vec![])], vec![]));
}

#[test]
fn delete_language_removes_by_name() {
    let mut lg = group(
        vec![proto("b", vec![])],
        vec![lang("a", &[], vec![]), lang("b", &[], vec![]), lang("c", &[], vec![])],
    );
    lg.delete_language("b".to_string());
    assert_eq!(
        lg,
        group(vec![proto("b", vec![])], vec![lang("a", &[], vec![]), lang("c", &[], vec![])])
    );
    lg.delete_language("missing".to_string());
    assert_eq!(lg.langs.len(), 2);
}

#[test]
fn delete_protolanguage_removes_by_name() {
    let mut lg = group(
        vec![proto("a", vec![]), proto("b", vec![])],
        vec![lang("a", &["a"], vec![])],
    );
    lg.delete_protolanguage("a".to_string());
    assert_eq!(lg, group(vec![proto("b", vec![])], vec![lang("a", &["a"], vec![])]));
    lg.delete_protolanguage("a".to_string());
    assert_eq!(lg.protolangs.len(), 1);
}

#[test]
fn lookup_by_name() {
    let mut lg = group(
        vec![proto("p", vec![(ID1, named("x"))])],
        vec![lang("l", &["p"], vec![]), lang("m", &[], vec![])],
    );
    assert_eq!(lg.language("m"), Some(&lang("m", &[], vec![])));
    assert_eq!(lg.language("p"), None);
    assert_eq!(lg.protolanguage("p"), Some(&proto("p", vec![(ID1, named("x"))])));
    assert_eq!(lg.protolanguage("l"), None);
    assert_eq!(lg.languages().len(), 2);
    assert_eq!(lg.protolanguages().len(), 1);
    lg.language_mut("l").unwrap().ancestors.push("q".to_string());
    assert_eq!(lg.langs[0], lang("l", &["p", "q"], vec![]));
    lg.protolanguage_mut("p").unwrap().phonemes.clear();
    assert_eq!(lg.protolangs[0], proto("p", vec![]));
    assert!(lg.language_mut("nobody").is_none());
    assert!(lg.protolanguage_mut("nobody").is_none());
}

#[test]
fn default_group_is_empty_with_random_family() {
    let a = LanguageGroup::default();
    let b = LanguageGroup::default();
    assert_eq!(a.version, Version::new(0, 1, 0));
    assert!(a.protolangs.is_empty());
    assert!(a.langs.is_empty());
    assert_eq!((a.family_id >> 76) & 0xf, 4);
    assert_eq!((a.family_id >> 62) & 0x3, 2);
    assert_ne!(a.family_id, b.family_id);
}

#[test]
fn default_entities_are_unnamed_and_empty() {
    assert_eq!(Language::default(), lang("unnamed", &[], vec![]));
    assert_eq!(Protolanguage::default(), proto("unnamed", vec![]));
}

#[test]
fn language_becomes_protolanguage_without_ancestors() {
    let mut l = lang("L", &["P"], vec![(ID1, named("x"))]);
    l.description = Some(serde_json::Value::Null);
    let p: Protolanguage = l.into();
    let mut expected = proto("L", vec![(ID1, named("x"))]);
    expected.description = Some(serde_json::Value::Null);
    assert_eq!(p, expected);
}
