use lexi::parser::environment::{
    alternatives, element, environment_referent, property, terminal, word_boundary, Environment,
    EnvironmentData, Error,
};
use lexi::parser::syllable::{Syllable, SyllableData};
use lexi::parser::{literal_orthography, optional_phoneme_class, phoneme_class, read_char, text_between};

fn chars(text: &str) -> Vec<char> {
    text.chars().collect()
}

fn class(c: char) -> EnvironmentData {
    EnvironmentData::PhonemeClass { class: c, optional: false }
}

#[test]
fn gestalt_environment() {
    let env = Environment::parse("#<{t},K,O[+coronal]>Cc_V[-voiced]");
    assert!(env.is_ok());
    let env = env.unwrap();
    assert_eq!(env.render(), "#<{t},K,O[+coronal]>Cc_V[-voiced]");
    assert_eq!(Environment::from_vec(env.pre_referent()).render(), "#<{t},K,O[+coronal]>Cc");
    assert_eq!(Environment::from_vec(env.post_referent()).render(), "V[-voiced]");
}

#[test]
fn gestalt_syllable() {
    let syll = Syllable::parse("(C)(C)VCC<{n},{m}>");
    assert!(syll.is_ok());
    assert_eq!(syll.unwrap().render(), "(C)(C)VCC<{n},{m}>");
}

#[test]
fn environment_elements_in_order() {
    let env = Environment::parse("#ab_c#").unwrap();
    assert_eq!(
        env.0,
        vec![
            EnvironmentData::Boundary,
            class('a'),
            class('b'),
            EnvironmentData::Referent,
            class('c'),
            EnvironmentData::Boundary
        ]
    );
    assert_eq!(env.pre_referent(), vec![EnvironmentData::Boundary, class('a'), class('b')]);
    assert_eq!(env.post_referent(), vec![class('c'), EnvironmentData::Boundary]);
}

#[test]
fn bare_referent_is_an_environment() {
    let env = Environment::parse("_").unwrap();
    assert_eq!(env.0, vec![EnvironmentData::Referent]);
    assert!(env.pre_referent().is_empty());
    assert!(env.post_referent().is_empty());
    assert_eq!(env.render(), "_");
}

#[test]
fn environment_without_referent_is_refused() {
    assert_eq!(Environment::parse("abc").unwrap_err(), Error::Nom(String::new()));
    assert_eq!(Environment::parse("").unwrap_err(), Error::Nom(String::new()));
    assert_eq!(Environment::parse("#ab#_").unwrap_err(), Error::Nom("#_".to_string()));
    assert_eq!(Environment::parse("##_").unwrap_err(), Error::Nom("#_".to_string()));
}

#[test]
fn environment_with_rest_is_refused() {
    assert_eq!(
        Environment::parse("a_b_c").unwrap_err(),
        Error::IncompleteParse("a_b_c".to_string())
    );
    assert_eq!(
        Environment::parse("_#x").unwrap_err(),
        Error::IncompleteParse("_#x".to_string())
    );
}

#[test]
fn split_without_referent() {
    let env = Environment::from_vec(vec![class('a'), EnvironmentData::Boundary]);
    assert_eq!(env.pre_referent(), vec![class('a'), EnvironmentData::Boundary]);
    assert!(env.post_referent().is_empty());
    let twice = Environment::from_vec(vec![
        EnvironmentData::Referent,
        class('a'),
        EnvironmentData::Referent,
    ]);
    assert!(twice.pre_referent().is_empty());
    assert_eq!(twice.post_referent(), vec![class('a'), EnvironmentData::Referent]);
}

#[test]
fn every_kind_of_element_is_written() {
    let all = Environment::from_vec(vec![
        EnvironmentData::Boundary,
        EnvironmentData::PhonemeClass { class: 'C', optional: true },
        EnvironmentData::Property { name: "voiced".to_string(), present: true },
        EnvironmentData::Property { name: "nasal_1".to_string(), present: false },
        EnvironmentData::Orthography("th".to_string()),
        EnvironmentData::Referent,
        EnvironmentData::Alternatives(vec![
            EnvironmentData::Orthography("t".to_string()),
            class('K'),
            EnvironmentData::Alternatives(vec![]),
        ]),
        EnvironmentData::Alternatives(vec![class('x')]),
    ]);
    assert_eq!(all.render(), "#(C)[+voiced][-nasal_1]{th}_<{t},K,<>><x>");
}

#[test]
fn cloned_element_equals_its_source() {
    let nested = EnvironmentData::Alternatives(vec![
        EnvironmentData::Property { name: "p".to_string(), present: true },
        EnvironmentData::Alternatives(vec![class('a'), EnvironmentData::Orthography("o".to_string())]),
    ]);
    assert_eq!(nested.clone(), nested);
    let syll = SyllableData::Alternatives(vec![
        SyllableData::Orthography("n".to_string()),
        SyllableData::PhonemeClass { class: 'V', optional: true },
    ]);
    assert_eq!(syll.clone(), syll);
}

#[test]
fn single_characters() {
    let input = chars("a_#(");
    assert_eq!(phoneme_class(&input, 0), Some(('a', 1)));
    assert_eq!(phoneme_class(&input, 1), None);
    assert_eq!(phoneme_class(&input, 2), None);
    assert_eq!(phoneme_class(&input, 3), Some(('(', 4)));
    assert_eq!(phoneme_class(&input, 4), None);
    assert_eq!(phoneme_class(&input, 99), None);
    assert_eq!(environment_referent(&input, 1), Some(2));
    assert_eq!(environment_referent(&input, 0), None);
    assert_eq!(word_boundary(&input, 2), Some(3));
    assert_eq!(word_boundary(&input, 1), None);
    assert_eq!(read_char(&input, 3, '('), Some(4));
    assert_eq!(read_char(&input, 4, '('), None);
    assert_eq!(text_between(&input, 1, 3), "_#");
}

#[test]
fn optional_class_needs_both_brackets() {
    assert_eq!(optional_phoneme_class(&chars("(C)"), 0), Some(('C', 3)));
    assert_eq!(optional_phoneme_class(&chars("x(C)"), 1), Some(('C', 4)));
    assert_eq!(optional_phoneme_class(&chars("(C"), 0), None);
    assert_eq!(optional_phoneme_class(&chars("(_)"), 0), None);
    assert_eq!(optional_phoneme_class(&chars("C)"), 0), None);
    assert_eq!(optional_phoneme_class(&chars("()"), 0), None);
    assert_eq!(optional_phoneme_class(&chars("())"), 0), Some((')', 3)));
}

#[test]
fn literal_orthography_takes_all_up_to_the_brace() {
    assert_eq!(literal_orthography(&chars("{th}x"), 0), Some(("th".to_string(), 4)));
    assert_eq!(literal_orthography(&chars("{_#{}"), 0), Some(("_#{".to_string(), 5)));
    assert_eq!(literal_orthography(&chars("{}"), 0), None);
    assert_eq!(literal_orthography(&chars("{th"), 0), None);
    assert_eq!(literal_orthography(&chars("th}"), 0), None);
}

#[test]
fn property_has_sign_and_name() {
    assert_eq!(property(&chars("[+coronal]"), 0), Some(((true, "coronal".to_string()), 10)));
    assert_eq!(property(&chars("[-voiced_2]x"), 0), Some(((false, "voiced_2".to_string()), 11)));
    assert_eq!(property(&chars("[coronal]"), 0), None);
    assert_eq!(property(&chars("[+]"), 0), None);
    assert_eq!(property(&chars("[+a b]"), 0), None);
    assert_eq!(property(&chars("[+a"), 0), None);
    assert_eq!(property(&chars("["), 0), None);
    assert_eq!(property(&chars("[+é]"), 0), None);
}

#[test]
fn terminal_takes_any_class_character_first() {
    assert_eq!(terminal(&chars("(C)"), 0), Some((class('('), 1)));
    assert_eq!(terminal(&chars("{t}"), 0), Some((class('{'), 1)));
    assert_eq!(terminal(&chars("[+x]"), 0), Some((class('['), 1)));
    assert_eq!(terminal(&chars("_"), 0), None);
    assert_eq!(terminal(&chars("#"), 0), None);
    assert_eq!(terminal(&chars(""), 0), None);
    assert_eq!(element(&chars("<a>"), 0), Some((class('<'), 1)));
    assert_eq!(element(&chars("_"), 0), None);
}

#[test]
fn alternatives_read_directly() {
    let ab = EnvironmentData::Alternatives(vec![class('a'), class('b')]);
    assert_eq!(alternatives(&chars("<a,b>"), 0), Some((ab, 5)));
    let one = EnvironmentData::Alternatives(vec![class('a')]);
    assert_eq!(alternatives(&chars("<a>rest"), 0), Some((one, 3)));
    let comma = EnvironmentData::Alternatives(vec![class(',')]);
    assert_eq!(alternatives(&chars("<,>"), 0), Some((comma, 3)));
    assert_eq!(alternatives(&chars("<a,>"), 0), None);
    assert_eq!(alternatives(&chars("<{t},K>"), 0), None);
    assert_eq!(alternatives(&chars("<>"), 0), None);
    assert_eq!(alternatives(&chars("<_>"), 0), None);
    assert_eq!(alternatives(&chars("a,b>"), 0), None);
    assert_eq!(alternatives(&chars("<a,_>"), 0), None);
}

#[test]
fn syllable_elements_in_order() {
    let syll = Syllable::parse("CV").unwrap();
    assert_eq!(
        syll.data(),
        &vec![
            SyllableData::PhonemeClass { class: 'C', optional: false },
            SyllableData::PhonemeClass { class: 'V', optional: false }
        ]
    );
}

#[test]
fn syllable_needs_one_element() {
    assert_eq!(Syllable::parse("").unwrap_err(), lexi::parser::syllable::Error::Nom(String::new()));
    assert_eq!(Syllable::parse("_CV").unwrap_err(), lexi::parser::syllable::Error::Nom("_CV".to_string()));
    assert_eq!(Syllable::parse("#").unwrap_err(), lexi::parser::syllable::Error::Nom("#".to_string()));
}

#[test]
fn syllable_with_rest_reports_the_rest() {
    assert_eq!(
        Syllable::parse("CV_C").unwrap_err(),
        lexi::parser::syllable::Error::IncompleteParse("_C".to_string())
    );
    assert_eq!(Syllable::parse("C#").unwrap_err(), lexi::parser::syllable::Error::IncompleteParse("#".to_string()));
}

#[test]
fn every_kind_of_syllable_element_is_written() {
    let all = Syllable::from_vec(vec![
        SyllableData::PhonemeClass { class: 'C', optional: true },
        SyllableData::PhonemeClass { class: 'V', optional: false },
        SyllableData::Orthography("ng".to_string()),
        SyllableData::Alternatives(vec![
            SyllableData::Orthography("n".to_string()),
            SyllableData::Orthography("m".to_string()),
        ]),
        SyllableData::Alternatives(vec![]),
    ]);
    assert_eq!(all.render(), "(C)V{ng}<{n},{m}><>");
}

#[test]
fn syllable_combinators_read_directly() {
    let c = |ch: char| SyllableData::PhonemeClass { class: ch, optional: false };
    assert_eq!(lexi::parser::syllable::terminal(&chars("(C)"), 0), Some((c('('), 1)));
    assert_eq!(lexi::parser::syllable::terminal(&chars("_"), 0), None);
    assert_eq!(lexi::parser::syllable::element(&chars("x"), 0), Some((c('x'), 1)));
    assert_eq!(
        lexi::parser::syllable::alternatives(&chars("<n,m>"), 0),
        Some((SyllableData::Alternatives(vec![c('n'), c('m')]), 5))
    );
    assert_eq!(lexi::parser::syllable::alternatives(&chars("<n,m"), 0), None);
    let (syll, end) = lexi::parser::syllable::syllable(&chars("ab#")).unwrap();
    assert_eq!(syll.0, vec![c('a'), c('b')]);
    assert_eq!(end, 2);
    assert!(lexi::parser::syllable::syllable(&chars("#ab")).is_none());
}
