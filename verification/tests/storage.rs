use lexi::naming::{
    autosave_name, epoch_name, language_group_name, load_location, location, merge_location,
    next_epoch_name, sanitize, save_location, stem_name,
};
use lexi::storage::{install, load_language_group, merge_in, merge_language_group, Error};
use lexi::version::admits;
use lexi::{
    Language, LanguageGroup, LanguageGroupError, Phone, Phoneme, Project, Protolanguage, Version,
};

fn proto(name: &str) -> Protolanguage {
    Protolanguage { name: name.to_string(), ..Default::default() }
}

fn lang(name: &str, ancestors: &[&str]) -> Language {
    Language {
        name: name.to_string(),
        ancestors: ancestors.iter().map(|a| a.to_string()).collect(),
        ..Default::default()
    }
}

fn group(family_id: u128, version: Version, protolangs: Vec<Protolanguage>, langs: Vec<Language>) -> LanguageGroup {
    LanguageGroup { version, family_id, protolangs, langs }
}

fn project(name: &str, group: LanguageGroup) -> Project {
    Project { name: name.to_string(), group }
}

#[test]
fn versions_of_major_zero_are_compatible() {
    assert!(Version::new(0, 0, 0).is_compatible());
    assert!(Version::new(0, 1, 0).is_compatible());
    assert!(Version::new(0, 99, 7).is_compatible());
}

#[test]
fn other_major_versions_are_not_compatible() {
    assert!(!Version::new(1, 0, 0).is_compatible());
    assert!(!Version::new(2, 1, 0).is_compatible());
}

#[test]
fn prerelease_of_major_zero_is_not_compatible() {
    let mut version = Version::new(0, 3, 0);
    version.pre = "alpha.1".to_string();
    assert!(!version.is_compatible());
}

#[test]
fn build_metadata_does_not_matter() {
    let mut version = Version::new(0, 3, 0);
    version.build = "anything at all".to_string();
    assert!(version.is_compatible());
}

#[test]
fn malformed_prerelease_is_not_compatible() {
    let mut version = Version::new(0, 3, 0);
    version.pre = "!!".to_string();
    assert!(!version.is_compatible());
}

#[test]
fn only_a_plain_yes_admits() {
    assert!(admits(Some(true)));
    assert!(!admits(Some(false)));
    assert!(!admits(None));
}

#[test]
fn load_replaces_project_and_name() {
    let mut p = project("old", group(1, Version::new(0, 1, 0), vec![proto("x")], vec![]));
    let loaded = group(2, Version::new(0, 5, 0), vec![proto("a")], vec![lang("b", &["a"])]);
    assert_eq!(load_language_group(&mut p, "file".to_string(), loaded.clone()), Ok(()));
    assert_eq!(p, project("file", loaded));
}

#[test]
fn load_validates_phonemes() {
    let twice = Phoneme { ortho: "k".to_string(), primary: Phone::Null, allo: vec![Phone::Vowel {}, Phone::Null, Phone::Vowel {}] };
    let mut with_phoneme = proto("a");
    with_phoneme.phonemes.insert(9, twice);
    let loaded = group(2, Version::new(0, 5, 0), vec![with_phoneme], vec![]);
    let mut p = Project::new();
    assert_eq!(load_language_group(&mut p, "file".to_string(), loaded), Ok(()));
    let kept = Phoneme { ortho: "k".to_string(), primary: Phone::Null, allo: vec![Phone::Vowel {}] };
    assert_eq!(p.group.protolangs[0].phonemes.get(&9), Some(&kept));
}

#[test]
fn load_refuses_other_major_version() {
    let before = project("old", group(1, Version::new(0, 1, 0), vec![proto("x")], vec![]));
    let mut p = before.clone();
    let loaded = group(2, Version::new(1, 2, 3), vec![], vec![]);
    assert_eq!(
        load_language_group(&mut p, "file".to_string(), loaded),
        Err(Error::VersionMismatch(Version::new(1, 2, 3)))
    );
    assert_eq!(p, before);
}

#[test]
fn load_refuses_duplicate_names() {
    let before = project("old", group(1, Version::new(0, 1, 0), vec![], vec![]));
    let mut p = before.clone();
    let loaded = group(2, Version::new(0, 1, 0), vec![], vec![lang("a", &[]), lang("b", &[]), lang("a", &[])]);
    assert_eq!(
        load_language_group(&mut p, "file".to_string(), loaded),
        Err(Error::LanguageGroup(LanguageGroupError::LanguageExists("a".to_string())))
    );
    assert_eq!(p, before);
}

#[test]
fn install_goes_by_the_verdict_it_is_given() {
    let loaded = group(2, Version::new(7, 0, 0), vec![], vec![]);
    let mut p = Project::new();
    assert_eq!(install(&mut p, "f".to_string(), loaded.clone(), true), Ok(()));
    assert_eq!(p, project("f", loaded.clone()));
    let mut q = project("q", group(1, Version::new(0, 1, 0), vec![], vec![]));
    assert_eq!(
        install(&mut q, "f".to_string(), loaded, false),
        Err(Error::VersionMismatch(Version::new(7, 0, 0)))
    );
    assert_eq!(q.name, "q");
}

#[test]
fn merge_takes_languages_of_same_family() {
    let mut p = project(
        "mine",
        group(5, Version::new(0, 1, 0), vec![proto("1")], vec![lang("A", &["1"])]),
    );
    let incoming = group(5, Version::new(0, 2, 0), vec![proto("zzz")], vec![lang("2", &["H", "1"])]);
    assert_eq!(merge_language_group(&mut p, &incoming), Ok(()));
    assert_eq!(
        p,
        project("mine", group(5, Version::new(0, 1, 0), vec![proto("1")], vec![lang("2", &["1"])]))
    );
}

#[test]
fn merge_refuses_other_family() {
    let before = project("mine", group(5, Version::new(0, 1, 0), vec![proto("1")], vec![lang("A", &["1"])]));
    let mut p = before.clone();
    let incoming = group(6, Version::new(0, 1, 0), vec![], vec![lang("2", &[])]);
    assert_eq!(
        merge_language_group(&mut p, &incoming),
        Err(Error::FamilyMismatch { current: 5, merge: 6 })
    );
    assert_eq!(p, before);
}

#[test]
fn merge_checks_version_before_family() {
    let before = project("mine", group(5, Version::new(0, 1, 0), vec![], vec![]));
    let mut p = before.clone();
    let incoming = group(6, Version::new(3, 0, 0), vec![], vec![lang("2", &[])]);
    assert_eq!(
        merge_language_group(&mut p, &incoming),
        Err(Error::VersionMismatch(Version::new(3, 0, 0)))
    );
    assert_eq!(p, before);
}

#[test]
fn merge_in_goes_by_the_verdict_it_is_given() {
    let mut p = project("mine", group(5, Version::new(0, 1, 0), vec![], vec![]));
    let incoming = group(5, Version::new(9, 0, 0), vec![], vec![lang("2", &[])]);
    assert_eq!(merge_in(&mut p, &incoming, true), Ok(()));
    assert_eq!(p.group.langs, vec![lang("2", &[])]);
    assert_eq!(
        merge_in(&mut p, &incoming, false),
        Err(Error::VersionMismatch(Version::new(9, 0, 0)))
    );
}

#[test]
fn sanitize_removes_parent_steps() {
    assert_eq!(sanitize("../../etc/passwd"), "etc/passwd");
    assert_eq!(sanitize("a/../b"), "a/b");
    assert_eq!(sanitize("plain"), "plain");
    assert_eq!(sanitize(""), "");
    assert_eq!(sanitize("../"), "");
}

#[test]
fn sanitize_is_one_pass_from_the_left() {
    assert_eq!(sanitize("..././"), "../");
    assert_eq!(sanitize("..../"), "..");
    assert_eq!(sanitize("../.."), "..");
    assert_eq!(sanitize("..\\x"), "..\\x");
}

#[test]
fn locations_lie_under_data_lang() {
    assert_eq!(location("fam"), "data/lang/fam.lg.json");
    assert_eq!(load_location("../fam"), "data/lang/fam.lg.json");
    assert_eq!(save_location("sub/fam"), Ok("data/lang/sub/fam.lg.json".to_string()));
}

#[test]
fn save_refuses_empty_name() {
    assert_eq!(save_location(""), Err(Error::EmptyName));
    assert_eq!(save_location("../../"), Err(Error::EmptyName));
}

#[test]
fn merge_refuses_blank_file_name() {
    assert_eq!(merge_location(""), Err(Error::MergeEmpty));
    assert_eq!(merge_location("../"), Ok("data/lang/.lg.json".to_string()));
    assert_eq!(merge_location("x"), Ok("data/lang/x.lg.json".to_string()));
}

#[test]
fn autosave_name_falls_back_to_time_stamp() {
    assert_eq!(autosave_name("", "20240102_030405"), "autosave_20240102_030405");
    assert_eq!(autosave_name("mine", "20240102_030405"), "mine");
}

#[test]
fn group_name_drops_lg_ending() {
    assert_eq!(language_group_name("family.lg"), "family");
    assert_eq!(language_group_name("family"), "family");
    assert_eq!(language_group_name("a.lg.lg"), "a.lg");
    assert_eq!(language_group_name("a.lgx"), "a.lgx");
    assert_eq!(language_group_name("xlg"), "xlg");
}

#[test]
fn stem_name_falls_back_to_stem() {
    assert_eq!(stem_name("s.lg", Some("s".to_string())), "s");
    assert_eq!(stem_name("s.lg", None), "s.lg");
}

#[test]
fn epoch_name_advances_final_digit() {
    assert_eq!(epoch_name("family1"), "family2");
    assert_eq!(epoch_name("family9"), "family10");
    assert_eq!(epoch_name("family19"), "family110");
    assert_eq!(epoch_name("7"), "8");
    assert_eq!(epoch_name("a0"), "a1");
}

#[test]
fn epoch_name_appends_ending_without_counter() {
    assert_eq!(epoch_name("family"), "family_epoch");
    assert_eq!(epoch_name(""), "_epoch");
    assert_eq!(epoch_name("v2 draft"), "v2 draft_epoch");
}

#[test]
fn next_epoch_name_over_given_groups() {
    let groups = Some(vec![Some("ab41".to_string()), Some("ab".to_string()), Some("41".to_string())]);
    assert_eq!(next_epoch_name("ab41", &groups), Some("ab42".to_string()));
    assert_eq!(next_epoch_name("x", &None), Some("x_epoch".to_string()));
    let zeros = Some(vec![None, Some("n".to_string()), Some("007".to_string())]);
    assert_eq!(next_epoch_name("n007", &zeros), Some("n8".to_string()));
}

#[test]
fn next_epoch_name_refuses_what_is_no_counter() {
    let word = Some(vec![None, Some("n".to_string()), Some("x1".to_string())]);
    assert_eq!(next_epoch_name("nx1", &word), None);
    let absent = Some(vec![None, Some("n".to_string()), None]);
    assert_eq!(next_epoch_name("n", &absent), None);
    let short = Some(vec![Some("n1".to_string())]);
    assert_eq!(next_epoch_name("n1", &short), None);
    let full = Some(vec![None, Some("n".to_string()), Some("4294967295".to_string())]);
    assert_eq!(next_epoch_name("n", &full), None);
    let nearly = Some(vec![None, Some("n".to_string()), Some("4294967294".to_string())]);
    assert_eq!(next_epoch_name("n", &nearly), Some("n4294967295".to_string()));
    let huge = Some(vec![None, Some("n".to_string()), Some("99999999999999999999".to_string())]);
    assert_eq!(next_epoch_name("n", &huge), None);
}
