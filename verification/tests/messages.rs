use lexi::epoch::InvalidAncestorReference;
use lexi::ids::show_id;
use lexi::project::ExportError;
use lexi::storage::Error;
use lexi::{LanguageGroupError, Project, Version};

#[test]
fn language_group_errors_in_words() {
    assert_eq!(
        LanguageGroupError::LanguageEmptyName.message(),
        "cannot create a language with a blank name"
    );
    assert_eq!(
        LanguageGroupError::LanguageExists("Old High".to_string()).message(),
        "the language named Old High already exists"
    );
    assert_eq!(
        LanguageGroupError::ProtolanguageEmptyName.message(),
        "cannot create a proto-language with a blank name"
    );
    assert_eq!(
        LanguageGroupError::ProtolanguageExists("PIE".to_string()).message(),
        "the proto-language named PIE already exists"
    );
}

#[test]
fn storage_errors_in_words() {
    assert_eq!(
        Error::VersionMismatch(Version::new(1, 20, 3)).message(),
        "cannot load projects from version 1.20.3"
    );
    assert_eq!(Error::EmptyName.message(), "cannot save to empty name");
    assert_eq!(Error::MergeEmpty.message(), "cannot merge nothing");
    assert_eq!(
        Error::LanguageGroup(LanguageGroupError::LanguageExists("x".to_string())).message(),
        "the language named x already exists"
    );
    assert_eq!(
        Error::FamilyMismatch { current: 1, merge: 0xa1a2a3a4b1b2c1c2d1d2d3d4d5d6d7d8 }.message(),
        "cannot merge language group family a1a2a3a4-b1b2-c1c2-d1d2-d3d4d5d6d7d8 -> 00000000-0000-0000-0000-000000000001"
    );
}

#[test]
fn identifiers_are_shown_hyphenated() {
    assert_eq!(show_id(0), "00000000-0000-0000-0000-000000000000");
    assert_eq!(show_id(0xa1a2a3a4b1b2c1c2d1d2d3d4d5d6d7d8), "a1a2a3a4-b1b2-c1c2-d1d2-d3d4d5d6d7d8");
    assert_eq!(show_id(u128::MAX), "ffffffff-ffff-ffff-ffff-ffffffffffff");
}

#[test]
fn versions_are_written_with_tag_and_metadata() {
    assert_eq!(Version::new(0, 1, 0).render(), "0.1.0");
    assert_eq!(Version::new(10, 0, 907).render(), "10.0.907");
    assert_eq!(
        Version::new(18446744073709551615, 0, 0).render(),
        "18446744073709551615.0.0"
    );
    let mut tagged = Version::new(1, 2, 3);
    tagged.pre = "alpha.1".to_string();
    assert_eq!(tagged.render(), "1.2.3-alpha.1");
    tagged.build = "build5".to_string();
    assert_eq!(tagged.render(), "1.2.3-alpha.1+build5");
    tagged.pre = String::new();
    assert_eq!(tagged.render(), "1.2.3+build5");
}

#[test]
fn version_clone_keeps_everything() {
    let mut version = Version::new(3, 4, 5);
    version.pre = "rc".to_string();
    version.build = "b".to_string();
    assert_eq!(version.clone(), version);
}

#[test]
fn dangling_reference_in_words() {
    let dangling = InvalidAncestorReference { language: "L".to_string(), ancestor: "gone".to_string() };
    assert_eq!(dangling.message(), "Invalid ancestor in L: gone");
}

#[test]
fn nameless_project_is_not_exported() {
    let mut project = Project::new();
    assert_eq!(project.export_name(), Err(ExportError::EmptyName));
    assert_eq!(ExportError::EmptyName.message(), "cannot export nameless project");
    project.name = "fam".to_string();
    assert_eq!(project.export_name(), Ok("fam".to_string()));
}

#[test]
fn parser_errors_in_words() {
    assert_eq!(
        lexi::parser::environment::Error::IncompleteParse("a_b_".to_string()).message(),
        "environment was incompletely parsed: `a_b_` was not parsed"
    );
    assert_eq!(
        lexi::parser::environment::Error::Nom("#x".to_string()).message(),
        "error Char at: #x"
    );
    assert_eq!(
        lexi::parser::syllable::Error::IncompleteParse("_".to_string()).message(),
        "syllable structure was incompletely parsed: `_` was not parsed"
    );
    assert_eq!(lexi::parser::syllable::Error::Nom("".to_string()).message(), "error Char at: ");
}
