//! The operations that the user interface asks for: each names the entity
//! it works on, and says of which kind it is.

use vstd::prelude::*;

use crate::base::LanguageType;
use crate::description::clone_description;
use crate::enumerate::{enumerate, enumerates};
use crate::epoch::{is_epoch, is_first_dangling, InvalidAncestorReference};
use crate::ids::{is_random_id, random_id};
use crate::language::{name_views, Language};
use crate::language_group::{
    find_language,
    find_protolanguage,
    is_language_creation,
    is_protolanguage_creation,
    language_names,
    protolanguage_names,
    visible,
    LanguageGroup,
    LanguageGroupError,
};
use crate::names::first_index;
use crate::naming::{epoch_name, next_name};
use crate::pattern::regex_captures;
use crate::phoneme::Phoneme;
use crate::project::Project;
use crate::protolanguage::Protolanguage;
use crate::validate::{names_of_languages, names_of_protolanguages};

verus! {

broadcast use vstd::std_specs::hash::group_hash_axioms;

/// The phonemes of its own that the entity called `name` holds, if there is
/// such an entity of that kind.
pub open spec fn own_phonemes(group: LanguageGroup, name: Seq<char>, kind: LanguageType) -> Option<
    Map<u128, Phoneme>,
> {
    match kind {
        LanguageType::Protolanguage => match group.spec_protolanguage(name) {
            Some(proto) => Some(proto.phonemes@),
            None => None,
        },
        LanguageType::Language => match group.spec_language(name) {
            Some(lang) => Some(lang.phonemes@),
            None => None,
        },
    }
}

/// The ancestors that the entity called `name` names: none for a
/// protolanguage.
pub open spec fn own_ancestors(group: LanguageGroup, name: Seq<char>, kind: LanguageType) -> Seq<
    Seq<char>,
> {
    match kind {
        LanguageType::Protolanguage => Seq::empty(),
        LanguageType::Language => match group.spec_language(name) {
            Some(lang) => name_views(lang.ancestors@),
            None => Seq::empty(),
        },
    }
}

/// The phoneme that the entity called `name` sees under `id`: its own, else
/// the one that its ancestors hand down. Nothing where there is no such
/// entity.
pub open spec fn seen(group: LanguageGroup, name: Seq<char>, kind: LanguageType, id: u128) -> Option<
    Phoneme,
> {
    match own_phonemes(group, name, kind) {
        Some(own) => visible(own, group.protolangs@, own_ancestors(group, name, kind), id),
        None => None,
    }
}

/// Whether two groups hold the same: version, family, and the same
/// protolanguages and languages in the same order.
pub open spec fn same_content(a: LanguageGroup, b: LanguageGroup) -> bool {
    &&& a.version == b.version
    &&& a.family_id == b.family_id
    &&& a.protolangs@ == b.protolangs@
    &&& a.langs@ == b.langs@
}

/// Whether `after` is `before` with its own phonemes replaced by `phonemes`.
pub open spec fn language_with(before: Language, after: Language, phonemes: Map<u128, Phoneme>) -> bool {
    &&& after.name@ == before.name@
    &&& name_views(after.ancestors@) == name_views(before.ancestors@)
    &&& after.description == before.description
    &&& after.phonemes@ == phonemes
}

/// Whether `after` is `before` with its phonemes replaced by `phonemes`.
pub open spec fn protolanguage_with(
    before: Protolanguage,
    after: Protolanguage,
    phonemes: Map<u128, Phoneme>,
) -> bool {
    &&& after.name@ == before.name@
    &&& after.description == before.description
    &&& after.phonemes@ == phonemes
}

/// Whether `after` is `before` but for the phonemes of its own of the
/// entity called `name`, which are now `phonemes`. No other entity changed.
pub open spec fn with_phonemes(
    before: LanguageGroup,
    after: LanguageGroup,
    name: Seq<char>,
    kind: LanguageType,
    phonemes: Map<u128, Phoneme>,
) -> bool {
    &&& after.version == before.version
    &&& after.family_id == before.family_id
    &&& match kind {
        LanguageType::Protolanguage => {
            &&& after.langs@ == before.langs@
            &&& first_index(protolanguage_names(before.protolangs@), name) matches Some(i)
            &&& after.protolangs@.len() == before.protolangs@.len()
            &&& protolanguage_with(before.protolangs@[i], after.protolangs@[i], phonemes)
            &&& forall|j: int|
                0 <= j < before.protolangs@.len() && j != i ==> #[trigger] after.protolangs@[j]
                    == before.protolangs@[j]
        },
        LanguageType::Language => {
            &&& after.protolangs@ == before.protolangs@
            &&& first_index(language_names(before.langs@), name) matches Some(i)
            &&& after.langs@.len() == before.langs@.len()
            &&& language_with(before.langs@[i], after.langs@[i], phonemes)
            &&& forall|j: int|
                0 <= j < before.langs@.len() && j != i ==> #[trigger] after.langs@[j]
                    == before.langs@[j]
        },
    }
}

/// Sets the phoneme `id` of the entity called `name`, after validating it.
/// The identifier must be one that the entity sees: its own, or one that an
/// ancestor provides. Otherwise nothing changes. Returns success.
pub fn set_phoneme(
    project: &mut Project,
    name: String,
    name_type: LanguageType,
    id: u128,
    phoneme: Phoneme,
) -> (done: bool)
    ensures
        done == seen(old(project).group, name@, name_type, id) is Some,
        final(project).name == old(project).name,
        !done ==> same_content(final(project).group, old(project).group),
        done ==> exists|stored: Phoneme|
            stored@ == phoneme@.validated() && #[trigger] with_phonemes(
                old(project).group,
                final(project).group,
                name@,
                name_type,
                own_phonemes(old(project).group, name@, name_type)->Some_0.insert(id, stored),
            ),
{
    let clean = phoneme.validated();
    match name_type {
        LanguageType::Protolanguage => {
            match find_protolanguage(&project.group.protolangs, name.as_str()) {
                Some(i) => {
                    let nobody: Vec<Protolanguage> = Vec::new();
                    let done = LanguageGroup::set_phoneme(
                        &nobody,
                        &mut project.group.protolangs[i],
                        id,
                        clean,
                    );
                    proof {
                        if done {
                            assert(with_phonemes(
                                old(project).group,
                                project.group,
                                name@,
                                name_type,
                                own_phonemes(old(project).group, name@, name_type)->Some_0.insert(
                                    id,
                                    clean,
                                ),
                            ));
                        } else {
                            assert(project.group.protolangs@ =~= old(project).group.protolangs@);
                        }
                    }
                    done
                },
                None => false,
            }
        },
        LanguageType::Language => {
            match find_language(&project.group.langs, name.as_str()) {
                Some(i) => {
                    let done = LanguageGroup::set_phoneme(
                        &project.group.protolangs,
                        &mut project.group.langs[i],
                        id,
                        clean,
                    );
                    proof {
                        if done {
                            assert(with_phonemes(
                                old(project).group,
                                project.group,
                                name@,
                                name_type,
                                own_phonemes(old(project).group, name@, name_type)->Some_0.insert(
                                    id,
                                    clean,
                                ),
                            ));
                        } else {
                            assert(project.group.langs@ =~= old(project).group.langs@);
                        }
                    }
                    done
                },
                None => false,
            }
        },
    }
}

/// The phoneme that the entity called `name` sees under `id`: a copy of it.
pub fn get_phoneme(project: &Project, name: String, name_type: LanguageType, id: u128) -> (found:
    Option<Phoneme>)
    ensures
        match found {
            Some(phoneme) => seen(project.group, name@, name_type, id) matches Some(held)
                && phoneme@ == held@,
            None => seen(project.group, name@, name_type, id) is None,
        },
{
    let seen = match name_type {
        LanguageType::Protolanguage => match project.group.protolanguage(name.as_str()) {
            Some(proto) => LanguageGroup::get_phoneme(&project.group.protolangs, proto, id),
            None => None,
        },
        LanguageType::Language => match project.group.language(name.as_str()) {
            Some(lang) => LanguageGroup::get_phoneme(&project.group.protolangs, lang, id),
            None => None,
        },
    };
    match seen {
        Some(phoneme) => Some(phoneme.clone()),
        None => None,
    }
}

/// Removes the phoneme `id` from the entity called `name` and returns it.
/// Only the entity's own phonemes are touched: where only an ancestor
/// provides the identifier, nothing is removed and nothing is returned.
pub fn delete_phoneme(project: &mut Project, name: String, name_type: LanguageType, id: u128) -> (removed:
    Option<Phoneme>)
    ensures
        final(project).name == old(project).name,
        match removed {
            Some(phoneme) => own_phonemes(old(project).group, name@, name_type) matches Some(own)
                && own.contains_key(id) && phoneme == own[id] && with_phonemes(
                old(project).group,
                final(project).group,
                name@,
                name_type,
                own.remove(id),
            ),
            None => same_content(final(project).group, old(project).group) && (own_phonemes(
                old(project).group,
                name@,
                name_type,
            ) matches Some(own) ==> !own.contains_key(id)),
        },
{
    match name_type {
        LanguageType::Protolanguage => {
            match find_protolanguage(&project.group.protolangs, name.as_str()) {
                Some(i) => {
                    if project.group.protolangs[i].phonemes.contains_key(&id) {
                        LanguageGroup::delete_phoneme(&mut project.group.protolangs[i], id)
                    } else {
                        None
                    }
                },
                None => None,
            }
        },
        LanguageType::Language => {
            match find_language(&project.group.langs, name.as_str()) {
                Some(i) => {
                    if project.group.langs[i].phonemes.contains_key(&id) {
                        LanguageGroup::delete_phoneme(&mut project.group.langs[i], id)
                    } else {
                        None
                    }
                },
                None => None,
            }
        },
    }
}

/// Everything that the entity called `name` sees: its own phonemes, then
/// those of each of its ancestors, nothing merged. Empty where there is no
/// such entity.
pub fn get_phonemes(project: &Project, name: String, name_type: LanguageType) -> (all: Vec<
    (u128, Phoneme),
>)
    ensures
        match own_phonemes(project.group, name@, name_type) {
            Some(own) => enumerates(
                all@,
                own,
                project.group.protolangs@,
                own_ancestors(project.group, name@, name_type),
            ),
            None => all@.len() == 0,
        },
{
    match name_type {
        LanguageType::Protolanguage => match project.group.protolanguage(name.as_str()) {
            Some(proto) => {
                let nobody: Vec<String> = Vec::new();
                assert(name_views(nobody@) =~= Seq::<Seq<char>>::empty());
                enumerate(&project.group.protolangs, &proto.phonemes, &nobody)
            },
            None => Vec::new(),
        },
        LanguageType::Language => match project.group.language(name.as_str()) {
            Some(lang) => enumerate(&project.group.protolangs, &lang.phonemes, &lang.ancestors),
            None => Vec::new(),
        },
    }
}

/// Adds `phoneme`, validated, to the phonemes of its own of the entity
/// called `name`, under `id`. Nothing changes where there is no such entity.
/// Returns whether there is one.
pub fn add_phoneme(
    project: &mut Project,
    name: &str,
    name_type: LanguageType,
    id: u128,
    phoneme: Phoneme,
) -> (done: bool)
    ensures
        done == own_phonemes(old(project).group, name@, name_type) is Some,
        final(project).name == old(project).name,
        !done ==> same_content(final(project).group, old(project).group),
        done ==> exists|stored: Phoneme|
            stored@ == phoneme@.validated() && #[trigger] with_phonemes(
                old(project).group,
                final(project).group,
                name@,
                name_type,
                own_phonemes(old(project).group, name@, name_type)->Some_0.insert(id, stored),
            ),
{
    let clean = phoneme.validated();
    match name_type {
        LanguageType::Protolanguage => {
            match find_protolanguage(&project.group.protolangs, name) {
                Some(i) => {
                    project.group.protolangs[i].phonemes.insert(id, clean);
                    assert(with_phonemes(
                        old(project).group,
                        project.group,
                        name@,
                        name_type,
                        own_phonemes(old(project).group, name@, name_type)->Some_0.insert(id, clean),
                    ));
                    true
                },
                None => false,
            }
        },
        LanguageType::Language => {
            match find_language(&project.group.langs, name) {
                Some(i) => {
                    project.group.langs[i].phonemes.insert(id, clean);
                    assert(with_phonemes(
                        old(project).group,
                        project.group,
                        name@,
                        name_type,
                        own_phonemes(old(project).group, name@, name_type)->Some_0.insert(id, clean),
                    ));
                    true
                },
                None => false,
            }
        },
    }
}

/// Whether `minted` and the project after it are what the creation of a
/// phoneme in the entity called `name` owes: a new identifier under which the
/// validated phoneme now stands, or nothing where there is no such entity.
pub open spec fn is_creation(
    before: Project,
    after: Project,
    name: Seq<char>,
    kind: LanguageType,
    phoneme: Phoneme,
    minted: Option<u128>,
) -> bool {
    &&& after.name == before.name
    &&& match minted {
        Some(id) => {
            &&& is_random_id(id)
            &&& own_phonemes(before.group, name, kind) is Some
            &&& exists|stored: Phoneme|
                stored@ == phoneme@.validated() && #[trigger] with_phonemes(
                    before.group,
                    after.group,
                    name,
                    kind,
                    own_phonemes(before.group, name, kind)->Some_0.insert(id, stored),
                )
        },
        None => own_phonemes(before.group, name, kind) is None && same_content(
            after.group,
            before.group,
        ),
    }
}

/// Creates a phoneme in the language called `name`: mints an identifier for
/// it and stores it, validated. Returns the identifier.
pub fn create_language_phoneme(project: &mut Project, name: String, phoneme: Phoneme) -> (minted:
    Option<u128>)
    ensures
        is_creation(*old(project), *final(project), name@, LanguageType::Language, phoneme, minted),
{
    let new_id = random_id();
    if add_phoneme(project, name.as_str(), LanguageType::Language, new_id, phoneme) {
        Some(new_id)
    } else {
        None
    }
}

/// Creates a phoneme in the protolanguage called `name`: mints an identifier
/// for it and stores it, validated. Returns the identifier.
pub fn create_protolanguage_phoneme(project: &mut Project, name: String, phoneme: Phoneme) -> (minted:
    Option<u128>)
    ensures
        is_creation(
            *old(project),
            *final(project),
            name@,
            LanguageType::Protolanguage,
            phoneme,
            minted,
        ),
{
    let new_id = random_id();
    if add_phoneme(project, name.as_str(), LanguageType::Protolanguage, new_id, phoneme) {
        Some(new_id)
    } else {
        None
    }
}

/// Replaces the project's snapshot by a new, empty family. The name stays.
pub fn new_language_group(project: &mut Project)
    ensures
        final(project).name == old(project).name,
        final(project).group.protolangs@.len() == 0,
        final(project).group.langs@.len() == 0,
        is_random_id(final(project).group.family_id),
{
    project.group = LanguageGroup::default();
}

/// Starts a new epoch: every language becomes a protolanguage, and the
/// project's name moves on. Where a language names an ancestor that does not
/// resolve, nothing changes and the reference is reported.
pub fn epoch_language_group(project: &mut Project) -> (outcome: Result<(), InvalidAncestorReference>)
    ensures
        match outcome {
            Ok(()) => is_epoch(old(project).group, final(project).group) && final(project).name@
                == match next_name(
                old(project).name@,
                regex_captures("(.*)([0-9]+)$"@, old(project).name@),
            ) {
                Some(text) => text,
                None => old(project).name@,
            },
            Err(dangling) => *final(project) == *old(project) && exists|i: int, k: int|
                #![trigger old(project).group.langs@[i].ancestors@[k]]
                is_first_dangling(
                    old(project).group.protolangs@,
                    old(project).group.langs@,
                    i,
                    k,
                ) && dangling.language@ == old(project).group.langs@[i].name@ && dangling.ancestor@
                    == old(project).group.langs@[i].ancestors@[k]@,
        },
{
    match project.group.try_epoch() {
        Ok(()) => {
            project.name = epoch_name(project.name.as_str());
            Ok(())
        },
        Err(dangling) => Err(dangling),
    }
}

/// The name of the project.
pub fn get_project_name(project: &Project) -> (name: String)
    ensures
        name == project.name,
{
    project.name.clone()
}

/// The identifier of the family.
pub fn get_family_id(project: &Project) -> (id: u128)
    ensures
        id == project.group.family_id,
{
    project.group.family_id
}

/// Gives the project another name.
pub fn set_project_name(project: &mut Project, name: String)
    ensures
        final(project).name == name,
        final(project).group == old(project).group,
{
    project.name = name;
}

/// Creates an empty language called `name`.
pub fn create_language(project: &mut Project, name: String) -> (outcome: Result<
    (),
    LanguageGroupError,
>)
    ensures
        final(project).name == old(project).name,
        is_language_creation(old(project).group, final(project).group, name, outcome),
{
    project.group.create_language(name)
}

/// Deletes the language called `name`, if there is one.
pub fn delete_language(project: &mut Project, name: String) -> (outcome: Result<
    (),
    LanguageGroupError,
>)
    ensures
        outcome is Ok,
        final(project).name == old(project).name,
        match first_index(language_names(old(project).group.langs@), name@) {
            Some(i) => final(project).group.langs@ == old(project).group.langs@.remove(i),
            None => final(project).group.langs@ == old(project).group.langs@,
        },
        final(project).group.protolangs == old(project).group.protolangs,
{
    project.group.delete_language(name);
    Ok(())
}

/// A copy of the language called `name`.
pub fn get_language(project: &Project, name: String) -> (found: Option<Language>)
    ensures
        match found {
            Some(lang) => project.group.spec_language(name@) matches Some(held) && lang@
                == held@,
            None => project.group.spec_language(name@) is None,
        },
{
    match project.group.language(name.as_str()) {
        Some(lang) => Some(lang.clone()),
        None => None,
    }
}

/// A copy of the description of the language called `name`.
pub fn get_language_description(project: &Project, name: String) -> (found: Option<
    serde_json::Value,
>)
    ensures
        found == match project.group.spec_language(name@) {
            Some(lang) => lang.description,
            None => None,
        },
{
    match project.group.language(name.as_str()) {
        Some(lang) => clone_description(&lang.description),
        None => None,
    }
}

/// Gives the language called `name` a description, if there is such a
/// language.
pub fn set_language_description(project: &mut Project, name: String, description: serde_json::Value)
    ensures
        final(project).name == old(project).name,
        final(project).group.protolangs@ == old(project).group.protolangs@,
        final(project).group.langs@.len() == old(project).group.langs@.len(),
        forall|j: int|
            0 <= j < old(project).group.langs@.len() ==> {
                let before = old(project).group.langs@[j];
                let after = #[trigger] final(project).group.langs@[j];
                if first_index(language_names(old(project).group.langs@), name@) == Some(j) {
                    &&& after.name == before.name
                    &&& after.phonemes == before.phonemes
                    &&& after.ancestors == before.ancestors
                    &&& after.description == Some(description)
                } else {
                    after == before
                }
            },
{
    if let Some(i) = find_language(&project.group.langs, name.as_str()) {
        project.group.langs[i].description = Some(description);
    }
}

/// The names of the languages, in stored order.
pub fn get_all_languages(project: &Project) -> (names: Vec<String>)
    ensures
        name_views(names@) == language_names(project.group.langs@),
{
    names_of_languages(&project.group.langs)
}

/// Creates an empty protolanguage called `name`.
pub fn create_protolanguage(project: &mut Project, name: String) -> (outcome: Result<
    (),
    LanguageGroupError,
>)
    ensures
        final(project).name == old(project).name,
        is_protolanguage_creation(old(project).group, final(project).group, name, outcome),
{
    project.group.create_protolanguage(name)
}

/// Deletes the protolanguage called `name`, if there is one.
pub fn delete_protolanguage(project: &mut Project, name: String) -> (outcome: Result<
    (),
    LanguageGroupError,
>)
    ensures
        outcome is Ok,
        final(project).name == old(project).name,
        match first_index(protolanguage_names(old(project).group.protolangs@), name@) {
            Some(i) => final(project).group.protolangs@ == old(project).group.protolangs@.remove(
                i,
            ),
            None => final(project).group.protolangs@ == old(project).group.protolangs@,
        },
        final(project).group.langs == old(project).group.langs,
{
    project.group.delete_protolanguage(name);
    Ok(())
}

/// A copy of the protolanguage called `name`.
pub fn get_protolanguage(project: &Project, name: String) -> (found: Option<Protolanguage>)
    ensures
        match found {
            Some(proto) => project.group.spec_protolanguage(name@) matches Some(held)
                && proto@ == held@,
            None => project.group.spec_protolanguage(name@) is None,
        },
{
    match project.group.protolanguage(name.as_str()) {
        Some(proto) => Some(proto.clone()),
        None => None,
    }
}

/// A copy of the description of the protolanguage called `name`.
pub fn get_protolanguage_description(project: &Project, name: String) -> (found: Option<
    serde_json::Value,
>)
    ensures
        found == match project.group.spec_protolanguage(name@) {
            Some(proto) => proto.description,
            None => None,
        },
{
    match project.group.protolanguage(name.as_str()) {
        Some(proto) => clone_description(&proto.description),
        None => None,
    }
}

/// Gives the protolanguage called `name` a description, if there is such a
/// protolanguage.
pub fn set_protolanguage_description(
    project: &mut Project,
    name: String,
    description: serde_json::Value,
)
    ensures
        final(project).name == old(project).name,
        final(project).group.langs@ == old(project).group.langs@,
        final(project).group.protolangs@.len() == old(project).group.protolangs@.len(),
        forall|j: int|
            0 <= j < old(project).group.protolangs@.len() ==> {
                let before = old(project).group.protolangs@[j];
                let after = #[trigger] final(project).group.protolangs@[j];
                if first_index(protolanguage_names(old(project).group.protolangs@), name@) == Some(
                    j,
                ) {
                    &&& after.name == before.name
                    &&& after.phonemes == before.phonemes
                    &&& after.description == Some(description)
                } else {
                    after == before
                }
            },
{
    if let Some(i) = find_protolanguage(&project.group.protolangs, name.as_str()) {
        project.group.protolangs[i].description = Some(description);
    }
}

/// The names of the protolanguages, in stored order.
pub fn get_all_protolanguages(project: &Project) -> (names: Vec<String>)
    ensures
        name_views(names@) == protolanguage_names(project.group.protolangs@),
{
    names_of_protolanguages(&project.group.protolangs)
}

} // verus!
