//! What is decided when a snapshot is saved, loaded or merged from a file:
//! under which name, and whether its content may come in.

use vstd::prelude::*;
use vstd::string::StringExecFns;

use crate::ids::{show_id, uuid_text};

use crate::language_group::{LanguageGroup, LanguageGroupError};
use crate::merge::is_merge;
use crate::project::Project;
use crate::validate::{group_fault, is_validation_of};
use crate::version::Version;

verus! {

/// Why a snapshot was not saved, loaded or merged.
#[derive(Debug, PartialEq)]
pub enum Error {
    /// cannot load projects from that version
    VersionMismatch(Version),
    /// cannot save to empty name
    EmptyName,
    /// cannot merge language group family `merge` into `current`
    FamilyMismatch { current: u128, merge: u128 },
    /// cannot merge nothing
    MergeEmpty,
    /// the snapshot breaks a rule on names
    LanguageGroup(LanguageGroupError),
}

impl Error {
    /// The error in words.
    pub open spec fn spec_message(self) -> Seq<char> {
        match self {
            Error::VersionMismatch(version) => "cannot load projects from version "@
                + version@.written(),
            Error::EmptyName => "cannot save to empty name"@,
            Error::FamilyMismatch { current, merge } => "cannot merge language group family "@
                + uuid_text(merge) + " -> "@ + uuid_text(current),
            Error::MergeEmpty => "cannot merge nothing"@,
            Error::LanguageGroup(e) => e.spec_message(),
        }
    }

    /// The error in words.
    pub fn message(&self) -> (text: String)
        ensures
            text@ == self.spec_message(),
    {
        match self {
            Error::VersionMismatch(version) => String::from_str(
                "cannot load projects from version ",
            ).concat(version.render().as_str()),
            Error::EmptyName => String::from_str("cannot save to empty name"),
            Error::FamilyMismatch { current, merge } => String::from_str(
                "cannot merge language group family ",
            ).concat(show_id(*merge).as_str()).concat(" -> ").concat(show_id(*current).as_str()),
            Error::MergeEmpty => String::from_str("cannot merge nothing"),
            Error::LanguageGroup(e) => e.message(),
        }
    }
}

/// Whether `outcome` and the project after it are what loading `loaded`
/// from the file `filename` owes, given whether the version can be read. A
/// snapshot that can be read and has no fault in its names replaces the
/// project's own, validated, under the name of the file; any other leaves
/// the project as it was.
pub open spec fn is_load(
    before: Project,
    after: Project,
    filename: String,
    loaded: LanguageGroup,
    compatible: bool,
    outcome: Result<(), Error>,
) -> bool {
    match outcome {
        Ok(()) => {
            &&& compatible
            &&& group_fault(loaded) is None
            &&& after.name == filename
            &&& is_validation_of(after.group, loaded)
            &&& after.group.is_well_formed()
        },
        Err(Error::VersionMismatch(version)) => !compatible && version == loaded.version && after
            == before,
        Err(Error::LanguageGroup(e)) => compatible && group_fault(loaded) == Some(e@) && after
            == before,
        Err(_) => false,
    }
}

/// Takes a loaded snapshot as the project's own, under the name of the file
/// it came from, if its version can be read and it passes validation.
pub fn install(project: &mut Project, filename: String, loaded: LanguageGroup, compatible: bool) -> (outcome:
    Result<(), Error>)
    ensures
        is_load(*old(project), *final(project), filename, loaded, compatible, outcome),
{
    if compatible {
        match loaded.validate() {
            Ok(group) => {
                project.name = filename;
                project.group = group;
                Ok(())
            },
            Err(e) => Err(Error::LanguageGroup(e)),
        }
    } else {
        Err(Error::VersionMismatch(loaded.version))
    }
}

/// Loads a snapshot that was read from the file `filename`: it replaces the
/// project's own if its version can be read and its names are in order, and
/// is refused otherwise.
pub fn load_language_group(project: &mut Project, filename: String, loaded: LanguageGroup) -> (outcome:
    Result<(), Error>)
    ensures
        is_load(
            *old(project),
            *final(project),
            filename,
            loaded,
            loaded.version@.is_compatible(),
            outcome,
        ),
{
    let compatible = loaded.version.is_compatible();
    install(project, filename, loaded, compatible)
}

/// Merges a loaded snapshot into the project's own, if its version can be
/// read and it belongs to the same family.
pub fn merge_in(project: &mut Project, loaded: &LanguageGroup, compatible: bool) -> (outcome: Result<
    (),
    Error,
>)
    ensures
        final(project).name == old(project).name,
        match outcome {
            Ok(()) => compatible && loaded.family_id == old(project).group.family_id && is_merge(
                old(project).group,
                *loaded,
                final(project).group,
            ),
            Err(Error::VersionMismatch(version)) => !compatible && version == loaded.version
                && *final(project) == *old(project),
            Err(Error::FamilyMismatch { current, merge }) => compatible && current != merge
                && current == old(project).group.family_id && merge == loaded.family_id && *final(project) == *old(project),
            Err(_) => false,
        },
{
    if compatible {
        if project.group.family_id == loaded.family_id {
            project.group.merge(loaded);
            Ok(())
        } else {
            Err(
                Error::FamilyMismatch {
                    current: project.group.family_id,
                    merge: loaded.family_id,
                },
            )
        }
    } else {
        Err(Error::VersionMismatch(loaded.version.clone()))
    }
}

/// Merges a snapshot that was read from a file into the project's own: its
/// languages replace the project's. A snapshot of a version that cannot be
/// read, or of another family, is refused.
pub fn merge_language_group(project: &mut Project, loaded: &LanguageGroup) -> (outcome: Result<
    (),
    Error,
>)
    ensures
        final(project).name == old(project).name,
        match outcome {
            Ok(()) => loaded.version@.is_compatible() && loaded.family_id == old(project).group.family_id && is_merge(old(project).group, *loaded, final(project).group),
            Err(Error::VersionMismatch(version)) => !loaded.version@.is_compatible() && version
                == loaded.version && *final(project) == *old(project),
            Err(Error::FamilyMismatch { current, merge }) => loaded.version@.is_compatible()
                && current != merge && current == old(project).group.family_id && merge
                == loaded.family_id && *final(project) == *old(project),
            Err(_) => false,
        },
{
    let compatible = loaded.version.is_compatible();
    merge_in(project, loaded, compatible)
}

} // verus!
