//! The project document: a family snapshot under a name.

use vstd::prelude::*;

use crate::ids::is_random_id;
use crate::language_group::{data_version, LanguageGroup};

verus! {

/// The document that the user works on: the name it is saved under, and
/// the family snapshot.
#[derive(Debug, PartialEq)]
pub struct Project {
    pub name: String,
    pub group: LanguageGroup,
}

impl Project {
    /// A nameless project that holds a new family: no protolanguage, no
    /// language, the version of this library, and a family identifier drawn
    /// at random.
    pub fn new() -> (project: Project)
        ensures
            project.name@.len() == 0,
            project.group.version@ == data_version(),
            is_random_id(project.group.family_id),
            project.group.protolangs@.len() == 0,
            project.group.langs@.len() == 0,
    {
        Project { name: String::new(), group: LanguageGroup::default() }
    }
}

/// Why a project is not exported.
#[derive(PartialEq, Eq, Structural, Copy, Clone, Debug)]
pub enum ExportError {
    /// cannot export nameless project
    EmptyName,
}

impl ExportError {
    /// The error in words.
    pub fn message(&self) -> (text: String)
        ensures
            text@ == "cannot export nameless project"@,
    {
        "cannot export nameless project".to_string()
    }
}

impl Project {
    /// The name under which the project is exported. A nameless project is
    /// not exported.
    pub fn export_name(&self) -> (name: Result<String, ExportError>)
        ensures
            match name {
                Ok(text) => text == self.name && self.name@.len() > 0,
                Err(e) => self.name@.len() == 0,
            },
    {
        if self.name.as_str().is_empty() {
            Err(ExportError::EmptyName)
        } else {
            Ok(self.name.clone())
        }
    }
}

impl Clone for Project {
    fn clone(&self) -> (copy: Project)
        ensures
            copy.name == self.name,
            copy.group@ == self.group@,
    {
        Project { name: self.name.clone(), group: self.group.clone() }
    }
}

} // verus!
